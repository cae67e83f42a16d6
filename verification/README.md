# control_center

The view-model of the MCP project console, verified with Verus.

`src/` is the library: every function in it carries a contract that Verus
proves.

- `wire`, `reads`: what the host sends, and the rules that turn it into
  the rows the screen shows.
- `cache`, `feed`: the store those rows live in, and how a read lands in
  it (a read that says nothing new changes nothing; a feed merges pages
  on their sequence numbers, newest first).
- `sync`: the fetch scheduler, one step per frame, with one read per slot
  in flight.
- `graph`, `lanes`: a feature's modules as a layered graph, with columns
  by depth, barycentre sweeps, and edge trunks set in lanes.
- `edits`, `forms`, `writes`, `multipart`, `compose`: what each edit sends,
  the form it shows, what follows its answer, and the capture composer.
- `screens`, `rows`, `panels`, `labels`, `knowledge`: what each surface
  shows.
- `text`, `seqs`, `model`: the shared vocabulary.

`app/` is the program around it: the frame loop, the host calls, the
pixels of the graph's edges and the keyboard's UTF-16 offsets. It builds
against the UI runtime and the host's API crate.

`tests/` runs the library on concrete values.
