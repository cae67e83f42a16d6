use control_center::graph::{GraphLayout, Link};
use control_center::lanes::{lane_order, trunks_of, Stub, Trunk};
use control_center::model::{Module, Status};

fn module(id: &str, depth: usize, deps: &[&str]) -> Module {
    Module {
        id: id.into(),
        name: id.into(),
        status: Status::Queued,
        depends_on: deps.iter().map(|d| d.to_string()).collect(),
        depth,
        ..Default::default()
    }
}

fn trunk(to: usize, yt: u128, ys: &[u128]) -> Trunk {
    Trunk {
        to,
        yt,
        stubs: ys.iter().map(|&y| Stub { y, link: Link { from: 0, to, edge: 0 } }).collect(),
    }
}

// Two dependents in the same column, on different rows, get their own
// lanes — otherwise A→D and B→C read as one line.
#[test]
fn edges_into_different_rows_do_not_share_a_lane() {
    let modules = vec![module("a", 1, &[]), module("b", 1, &[]), module("c", 2, &["b"]), module("d", 2, &["a"])];
    let layout = GraphLayout::compute(&modules);
    let trunks = lane_order(trunks_of(&layout, 0));
    assert_eq!(trunks.len(), 2);
    assert_ne!(trunks[0].to, trunks[1].to);
}

// Fan-in merges: every hop into one node shares its trunk.
#[test]
fn hops_into_one_node_share_a_trunk() {
    let modules = vec![module("a", 1, &[]), module("b", 1, &[]), module("c", 2, &["a", "b"])];
    let layout = GraphLayout::compute(&modules);
    let trunks = trunks_of(&layout, 0);
    assert_eq!(trunks.len(), 1);
    assert_eq!(trunks[0].to, 2);
    assert_eq!(trunks[0].stubs.len(), 2);
    // Each stub leaves its source's centre; the trunk ends at its target's.
    for s in &trunks[0].stubs {
        assert_eq!(s.y, layout.nodes[s.link.from].y + 62);
    }
    assert_eq!(trunks[0].yt, layout.nodes[2].y + 62);
    // Nothing leaves the last column.
    assert!(trunks_of(&layout, 1).is_empty());
}

// Lanes start in the order of their targets' heights, and a trunk goes
// where it adds the fewest crossings, the first such place on a tie.
#[test]
fn a_lane_goes_where_it_crosses_least() {
    // A runs 10..100, B runs 50..60: each way round costs one crossing,
    // so B takes the first place.
    let order: Vec<usize> = lane_order(vec![trunk(1, 10, &[100]), trunk(2, 50, &[60])]).iter().map(|t| t.to).collect();
    assert_eq!(order, vec![2, 1]);
    // Disjoint runs cross nothing either way, so each later trunk takes
    // the first place: the lower target ends up leftmost.
    let order: Vec<usize> = lane_order(vec![trunk(2, 300, &[310]), trunk(1, 10, &[20])]).iter().map(|t| t.to).collect();
    assert_eq!(order, vec![2, 1]);
    // A short trunk inside a long one: to its left it costs one crossing
    // (the long one's vertical meets its run in), to its right two (its
    // stubs cross the long vertical), so it goes left.
    let order: Vec<usize> = lane_order(vec![trunk(1, 0, &[100]), trunk(2, 40, &[50, 60])]).iter().map(|t| t.to).collect();
    assert_eq!(order, vec![2, 1]);
}
