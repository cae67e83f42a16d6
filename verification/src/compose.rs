//! The capture composer's decisions: which tags a `#fragment` matches,
//! what Tab completes it to, how a tag is appended, and the lines that
//! say what pressing the button will do and what it did.
use vstd::prelude::*;

use crate::model::TagRow;
use crate::seqs::positions;
use vstd::string::StringSliceAdditionalSpecFns;
use vstd::utf8::{decode_utf8, encode_utf8, encode_utf8_decode_utf8, encode_utf8_valid_utf8, is_char_boundary};

use crate::text::{same_text, begins_with, dec, dec_int, is_white, joined, join, push_char, push_decimal, push_decimal_i64, starts_with, white};

verus! {

/// How many matches the list shows at once. Past this the panel stops
/// being something you scan and starts being something you scroll;
/// capping keeps every row the cursor can reach on screen.
pub const SHOWN: usize = 8;

/// The tags whose slug starts with the fragment.
pub open spec fn slug_matches(fragment: Seq<char>) -> spec_fn(int, TagRow) -> bool {
    |i: int, t: TagRow| starts_with(t.name@, fragment)
}

/// Places in the registry whose slug starts with `fragment`, in the
/// registry's own most-used-first order.
pub fn matching(tags: &[TagRow], fragment: &str) -> (r: Vec<usize>)
    ensures
        r@ == positions(tags@, slug_matches(fragment@)),
{
    let mut out: Vec<usize> = Vec::new();
    let mut i: usize = 0;
    while i < tags.len()
        invariant
            i <= tags@.len(),
            out@ == positions(tags@.take(i as int), slug_matches(fragment@)),
        decreases tags.len() - i,
    {
        proof {
            crate::seqs::lemma_positions_step(tags@, slug_matches(fragment@), i as int);
        }
        if begins_with(tags[i].name.as_str(), fragment) {
            out.push(i);
        }
        i = i + 1;
    }
    assert(tags@.take(tags.len() as int) =~= tags@);
    out
}

/// The matches the list renders — the ones the keyboard cursor may land
/// on: the first [`SHOWN`] of them.
pub fn shown(tags: &[TagRow], fragment: &str) -> (r: Vec<usize>)
    ensures
        r@ == positions(tags@, slug_matches(fragment@)).take(
            if positions(tags@, slug_matches(fragment@)).len() > SHOWN {
                SHOWN as int
            } else {
                positions(tags@, slug_matches(fragment@)).len() as int
            },
        ),
{
    let mut hits = matching(tags, fragment);
    hits.truncate(SHOWN);
    hits
}

/// The matches the list renders, as places in the registry.
pub open spec fn shown_hits(tags: Seq<TagRow>, fragment: Seq<char>) -> Seq<usize> {
    let all = positions(tags, slug_matches(fragment));
    all.take(if all.len() > SHOWN { SHOWN as int } else { all.len() as int })
}

/// The row the keyboard cursor is on: `highlight`, held to the last row.
pub open spec fn picked(hits: Seq<usize>, highlight: int) -> usize {
    hits[if highlight < hits.len() { highlight } else { hits.len() - 1 }]
}

/// What accepting the highlighted match inserts after the `#fragment`:
/// the rest of its slug and the space that ends the tag; nothing when no
/// tag matches.
pub open spec fn acceptance(tags: Seq<TagRow>, fragment: Seq<char>, highlight: int) -> Option<Seq<char>> {
    let hits = shown_hits(tags, fragment);
    if hits.len() == 0 {
        None
    } else {
        Some(tags[picked(hits, highlight) as int].name@.skip(fragment.len() as int).push(' '))
    }
}

/// The text accepting the highlighted match puts after the caret.
pub fn accepted(tags: &[TagRow], fragment: &str, highlight: usize) -> (r: Option<String>)
    ensures
        match acceptance(tags@, fragment@, highlight as int) {
            Some(s) => r matches Some(x) && x@ == s,
            None => r is None,
        },
{
    let hits = shown(tags, fragment);
    if hits.len() == 0 {
        return None;
    }
    let at = if highlight < hits.len() {
        highlight
    } else {
        hits.len() - 1
    };
    let total = tags.len();
    proof {
        assert(tags@.len() == total);
        crate::seqs::lemma_positions_hold(tags@, slug_matches(fragment@));
        assert(hits@[at as int] == positions(tags@, slug_matches(fragment@))[at as int]);
    }
    let name = tags[hits[at]].name.as_str();
    let f = fragment.unicode_len();
    let n = name.unicode_len();
    let mut insert = String::from_str(name.substring_char(f, n));
    proof {
        assert(name@.subrange(f as int, n as int) =~= name@.skip(f as int));
    }
    push_char(&mut insert, ' ');
    Some(insert)
}

// ---------------------------------------------------------------------
// Tab completion
// ---------------------------------------------------------------------

/// How many leading characters two texts share.
pub open spec fn shared(a: Seq<char>, b: Seq<char>) -> nat
    decreases a.len(),
{
    if a.len() == 0 || b.len() == 0 || a[0] != b[0] {
        0
    } else {
        1 + shared(a.drop_first(), b.drop_first())
    }
}

/// The longest prefix every text shares, taken left to right.
pub open spec fn common_prefix(s: Seq<Seq<char>>) -> Seq<char>
    decreases s.len(),
{
    if s.len() <= 1 {
        if s.len() == 1 {
            s[0]
        } else {
            Seq::empty()
        }
    } else {
        let acc = common_prefix(s.drop_last());
        acc.take(shared(acc, s.last()) as int)
    }
}

proof fn lemma_shared_bound(a: Seq<char>, b: Seq<char>)
    ensures
        shared(a, b) <= a.len(),
        shared(a, b) <= b.len(),
        forall|i: int| 0 <= i < shared(a, b) ==> a[i] == b[i],
        shared(a, b) < a.len() && shared(a, b) < b.len() ==> a[shared(a, b) as int] != b[shared(a, b) as int],
    decreases a.len(),
{
    if !(a.len() == 0 || b.len() == 0 || a[0] != b[0]) {
        lemma_shared_bound(a.drop_first(), b.drop_first());
        assert forall|i: int| 0 <= i < shared(a, b) implies a[i] == b[i] by {
            if i > 0 {
                assert(a.drop_first()[i - 1] == b.drop_first()[i - 1]);
            }
        }
    }
}

fn shared_len(a: &str, b: &str) -> (r: usize)
    ensures
        r == shared(a@, b@),
{
    let n = a.unicode_len();
    let m = b.unicode_len();
    let mut k: usize = 0;
    assert(a@.skip(0) =~= a@);
    assert(b@.skip(0) =~= b@);
    while k < n && k < m && a.get_char(k) == b.get_char(k)
        invariant
            n == a@.len(),
            m == b@.len(),
            k <= n,
            k <= m,
            shared(a@, b@) == k + shared(a@.skip(k as int), b@.skip(k as int)),
        decreases n - k,
    {
        assert(a@.skip(k as int).drop_first() =~= a@.skip(k + 1));
        assert(b@.skip(k as int).drop_first() =~= b@.skip(k + 1));
        assert(a@.skip(k as int)[0] == a@[k as int]);
        assert(b@.skip(k as int)[0] == b@[k as int]);
        k = k + 1;
    }
    proof {
        let sa = a@.skip(k as int);
        let sb = b@.skip(k as int);
        if k < n && k < m {
            assert(sa[0] == a@[k as int]);
            assert(sb[0] == b@[k as int]);
        }
    }
    k
}

/// The slugs that start with the fragment, in order.
pub open spec fn completions(names: Seq<Seq<char>>, fragment: Seq<char>) -> Seq<Seq<char>> {
    names.filter(|n: Seq<char>| starts_with(n, fragment))
}

/// What Tab inserts after `fragment`: the matches' longest common
/// prefix past what is typed — the shell rule — and a space when the
/// match is unambiguous. Nothing when nothing matches or the prefix
/// adds nothing.
pub open spec fn completion(names: Seq<Seq<char>>, fragment: Seq<char>) -> Option<Seq<char>> {
    let m = completions(names, fragment);
    let common = common_prefix(m);
    if m.len() == 0 || common.len() <= fragment.len() {
        None
    } else if m.len() == 1 {
        Some(common.skip(fragment.len() as int).push(' '))
    } else {
        Some(common.skip(fragment.len() as int))
    }
}

/// What Tab should insert after the `#fragment` under the caret, given
/// the registry's slugs.
pub fn complete_from(names: &Vec<String>, fragment: &str) -> (r: Option<String>)
    ensures
        match completion(names.deep_view(), fragment@) {
            Some(s) => r matches Some(x) && x@ == s,
            None => r is None,
        },
{
    let mut matches: Vec<String> = Vec::new();
    let mut i: usize = 0;
    while i < names.len()
        invariant
            i <= names.len(),
            matches.deep_view() == completions(names.deep_view().take(i as int), fragment@),
        decreases names.len() - i,
    {
        proof {
            reveal(Seq::filter);
            assert(names.deep_view().take(i + 1).drop_last() =~= names.deep_view().take(i as int));
        }
        if begins_with(names[i].as_str(), fragment) {
            let ghost before = matches.deep_view();
            matches.push(names[i].clone());
            assert(matches.deep_view() =~= before.push(names.deep_view()[i as int]));
        }
        i = i + 1;
    }
    assert(names.deep_view().take(names.len() as int) =~= names.deep_view());
    let ghost m = matches.deep_view();
    if matches.len() == 0 {
        return None;
    }
    let mut common = matches[0].clone();
    let mut j: usize = 1;
    proof {
        assert(m.take(1) =~= seq![m[0]]);
    }
    while j < matches.len()
        invariant
            m == matches.deep_view(),
            1 <= j <= matches.len(),
            common@ == common_prefix(m.take(j as int)),
        decreases matches.len() - j,
    {
        assert(m.take(j + 1).drop_last() =~= m.take(j as int));
        let keep = shared_len(common.as_str(), matches[j].as_str());
        proof {
            lemma_shared_bound(common@, matches[j as int]@);
        }
        let next = String::from_str(common.as_str().substring_char(0, keep));
        common = next;
        j = j + 1;
    }
    assert(m.take(matches.len() as int) =~= m);
    let f = fragment.unicode_len();
    let c = common.unicode_len();
    if c <= f {
        return None;
    }
    let mut insert = String::from_str(common.as_str().substring_char(f, c));
    if matches.len() == 1 {
        push_char(&mut insert, ' ');
    }
    assert(common@.skip(f as int) =~= common@.subrange(f as int, c as int));
    Some(insert)
}

// ---------------------------------------------------------------------
// The buffer
// ---------------------------------------------------------------------

/// The draft with `#name` appended, the spacing already right: a space
/// first unless the draft is empty or ends in whitespace, and one after.
pub open spec fn with_tag(draft: Seq<char>, name: Seq<char>) -> Seq<char> {
    let sep = if draft.len() > 0 && !white(draft.last()) {
        seq![' ']
    } else {
        Seq::empty()
    };
    draft + sep + seq!['#'] + name + seq![' ']
}

/// Appends `#name` to the draft.
pub fn append_tag(draft: &str, name: &str) -> (r: String)
    ensures
        r@ == with_tag(draft@, name@),
{
    let mut next = String::from_str(draft);
    let n = draft.unicode_len();
    if n > 0 && !is_white(draft.get_char(n - 1)) {
        push_char(&mut next, ' ');
    }
    push_char(&mut next, '#');
    next.append(name);
    push_char(&mut next, ' ');
    assert(next@ =~= with_tag(draft@, name@));
    next
}

// ---------------------------------------------------------------------
// What the button does, and what it did
// ---------------------------------------------------------------------

/// The button's label, counting the wants in the buffer.
pub open spec fn submit_text(count: nat) -> Seq<char> {
    if count == 0 {
        "Add want"@
    } else if count == 1 {
        "Add 1 want"@
    } else {
        "Add "@ + dec(count) + " wants"@
    }
}

/// The button's own label: what pressing it does.
pub fn submit_label(count: usize) -> (r: String)
    ensures
        r@ == submit_text(count as nat),
{
    if count == 0 {
        String::from_str("Add want")
    } else if count == 1 {
        String::from_str("Add 1 want")
    } else {
        let mut out = String::from_str("Add ");
        push_decimal(&mut out, count as u128);
        out.append(" wants");
        out
    }
}

/// The tags of the drafts, in order, each once.
pub open spec fn distinct_tags(drafts: Seq<Seq<Seq<char>>>) -> Seq<Seq<char>>
    decreases drafts.len(),
{
    if drafts.len() == 0 {
        Seq::empty()
    } else {
        add_new(distinct_tags(drafts.drop_last()), drafts.last())
    }
}

/// `tags` followed by those of `more` it does not hold yet, in order.
pub open spec fn add_new(tags: Seq<Seq<char>>, more: Seq<Seq<char>>) -> Seq<Seq<char>>
    decreases more.len(),
{
    if more.len() == 0 {
        tags
    } else {
        let before = add_new(tags, more.drop_last());
        if before.contains(more.last()) {
            before
        } else {
            before.push(more.last())
        }
    }
}

/// How many of `tags` the registry does not hold.
pub open spec fn fresh_count(tags: Seq<Seq<char>>, known: Seq<Seq<char>>) -> nat {
    tags.filter(|t: Seq<char>| !known.contains(t)).len()
}

/// What pressing the button will do: how many wants, how many tags,
/// how many of those are new. Nothing with an empty buffer — the
/// editor's placeholder carries the instruction.
pub open spec fn summary_text(drafts: Seq<Seq<Seq<char>>>, known: Seq<Seq<char>>) -> Seq<char> {
    let tags = distinct_tags(drafts);
    let fresh = fresh_count(tags, known);
    let wants = if drafts.len() == 1 {
        "1 want"@
    } else {
        dec(drafts.len()) + " wants"@
    };
    let parts = seq![wants] + (if tags.len() > 0 {
        seq![dec(tags.len()) + " tag(s)"@]
    } else {
        Seq::empty()
    }) + (if fresh > 0 {
        seq![dec(fresh) + " new"@]
    } else {
        Seq::empty()
    });
    if drafts.len() == 0 {
        Seq::empty()
    } else {
        joined(parts, " \u{b7} "@)
    }
}

fn holds(list: &Vec<String>, t: &str) -> (r: bool)
    ensures
        r == list.deep_view().contains(t@),
{
    let mut k: usize = 0;
    while k < list.len()
        invariant
            k <= list.len(),
            forall|j: int| 0 <= j < k ==> list.deep_view()[j] != t@,
        decreases list.len() - k,
    {
        if crate::text::same_text(list[k].as_str(), t) {
            assert(list.deep_view()[k as int] == t@);
            return true;
        }
        k = k + 1;
    }
    false
}

/// The drafts' tags, each list as parsed from one line of the buffer.
pub open spec fn draft_tags(drafts: Seq<Vec<String>>) -> Seq<Seq<Seq<char>>> {
    drafts.map_values(|d: Vec<String>| d.deep_view())
}

/// What pressing the button will do, in one line: the wants parsed from
/// the buffer (each by its tags) against the registry's slugs.
pub fn summarize(drafts: &Vec<Vec<String>>, known: &Vec<String>) -> (r: String)
    ensures
        r@ == summary_text(draft_tags(drafts@), known.deep_view()),
{
    if drafts.len() == 0 {
        return String::new();
    }
    let ghost ds = draft_tags(drafts@);
    let mut tags: Vec<String> = Vec::new();
    let mut i: usize = 0;
    while i < drafts.len()
        invariant
            i <= drafts.len(),
            ds == draft_tags(drafts@),
            tags.deep_view() == distinct_tags(ds.take(i as int)),
        decreases drafts.len() - i,
    {
        assert(ds.take(i + 1).drop_last() =~= ds.take(i as int));
        let d = &drafts[i];
        let ghost start = tags.deep_view();
        let mut k: usize = 0;
        while k < d.len()
            invariant
                k <= d.len(),
                tags.deep_view() == add_new(start, d.deep_view().take(k as int)),
            decreases d.len() - k,
        {
            assert(d.deep_view().take(k + 1).drop_last() =~= d.deep_view().take(k as int));
            if !holds(&tags, d[k].as_str()) {
                let ghost before = tags.deep_view();
                tags.push(d[k].clone());
                assert(tags.deep_view() =~= before.push(d.deep_view()[k as int]));
            }
            k = k + 1;
        }
        assert(d.deep_view().take(d.len() as int) =~= d.deep_view());
        assert(ds.take(i + 1).last() == d.deep_view());
        i = i + 1;
    }
    assert(ds.take(drafts.len() as int) =~= ds);
    let mut fresh: usize = 0;
    let mut j: usize = 0;
    while j < tags.len()
        invariant
            j <= tags.len(),
            fresh == fresh_count(tags.deep_view().take(j as int), known.deep_view()),
            fresh <= j,
        decreases tags.len() - j,
    {
        proof {
            reveal(Seq::filter);
            assert(tags.deep_view().take(j + 1).drop_last() =~= tags.deep_view().take(j as int));
        }
        if !holds(known, tags[j].as_str()) {
            fresh = fresh + 1;
        }
        j = j + 1;
    }
    assert(tags.deep_view().take(tags.len() as int) =~= tags.deep_view());
    let mut parts: Vec<String> = Vec::new();
    if drafts.len() == 1 {
        parts.push(String::from_str("1 want"));
    } else {
        let mut w = String::new();
        push_decimal(&mut w, drafts.len() as u128);
        w.append(" wants");
        parts.push(w);
    }
    let ghost p0 = parts.deep_view();
    if tags.len() > 0 {
        let mut t = String::new();
        push_decimal(&mut t, tags.len() as u128);
        t.append(" tag(s)");
        parts.push(t);
    }
    let ghost p1 = parts.deep_view();
    if fresh > 0 {
        let mut f = String::new();
        push_decimal(&mut f, fresh as u128);
        f.append(" new");
        parts.push(f);
    }
    proof {
        let tagsv = distinct_tags(ds);
        let freshv = fresh_count(tagsv, known.deep_view());
        let wants = if ds.len() == 1 {
            "1 want"@
        } else {
            dec(ds.len()) + " wants"@
        };
        assert(p0 =~= seq![wants]);
        assert(parts.deep_view() =~= seq![wants] + (if tagsv.len() > 0 {
            seq![dec(tagsv.len()) + " tag(s)"@]
        } else {
            Seq::empty()
        }) + (if freshv > 0 {
            seq![dec(freshv) + " new"@]
        } else {
            Seq::empty()
        }));
    }
    join(&parts, " \u{b7} ")
}

/// What the server reported for a capture, in one line.
pub open spec fn capture_text(added: nat, new_tags: Seq<Seq<char>>, skipped: int) -> Seq<char> {
    let head = if added == 1 {
        "Captured 1 want"@
    } else {
        "Captured "@ + dec(added) + " wants"@
    };
    let created = if new_tags.len() > 0 {
        " \u{b7} created #"@ + joined(new_tags, " #"@)
    } else {
        Seq::empty()
    };
    let skipped_part = if skipped > 0 {
        " \u{b7} "@ + dec_int(skipped) + " line(s) had no idea in them"@
    } else {
        Seq::empty()
    };
    head + created + skipped_part
}

/// What the server reported for a capture — how many wants, which tags
/// it created, how many lines held no idea — in one line.
pub fn describe(added: usize, new_tags: &Vec<String>, skipped: i64) -> (r: String)
    ensures
        r@ == capture_text(added as nat, new_tags.deep_view(), skipped as int),
{
    let mut out = if added == 1 {
        String::from_str("Captured 1 want")
    } else {
        let mut s = String::from_str("Captured ");
        push_decimal(&mut s, added as u128);
        s.append(" wants");
        s
    };
    let ghost head = out@;
    if new_tags.len() > 0 {
        out.append(" \u{b7} created #");
        let names = join(new_tags, " #");
        out.append(names.as_str());
    }
    let ghost with_created = out@;
    if skipped > 0 {
        out.append(" \u{b7} ");
        push_decimal_i64(&mut out, skipped);
        out.append(" line(s) had no idea in them");
    }
    assert(out@ =~= capture_text(added as nat, new_tags.deep_view(), skipped as int));
    out
}

// ---------------------------------------------------------------------
// The keystroke ahead
// ---------------------------------------------------------------------

/// How many UTF-16 units a character takes.
pub open spec fn utf16_width(c: char) -> nat {
    if (c as u32) >= 0x10000 {
        2
    } else {
        1
    }
}

fn utf16_len(c: char) -> (w: usize)
    ensures
        w == utf16_width(c),
{
    if (c as u32) >= 0x10000 {
        2
    } else {
        1
    }
}

/// A key the platform reports on its own while a chord is held.
pub open spec fn is_modifier(key: Seq<char>) -> bool {
    key == "Shift"@ || key == "Control"@ || key == "Alt"@ || key == "Meta"@
}

/// A key that types its own character: one character, and no chord.
pub open spec fn types_itself(key: Seq<char>, chord: bool) -> bool {
    key.len() == 1 && !chord
}

/// The text before byte `at` of an encoding.
pub open spec fn before_byte(bytes: Seq<u8>, at: int) -> Seq<char> {
    decode_utf8(bytes.take(at))
}

/// The text from byte `at` of an encoding on.
pub open spec fn from_byte(bytes: Seq<u8>, at: int) -> Seq<char> {
    decode_utf8(bytes.skip(at))
}

/// The offsets a key cuts the text at are character boundaries, and the
/// caret it leaves is a `usize`.
pub open spec fn key_fits(bytes: Seq<u8>, start: int, end: int, key: Seq<char>, chord: bool, caret: int) -> bool {
    if types_itself(key, chord) {
        is_char_boundary(bytes, start) && is_char_boundary(bytes, end) && caret + utf16_width(key[0]) <= usize::MAX
    } else if is_modifier(key) || key != "Backspace"@ {
        true
    } else if end > start {
        is_char_boundary(bytes, start) && is_char_boundary(bytes, end)
    } else if start == 0 {
        true
    } else {
        is_char_boundary(bytes, start) && caret >= utf16_width(before_byte(bytes, start).last())
    }
}

/// The buffer and caret once a key lands on a selection from byte
/// `start` to byte `end`, the caret at `caret` UTF-16 units: a typed
/// character replaces the selection, a lone modifier changes nothing,
/// Backspace removes the selection or the one character before it, and
/// any other key is not predicted.
pub open spec fn key_lands(
    text: Seq<char>,
    bytes: Seq<u8>,
    start: int,
    end: int,
    key: Seq<char>,
    chord: bool,
    caret: int,
) -> Option<(Seq<char>, int)> {
    if types_itself(key, chord) {
        Some((before_byte(bytes, start) + key + from_byte(bytes, end), caret + utf16_width(key[0])))
    } else if is_modifier(key) {
        Some((text, caret))
    } else if key != "Backspace"@ {
        None
    } else if end > start {
        Some((before_byte(bytes, start) + from_byte(bytes, end), caret))
    } else if start == 0 {
        Some((text, 0))
    } else {
        let before = before_byte(bytes, start);
        Some((before.drop_last() + from_byte(bytes, start), caret - utf16_width(before.last())))
    }
}

/// The two sides of a cut at a character boundary, as text.
fn cut(text: &str, at: usize) -> (r: (&str, &str))
    requires
        is_char_boundary(text.spec_bytes(), at as int),
    ensures
        r.0@ == before_byte(text.spec_bytes(), at as int),
        r.1@ == from_byte(text.spec_bytes(), at as int),
        r.0.spec_bytes() == text.spec_bytes().take(at as int),
        at <= text.spec_bytes().len(),
{
    proof {
        encode_utf8_valid_utf8(text@);
    }
    let (head, tail) = text.split_at(at);
    proof {
        assert(head.spec_bytes() =~= text.spec_bytes().take(at as int));
        assert(tail.spec_bytes() =~= text.spec_bytes().skip(at as int));
        encode_utf8_decode_utf8(head@);
        encode_utf8_decode_utf8(tail@);
    }
    (head, tail)
}

/// The composer's buffer and caret as they will be once a key has
/// landed, so the tag list tracks what was typed rather than what stood
/// before the key. `start` and `end` are the selection's byte offsets,
/// `caret` its start in UTF-16 units, and `chord` whether Ctrl or Meta
/// is held.
pub fn after_key(text: &str, start: usize, end: usize, key: &str, chord: bool, caret: usize) -> (r: Option<(String, usize)>)
    requires
        key_fits(text.spec_bytes(), start as int, end as int, key@, chord, caret as int),
    ensures
        r matches Some((s, c)) ==> key_lands(text@, text.spec_bytes(), start as int, end as int, key@, chord, caret as int)
            == Some((s@, c as int)),
        r is None ==> key_lands(text@, text.spec_bytes(), start as int, end as int, key@, chord, caret as int) is None,
{
    if key.unicode_len() == 1 && !chord {
        let (head, _) = cut(text, start);
        let (_, tail) = cut(text, end);
        let mut next = String::from_str(head);
        next.append(key);
        next.append(tail);
        let w = utf16_len(key.get_char(0));
        return Some((next, caret + w));
    }
    if same_text(key, "Shift") || same_text(key, "Control") || same_text(key, "Alt") || same_text(key, "Meta") {
        return Some((String::from_str(text), caret));
    }
    if !same_text(key, "Backspace") {
        return None;
    }
    if end > start {
        let (head, _) = cut(text, start);
        let (_, tail) = cut(text, end);
        let mut next = String::from_str(head);
        next.append(tail);
        return Some((next, caret));
    }
    if start == 0 {
        return Some((String::from_str(text), 0));
    }
    let (head, tail) = cut(text, start);
    proof {
        assert(head.spec_bytes().len() == start);
        if head@.len() == 0 {
            assert(encode_utf8(head@) =~= Seq::<u8>::empty());
        }
    }
    let n = head.unicode_len();
    let prev = head.get_char(n - 1);
    let kept = head.substring_char(0, n - 1);
    let mut next = String::from_str(kept);
    next.append(tail);
    proof {
        assert(kept@ =~= head@.drop_last());
    }
    Some((next, caret - utf16_len(prev)))
}

// ---------------------------------------------------------------------
// Keys while the list is up
// ---------------------------------------------------------------------

/// What a key does in the composer's editor.
#[derive(Clone, Copy, Debug, PartialEq, Eq, Structural)]
pub enum ListKey {
    /// The keyboard cursor moves to this row, and the key stops there.
    Move(usize),
    /// The list closes, and the key stops there.
    Close,
    /// The highlighted match goes in.
    Accept,
    /// Tab completes as far as the matches agree.
    Complete,
    /// The key reaches the editor, and the list follows the buffer it
    /// makes.
    Follow,
}

/// The routing of a key, with `open` rows showing (0 for no list) and
/// the cursor on row `highlight`: the arrows move within the rows, Escape
/// closes, a bare Tab or Enter accepts while rows show, a bare Tab with
/// no list completes, and everything else is typing.
pub open spec fn routed(key: Seq<char>, modified: bool, open: nat, highlight: nat) -> ListKey {
    if key == "ArrowDown"@ && open > 0 {
        ListKey::Move((if highlight + 1 < open { highlight + 1int } else { open - 1 }) as usize)
    } else if key == "ArrowUp"@ && open > 0 {
        ListKey::Move((if highlight > 0 { highlight - 1 } else { 0 }) as usize)
    } else if key == "Escape"@ && open > 0 {
        ListKey::Close
    } else if (key == "Tab"@ || key == "Enter"@) && open > 0 && !modified {
        ListKey::Accept
    } else if key == "Tab"@ && !modified {
        ListKey::Complete
    } else {
        ListKey::Follow
    }
}

/// Routes a key the editor is about to take; `modified` is whether
/// Shift, Ctrl, Meta or Alt is held.
pub fn list_key(key: &str, modified: bool, open: usize, highlight: usize) -> (r: ListKey)
    ensures
        r == routed(key@, modified, open as nat, highlight as nat),
{
    if same_text(key, "ArrowDown") && open > 0 {
        ListKey::Move(if highlight < open - 1 { highlight + 1 } else { open - 1 })
    } else if same_text(key, "ArrowUp") && open > 0 {
        ListKey::Move(if highlight > 0 { highlight - 1 } else { 0 })
    } else if same_text(key, "Escape") && open > 0 {
        ListKey::Close
    } else if (same_text(key, "Tab") || same_text(key, "Enter")) && open > 0 && !modified {
        ListKey::Accept
    } else if same_text(key, "Tab") && !modified {
        ListKey::Complete
    } else {
        ListKey::Follow
    }
}

} // verus!
