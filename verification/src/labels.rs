//! Small view decisions: the words and tones a few surfaces pick from
//! their data.
use vstd::prelude::*;

use crate::text::{dec, push_char, push_decimal, same_text};

verus! {

/// A knowledge kind's plural, for chips and stats.
pub open spec fn kind_plural(kind: Seq<char>) -> Seq<char> {
    if kind == "convention"@ {
        "Conventions"@
    } else if kind == "decision"@ {
        "Decisions"@
    } else if kind == "gotcha"@ {
        "Gotchas"@
    } else if kind == "outcome"@ {
        "Outcomes"@
    } else if kind == "reference"@ {
        "References"@
    } else if kind == "note"@ {
        "Notes"@
    } else {
        "Entries"@
    }
}

/// A knowledge kind's plural.
pub fn label_for(kind: &str) -> (r: &'static str)
    ensures
        r@ == kind_plural(kind@),
{
    if same_text(kind, "convention") {
        "Conventions"
    } else if same_text(kind, "decision") {
        "Decisions"
    } else if same_text(kind, "gotcha") {
        "Gotchas"
    } else if same_text(kind, "outcome") {
        "Outcomes"
    } else if same_text(kind, "reference") {
        "References"
    } else if same_text(kind, "note") {
        "Notes"
    } else {
        "Entries"
    }
}

/// The tones a chip or a badge can take.
#[derive(Clone, Copy, PartialEq, Eq, Structural, Debug)]
pub enum Tone {
    Primary,
    Secondary,
    Info,
    Success,
    Warning,
    Danger,
    Neutral,
}

/// The tone a knowledge kind carries: a gotcha warns, an outcome is
/// settled, a convention binds.
pub open spec fn kind_tone_of(kind: Seq<char>) -> Tone {
    if kind == "convention"@ {
        Tone::Primary
    } else if kind == "decision"@ {
        Tone::Info
    } else if kind == "gotcha"@ {
        Tone::Warning
    } else if kind == "outcome"@ {
        Tone::Success
    } else if kind == "reference"@ {
        Tone::Secondary
    } else {
        Tone::Neutral
    }
}

/// The tone a knowledge kind carries.
pub fn kind_tone(kind: &str) -> (r: Tone)
    ensures
        r == kind_tone_of(kind@),
{
    if same_text(kind, "convention") {
        Tone::Primary
    } else if same_text(kind, "decision") {
        Tone::Info
    } else if same_text(kind, "gotcha") {
        Tone::Warning
    } else if same_text(kind, "outcome") {
        Tone::Success
    } else if same_text(kind, "reference") {
        Tone::Secondary
    } else {
        Tone::Neutral
    }
}

/// A withdrawn entry's tone: a dispute is a live problem, a
/// supersession is settled history.
pub fn state_tone(state: &str) -> (r: Tone)
    ensures
        r == (if state@ == "disputed"@ { Tone::Danger } else { Tone::Neutral }),
{
    if same_text(state, "disputed") {
        Tone::Danger
    } else {
        Tone::Neutral
    }
}

/// `s` cut to at most `max` characters, the last one an ellipsis when
/// it was cut.
pub open spec fn clipped(s: Seq<char>, max: nat) -> Seq<char> {
    if s.len() <= max {
        s
    } else {
        s.take(if max > 0 { max - 1 } else { 0 }).push('\u{2026}')
    }
}

/// Cuts `s` to at most `max` characters, with an ellipsis when it was.
pub fn clip(s: &str, max: usize) -> (r: String)
    ensures
        r@ == clipped(s@, max as nat),
{
    let n = s.unicode_len();
    if n <= max {
        return String::from_str(s);
    }
    let keep = if max > 0 { max - 1 } else { 0 };
    let mut out = String::from_str(s.substring_char(0, keep));
    push_char(&mut out, '\u{2026}');
    assert(out@ =~= clipped(s@, max as nat));
    out
}

/// How far a tree row is indented, in steps; deeper rows share the
/// last step.
#[derive(Clone, Copy, PartialEq, Eq, Structural, Debug)]
pub enum Indent {
    I0,
    I1,
    I2,
    I3,
    I4,
}

/// The indent step for a depth.
pub fn indent_arm(indent: usize) -> (r: Indent)
    ensures
        r == (if indent == 0 {
            Indent::I0
        } else if indent == 1 {
            Indent::I1
        } else if indent == 2 {
            Indent::I2
        } else if indent == 3 {
            Indent::I3
        } else {
            Indent::I4
        }),
{
    match indent {
        0 => Indent::I0,
        1 => Indent::I1,
        2 => Indent::I2,
        3 => Indent::I3,
        _ => Indent::I4,
    }
}

/// One view tab of a feature: its id and what it says.
#[derive(Debug)]
pub struct Tab {
    pub id: &'static str,
    pub label: String,
}

/// The discussion tab's label: the open questions counted when there
/// are any.
pub open spec fn discussion_label(pending: nat) -> Seq<char> {
    if pending > 0 {
        "Discussion ("@ + dec(pending) + " open)"@
    } else {
        "Discussion"@
    }
}

/// The files tab's label: the files counted when there are any.
pub open spec fn files_label(count: nat) -> Seq<char> {
    if count > 0 {
        "Files ("@ + dec(count) + ")"@
    } else {
        "Files"@
    }
}

fn tab(id: &'static str, label: String) -> (r: Tab)
    ensures
        r.id == id,
        r.label == label,
{
    Tab { id, label }
}

/// The view tabs, with the counts two of them carry.
pub fn head_tabs(pending: usize, file_count: usize) -> (r: Vec<Tab>)
    ensures
        r@.len() == 6,
        r@[0].id@ == "graph"@ && r@[0].label@ == "Graph"@,
        r@[1].id@ == "whitepaper"@ && r@[1].label@ == "Whitepaper"@,
        r@[2].id@ == "discussion"@ && r@[2].label@ == discussion_label(pending as nat),
        r@[3].id@ == "files"@ && r@[3].label@ == files_label(file_count as nat),
        r@[4].id@ == "feed"@ && r@[4].label@ == "Activity"@,
        r@[5].id@ == "origin"@ && r@[5].label@ == "Composed from"@,
{
    let discussion = if pending > 0 {
        let mut s = String::from_str("Discussion (");
        push_decimal(&mut s, pending as u128);
        s.append(" open)");
        s
    } else {
        String::from_str("Discussion")
    };
    let files = if file_count > 0 {
        let mut s = String::from_str("Files (");
        push_decimal(&mut s, file_count as u128);
        s.append(")");
        s
    } else {
        String::from_str("Files")
    };
    let mut tabs: Vec<Tab> = Vec::new();
    tabs.push(tab("graph", String::from_str("Graph")));
    tabs.push(tab("whitepaper", String::from_str("Whitepaper")));
    tabs.push(tab("discussion", discussion));
    tabs.push(tab("files", files));
    tabs.push(tab("feed", String::from_str("Activity")));
    tabs.push(tab("origin", String::from_str("Composed from")));
    tabs
}

} // verus!
