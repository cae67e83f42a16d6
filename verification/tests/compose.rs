use control_center::compose::{accepted, after_key, append_tag, list_key, ListKey, complete_from, describe, matching, shown, submit_label, summarize, SHOWN};
use control_center::model::TagRow;

fn tags(names: &[&str]) -> Vec<TagRow> {
    names.iter().map(|n| TagRow { name: n.to_string(), label: n.to_string(), uses: 1 }).collect()
}

fn names(list: &[&str]) -> Vec<String> {
    list.iter().map(|n| n.to_string()).collect()
}

#[test]
fn tab_completion_follows_the_shell_rules() {
    let registry = names(&["billing", "billing-export", "ux", "ops"]);
    // Unambiguous: finish it and add the separating space.
    assert_eq!(complete_from(&registry, "u"), Some("x ".to_string()));
    // Ambiguous: complete only as far as the shared prefix, no space.
    assert_eq!(complete_from(&registry, "bil"), Some("ling".to_string()));
    // Already at the shared prefix and still ambiguous: nothing to add.
    assert_eq!(complete_from(&registry, "billing"), None);
    // No match at all.
    assert_eq!(complete_from(&registry, "zzz"), None);
}

#[test]
fn the_list_shows_most_used_first_and_caps_itself() {
    let registry = tags(&["billing", "billing-export", "ux", "ops"]);
    assert_eq!(matching(&registry, "bil"), vec![0, 1]);
    assert_eq!(matching(&registry, "u"), vec![2]);
    assert!(matching(&registry, "zzz").is_empty());
    assert_eq!(matching(&registry, "").len(), 4);
    let many: Vec<String> = (0..12).map(|i| format!("tag-{i}")).collect();
    let names: Vec<&str> = many.iter().map(String::as_str).collect();
    let registry = tags(&names);
    assert_eq!(matching(&registry, "tag").len(), 12);
    assert_eq!(shown(&registry, "tag").len(), SHOWN);
    assert_eq!(shown(&registry, "tag-1").len(), 3);
}

#[test]
fn a_tag_is_appended_with_the_spacing_right() {
    assert_eq!(append_tag("", "ux"), "#ux ");
    assert_eq!(append_tag("idea", "ux"), "idea #ux ");
    assert_eq!(append_tag("idea ", "ux"), "idea #ux ");
    assert_eq!(append_tag("idea\n", "ux"), "idea\n#ux ");
}

#[test]
fn the_button_counts_the_wants() {
    assert_eq!(submit_label(0), "Add want");
    assert_eq!(submit_label(1), "Add 1 want");
    assert_eq!(submit_label(3), "Add 3 wants");
}

#[test]
fn the_summary_counts_wants_tags_and_new_ones() {
    let known = names(&["ux"]);
    assert_eq!(summarize(&vec![], &known), "");
    assert_eq!(summarize(&vec![vec![]], &known), "1 want");
    let drafts = vec![names(&["ux", "ops"]), names(&["ops", "new"])];
    assert_eq!(summarize(&drafts, &known), "2 wants \u{b7} 3 tag(s) \u{b7} 2 new");
    assert_eq!(summarize(&vec![names(&["ux"])], &known), "1 want \u{b7} 1 tag(s)");
}

#[test]
fn a_capture_is_described_in_one_line() {
    assert_eq!(describe(1, &vec![], 0), "Captured 1 want");
    assert_eq!(
        describe(3, &names(&["ux", "ops"]), 2),
        "Captured 3 wants \u{b7} created #ux #ops \u{b7} 2 line(s) had no idea in them"
    );
}

#[test]
fn a_typed_character_replaces_the_selection() {
    assert_eq!(after_key("#u", 2, 2, "x", false, 2), Some(("#ux".to_string(), 3)));
    assert_eq!(after_key("#uxy", 1, 3, "b", false, 1), Some(("#by".to_string(), 2)));
    // A character outside the basic plane moves the caret two units.
    assert_eq!(after_key("a", 1, 1, "\u{1F600}", false, 1), Some(("a\u{1F600}".to_string(), 3)));
    // Multibyte text is cut on byte offsets.
    assert_eq!(after_key("\u{e9}t", 2, 2, "#", false, 1), Some(("\u{e9}#t".to_string(), 2)));
}

#[test]
fn a_chord_or_a_named_key_is_not_typing() {
    assert_eq!(after_key("#u", 2, 2, "x", true, 2), None);
    assert_eq!(after_key("#u", 2, 2, "Tab", false, 2), None);
    assert_eq!(after_key("#u", 2, 2, "ArrowUp", false, 2), None);
    // Shift held to type a capital arrives first on its own: nothing changes.
    assert_eq!(after_key("#u", 2, 2, "Shift", false, 2), Some(("#u".to_string(), 2)));
    assert_eq!(after_key("#u", 1, 1, "Meta", true, 1), Some(("#u".to_string(), 1)));
}

#[test]
fn backspace_removes_the_selection_or_one_character_back() {
    assert_eq!(after_key("#ux", 1, 3, "Backspace", false, 1), Some(("#".to_string(), 1)));
    assert_eq!(after_key("#ux", 3, 3, "Backspace", false, 3), Some(("#u".to_string(), 2)));
    assert_eq!(after_key("#ux", 0, 0, "Backspace", false, 0), Some(("#ux".to_string(), 0)));
    assert_eq!(after_key("a\u{e9}", 3, 3, "Backspace", false, 2), Some(("a".to_string(), 1)));
    assert_eq!(after_key("a\u{1F600}", 5, 5, "Backspace", false, 3), Some(("a".to_string(), 1)));
}

#[test]
fn accepting_inserts_the_rest_of_the_highlighted_slug() {
    let registry = tags(&["ux", "uptime", "billing"]);
    assert_eq!(accepted(&registry, "u", 0), Some("x ".to_string()));
    assert_eq!(accepted(&registry, "u", 1), Some("ptime ".to_string()));
    // The cursor past the last row is held to it.
    assert_eq!(accepted(&registry, "u", 7), Some("ptime ".to_string()));
    assert_eq!(accepted(&registry, "zz", 0), None);
    // A fragment that is already the whole slug just ends the tag.
    assert_eq!(accepted(&registry, "billing", 0), Some(" ".to_string()));
}

#[test]
fn the_arrows_move_within_the_rows_that_show() {
    assert_eq!(list_key("ArrowDown", false, 3, 0), ListKey::Move(1));
    assert_eq!(list_key("ArrowDown", false, 3, 2), ListKey::Move(2));
    assert_eq!(list_key("ArrowUp", false, 3, 2), ListKey::Move(1));
    assert_eq!(list_key("ArrowUp", false, 3, 0), ListKey::Move(0));
    // No list: the arrows are the editor's.
    assert_eq!(list_key("ArrowDown", false, 0, 0), ListKey::Follow);
}

#[test]
fn tab_and_enter_accept_only_while_the_list_is_up() {
    assert_eq!(list_key("Tab", false, 2, 0), ListKey::Accept);
    assert_eq!(list_key("Enter", false, 2, 1), ListKey::Accept);
    assert_eq!(list_key("Escape", false, 2, 1), ListKey::Close);
    // With no list, Enter starts the next want and Tab completes.
    assert_eq!(list_key("Enter", false, 0, 0), ListKey::Follow);
    assert_eq!(list_key("Tab", false, 0, 0), ListKey::Complete);
    // A chord is never ours.
    assert_eq!(list_key("Tab", true, 2, 0), ListKey::Follow);
    assert_eq!(list_key("x", false, 2, 0), ListKey::Follow);
}

/// The byte offset a UTF-16 offset lands on, as the platform's caret
/// is turned into one before the library sees it.
fn utf16_to_byte(text: &str, units: usize) -> usize {
    let mut seen = 0;
    for (at, c) in text.char_indices() {
        if seen >= units {
            return at;
        }
        seen += c.len_utf16();
    }
    text.len()
}

/// A key pressed with the selection from `start` to `end`, in UTF-16 units.
fn press(text: &str, key: &str, start: usize, end: usize) -> Option<(String, usize)> {
    let from = utf16_to_byte(text, start);
    let to = utf16_to_byte(text, end.max(start));
    after_key(text, from, to, key, false, start)
}

#[test]
fn a_predicted_keystroke_is_what_the_list_matches_on() {
    // Typing `x` at the end: the list must see `#ux`, not `#u`.
    assert_eq!(press("tagged #u", "x", 9, 9), Some(("tagged #ux".to_string(), 10)));
    // Backspace shortens it by exactly one character.
    assert_eq!(press("tagged #ux", "Backspace", 10, 10), Some(("tagged #u".to_string(), 9)));
    // A selected range is replaced wholesale by the typed key.
    assert_eq!(press("tagged #ux", "z", 7, 10), Some(("tagged z".to_string(), 8)));
    // Offsets are UTF-16, so an emoji ahead of the caret must not shift
    // the splice. The emoji is 2 units and 4 bytes.
    assert_eq!(press("\u{1F642} #u", "x", 5, 5), Some(("\u{1F642} #ux".to_string(), 6)));
    // A modifier on its own leaves the buffer exactly as it was.
    assert_eq!(press("tagged #u", "Shift", 9, 9), Some(("tagged #u".to_string(), 9)));
    // Anything else is unpredictable, and the caller drops the list.
    assert_eq!(press("tagged #u", "ArrowLeft", 9, 9), None);
}

#[test]
fn completes_mid_buffer_and_past_wide_characters() {
    // The fragment under the caret is found by the host's tag scanner;
    // what it completes to is the library's.
    assert_eq!(complete_from(&names(&["ux"]), "u"), Some("x ".to_string()));
}
