use std::rc::Rc;

use control_center::multipart::{
    comment_multipart, first_line_preview, multipart, truncate, CommentDraft, PickedBlob,
};

/// The body the upload route parses: two parts, the file's bytes
/// verbatim, and the boundary the content-type names.
#[test]
fn multipart_body_frames_both_parts() {
    let blob = PickedBlob {
        name: "a \"b\".csv".into(),
        content_type: String::new(),
        bytes: Rc::new(b"x,y\r\n1,2".to_vec()),
    };
    let (content_type, body) = multipart(&blob, "the sample", 1_700_000_000_000_000);
    let boundary = content_type.strip_prefix("multipart/form-data; boundary=").expect("boundary");
    let text = String::from_utf8_lossy(&body);
    assert!(text.starts_with(&format!("--{boundary}\r\n")));
    assert!(text.contains("name=\"description\"\r\n\r\nthe sample\r\n"));
    assert!(text.contains("name=\"file\"; filename=\"a _b_.csv\"\r\nContent-Type: application/octet-stream\r\n\r\nx,y\r\n1,2\r\n"));
    assert!(text.ends_with(&format!("--{boundary}--\r\n")));
}

#[test]
fn the_upload_boundary_names_the_size_and_the_stamp() {
    let blob = PickedBlob { name: "n".into(), content_type: "text/plain".into(), bytes: Rc::new(vec![1, 2, 3]) };
    let (content_type, body) = multipart(&blob, "", 42);
    assert_eq!(content_type, "multipart/form-data; boundary=----mcpm-3-42");
    let text = String::from_utf8_lossy(&body);
    assert!(text.contains("Content-Type: text/plain\r\n\r\n"));
    // Non-ASCII text is carried as UTF-8.
    let (_, body) = multipart(&blob, "caf\u{e9}", 42);
    assert!(String::from_utf8(body).unwrap().contains("caf\u{e9}"));
}

/// The multipart body the comment route parses.
#[test]
fn comment_multipart_carries_kind_body_target_and_files() {
    let mut draft = CommentDraft {
        kind: "question".into(),
        body: "Which one?".into(),
        assignee: " manager ".into(),
        answering: None,
        files: vec![PickedBlob {
            name: "a.csv".into(),
            content_type: "text/csv".into(),
            bytes: Rc::new(b"1,2".to_vec()),
        }],
    };
    let (ct, body) = comment_multipart(&draft, 7);
    let text = String::from_utf8_lossy(&body);
    assert!(ct.starts_with("multipart/form-data; boundary="));
    assert!(text.contains("name=\"kind\"\r\n\r\nquestion\r\n"));
    assert!(text.contains("name=\"body\"\r\n\r\nWhich one?\r\n"));
    assert!(text.contains("name=\"assigned_to\"\r\n\r\nmanager\r\n"));
    assert!(text.contains("name=\"file\"; filename=\"a.csv\"\r\nContent-Type: text/csv\r\n\r\n1,2\r\n"));
    // Answering overrides the kind and names the question.
    draft.answering = Some("cmt_9".into());
    let (_, body) = comment_multipart(&draft, 7);
    let text = String::from_utf8_lossy(&body);
    assert!(text.contains("name=\"kind\"\r\n\r\nanswer\r\n"));
    assert!(text.contains("name=\"answers\"\r\n\r\ncmt_9\r\n"));
    assert!(!text.contains("assigned_to"));
}

#[test]
fn a_note_names_no_target() {
    let draft = CommentDraft { kind: "note".into(), body: "b".into(), assignee: "x".into(), answering: None, files: vec![] };
    let (ct, body) = comment_multipart(&draft, 5);
    assert_eq!(ct, "multipart/form-data; boundary=----mcpm-cmt-5");
    let text = String::from_utf8(body).unwrap();
    assert!(!text.contains("assigned_to") && !text.contains("answers"));
    assert!(text.ends_with("------mcpm-cmt-5--\r\n"));
}

#[test]
fn truncation_marks_what_it_cut() {
    assert_eq!(truncate("abcdef", 3), "abc\u{2026}");
    assert_eq!(truncate("abc", 3), "abc");
    assert_eq!(truncate("", 0), "");
}

#[test]
fn a_preview_is_the_first_line() {
    assert_eq!(first_line_preview("one\ntwo", 80), "one\u{2026}");
    assert_eq!(first_line_preview("one\r\ntwo", 80), "one\u{2026}");
    assert_eq!(first_line_preview("one\n", 80), "one");
    assert_eq!(first_line_preview("abcdef", 4), "abcd\u{2026}");
    assert_eq!(first_line_preview("", 4), "");
    assert_eq!(first_line_preview("ab", 4), "ab");
}
