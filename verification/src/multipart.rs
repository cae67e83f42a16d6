//! The multipart bodies the host's file-carrying routes read, framed by
//! hand, and the short texts the discussion and file surfaces show.
use std::rc::Rc;
use vstd::prelude::*;
use vstd::utf8::encode_utf8;

use crate::cache::{Current, attachment_by_id, comment_by_id, comment_held, first_feature_attachment, attachment_with};
use crate::model::{Attachment, same_comment};
use crate::seqs::first_where;
use crate::text::{dec, push_char, push_decimal, trim, trimmed};

verus! {

/// A file picked from the reader's machine, read in.
pub struct PickedBlob {
    pub name: String,
    /// Empty when the picker could not tell.
    pub content_type: String,
    pub bytes: Rc<Vec<u8>>,
}

// ---------------------------------------------------------------------
// Bytes
// ---------------------------------------------------------------------

/// Appends the UTF-8 bytes of `s`.
pub fn push_text(body: &mut Vec<u8>, s: &str)
    ensures
        final(body)@ == old(body)@ + encode_utf8(s@),
{
    let bytes = s.as_bytes();
    body.extend_from_slice(bytes);
    assert(body@ =~= old(body)@ + encode_utf8(s@));
}

/// Appends raw bytes.
pub fn push_bytes(body: &mut Vec<u8>, bytes: &Vec<u8>)
    ensures
        final(body)@ == old(body)@ + bytes@,
{
    body.extend_from_slice(bytes.as_slice());
    assert(body@ =~= old(body)@ + bytes@);
}

/// A file name safe inside a quoted header value: every `"` becomes `_`.
pub open spec fn quoted_safe(s: Seq<char>) -> Seq<char> {
    s.map_values(|c: char| if c == '"' { '_' } else { c })
}

/// Replaces every `"` in a file name with `_`.
pub fn safe_name(s: &str) -> (r: String)
    ensures
        r@ == quoted_safe(s@),
{
    let mut out = String::new();
    let n = s.unicode_len();
    let mut i: usize = 0;
    while i < n
        invariant
            n == s@.len(),
            i <= n,
            out@ == quoted_safe(s@.take(i as int)),
        decreases n - i,
    {
        let c = s.get_char(i);
        push_char(&mut out, if c == '"' { '_' } else { c });
        assert(out@ =~= quoted_safe(s@.take(i + 1)));
        i = i + 1;
    }
    assert(s@.take(n as int) =~= s@);
    out
}

/// The type a file part declares: its own, or the generic byte stream
/// when the picker could not tell.
pub open spec fn part_type(content_type: Seq<char>) -> Seq<char> {
    if content_type.len() == 0 {
        "application/octet-stream"@
    } else {
        content_type
    }
}

/// The header of a file part.
pub open spec fn file_part_head(boundary: Seq<char>, blob: PickedBlob) -> Seq<char> {
    "--"@ + boundary + "\r\n"@ + "Content-Disposition: form-data; name=\"file\"; filename=\""@
        + quoted_safe(blob.name@) + "\"\r\nContent-Type: "@ + part_type(blob.content_type@)
        + "\r\n\r\n"@
}

fn push_file_head(body: &mut Vec<u8>, boundary: &str, blob: &PickedBlob)
    ensures
        final(body)@ == old(body)@ + encode_utf8(file_part_head(boundary@, *blob)),
{
    let mut head = String::from_str("--");
    head.append(boundary);
    head.append("\r\n");
    head.append("Content-Disposition: form-data; name=\"file\"; filename=\"");
    let name = safe_name(blob.name.as_str());
    head.append(name.as_str());
    head.append("\"\r\nContent-Type: ");
    if blob.content_type.as_str().is_empty() {
        head.append("application/octet-stream");
    } else {
        head.append(blob.content_type.as_str());
    }
    head.append("\r\n\r\n");
    assert(head@ =~= file_part_head(boundary@, *blob));
    push_text(body, head.as_str());
}

// ---------------------------------------------------------------------
// The upload body
// ---------------------------------------------------------------------

/// The upload's boundary: the file's size and a stamp, which is enough
/// because the body is ours and a collision only breaks our own upload.
pub open spec fn upload_boundary(size: nat, stamp: u64) -> Seq<char> {
    "----mcpm-"@ + dec(size) + "-"@ + dec(stamp as nat)
}

/// The body the upload route reads: a `description` part, then a
/// `file` part carrying the bytes verbatim.
pub open spec fn upload_body(blob: PickedBlob, description: Seq<char>, stamp: u64) -> Seq<u8> {
    let b = upload_boundary(blob.bytes@.len(), stamp);
    encode_utf8("--"@ + b + "\r\n"@) + encode_utf8(
        "Content-Disposition: form-data; name=\"description\"\r\n\r\n"@,
    ) + encode_utf8(description) + encode_utf8("\r\n"@) + encode_utf8(file_part_head(b, blob))
        + blob.bytes@ + encode_utf8("\r\n--"@ + b + "--\r\n"@)
}

/// The multipart body the upload route reads, and the content type
/// that names its boundary. `stamp` is the moment it is built, in
/// microseconds.
pub fn multipart(blob: &PickedBlob, description: &str, stamp: u64) -> (r: (String, Vec<u8>))
    ensures
        r.0@ == "multipart/form-data; boundary="@ + upload_boundary(blob.bytes@.len(), stamp),
        r.1@ == upload_body(*blob, description@, stamp),
{
    let mut boundary = String::from_str("----mcpm-");
    push_decimal(&mut boundary, blob.bytes.len() as u128);
    boundary.append("-");
    push_decimal(&mut boundary, stamp as u128);
    let ghost b = boundary@;
    assert(b == upload_boundary(blob.bytes@.len(), stamp));
    let mut body: Vec<u8> = Vec::new();
    let mut open = String::from_str("--");
    open.append(boundary.as_str());
    open.append("\r\n");
    push_text(&mut body, open.as_str());
    push_text(&mut body, "Content-Disposition: form-data; name=\"description\"\r\n\r\n");
    push_text(&mut body, description);
    push_text(&mut body, "\r\n");
    push_file_head(&mut body, boundary.as_str(), blob);
    push_bytes(&mut body, &*blob.bytes);
    let mut close = String::from_str("\r\n--");
    close.append(boundary.as_str());
    close.append("--\r\n");
    push_text(&mut body, close.as_str());
    assert(body@ =~= upload_body(*blob, description@, stamp));
    let mut content_type = String::from_str("multipart/form-data; boundary=");
    content_type.append(boundary.as_str());
    (content_type, body)
}

// ---------------------------------------------------------------------
// The comment body
// ---------------------------------------------------------------------

/// What the composer holds when a comment is posted.
pub struct CommentDraft {
    /// note | question | answer
    pub kind: String,
    pub body: String,
    /// Who a question is for; trimmed before it is sent.
    pub assignee: String,
    /// The question being answered, when it is an answer.
    pub answering: Option<String>,
    pub files: Vec<PickedBlob>,
}

/// The kind a comment is sent as: answering overrides what the picker
/// says.
pub open spec fn comment_kind(d: CommentDraft) -> Seq<char> {
    match d.answering {
        Some(_) => "answer"@,
        None => d.kind@,
    }
}

/// One text part.
pub open spec fn text_part(boundary: Seq<char>, name: Seq<char>, value: Seq<char>) -> Seq<u8> {
    encode_utf8("--"@ + boundary + "\r\n"@) + encode_utf8(
        "Content-Disposition: form-data; name=\""@ + name + "\"\r\n\r\n"@,
    ) + encode_utf8(value) + encode_utf8("\r\n"@)
}

/// Where a comment points: the question it answers, or who a question
/// is assigned to.
pub open spec fn target_part(boundary: Seq<char>, d: CommentDraft) -> Seq<u8> {
    match d.answering {
        Some(q) => text_part(boundary, "answers"@, q@),
        None => if d.kind@ == "question"@ {
            text_part(boundary, "assigned_to"@, trimmed(d.assignee@))
        } else {
            Seq::empty()
        },
    }
}

/// The file parts, one per file, each carrying its bytes verbatim.
pub open spec fn file_parts(boundary: Seq<char>, files: Seq<PickedBlob>) -> Seq<u8>
    decreases files.len(),
{
    if files.len() == 0 {
        Seq::empty()
    } else {
        file_parts(boundary, files.drop_last()) + encode_utf8(file_part_head(boundary, files.last()))
            + files.last().bytes@ + encode_utf8("\r\n"@)
    }
}

/// The comment route's boundary.
pub open spec fn comment_boundary(stamp: u64) -> Seq<char> {
    "----mcpm-cmt-"@ + dec(stamp as nat)
}

/// The body the comment route reads: `kind`, `body`, then `answers` or
/// `assigned_to`, then one `file` part per file.
pub open spec fn comment_body(d: CommentDraft, stamp: u64) -> Seq<u8> {
    let b = comment_boundary(stamp);
    text_part(b, "kind"@, comment_kind(d)) + text_part(b, "body"@, d.body@) + target_part(b, d)
        + file_parts(b, d.files@) + encode_utf8("--"@ + b + "--\r\n"@)
}

fn push_text_part(body: &mut Vec<u8>, boundary: &str, name: &str, value: &str)
    ensures
        final(body)@ == old(body)@ + text_part(boundary@, name@, value@),
{
    let mut open = String::from_str("--");
    open.append(boundary);
    open.append("\r\n");
    push_text(body, open.as_str());
    let mut head = String::from_str("Content-Disposition: form-data; name=\"");
    head.append(name);
    head.append("\"\r\n\r\n");
    push_text(body, head.as_str());
    push_text(body, value);
    push_text(body, "\r\n");
    assert(body@ =~= old(body)@ + text_part(boundary@, name@, value@));
}

/// The multipart body the comment route reads, and the content type
/// that names its boundary. `stamp` is the moment it is built, in
/// microseconds.
pub fn comment_multipart(draft: &CommentDraft, stamp: u64) -> (r: (String, Vec<u8>))
    ensures
        r.0@ == "multipart/form-data; boundary="@ + comment_boundary(stamp),
        r.1@ == comment_body(*draft, stamp),
{
    let mut boundary = String::from_str("----mcpm-cmt-");
    push_decimal(&mut boundary, stamp as u128);
    let ghost b = boundary@;
    let mut body: Vec<u8> = Vec::new();
    match &draft.answering {
        Some(_) => push_text_part(&mut body, boundary.as_str(), "kind", "answer"),
        None => push_text_part(&mut body, boundary.as_str(), "kind", draft.kind.as_str()),
    }
    push_text_part(&mut body, boundary.as_str(), "body", draft.body.as_str());
    let ghost before_target = body@;
    match &draft.answering {
        Some(q) => push_text_part(&mut body, boundary.as_str(), "answers", q.as_str()),
        None => {
            if crate::text::same_text(draft.kind.as_str(), "question") {
                let who = trim(draft.assignee.as_str());
                push_text_part(&mut body, boundary.as_str(), "assigned_to", who.as_str());
            }
        },
    }
    assert(body@ =~= before_target + target_part(b, *draft));
    let ghost before_files = body@;
    let mut i: usize = 0;
    while i < draft.files.len()
        invariant
            i <= draft.files@.len(),
            boundary@ == b,
            body@ == before_files + file_parts(b, draft.files@.take(i as int)),
        decreases draft.files.len() - i,
    {
        let blob = &draft.files[i];
        push_file_head(&mut body, boundary.as_str(), blob);
        push_bytes(&mut body, &*blob.bytes);
        push_text(&mut body, "\r\n");
        assert(draft.files@.take(i + 1).drop_last() =~= draft.files@.take(i as int));
        assert(body@ =~= before_files + file_parts(b, draft.files@.take(i + 1)));
        i = i + 1;
    }
    assert(draft.files@.take(draft.files.len() as int) =~= draft.files@);
    let mut close = String::from_str("--");
    close.append(boundary.as_str());
    close.append("--\r\n");
    push_text(&mut body, close.as_str());
    assert(body@ =~= comment_body(*draft, stamp));
    let mut content_type = String::from_str("multipart/form-data; boundary=");
    content_type.append(boundary.as_str());
    (content_type, body)
}

// ---------------------------------------------------------------------
// Short texts
// ---------------------------------------------------------------------

/// At most `max` characters, with an ellipsis when some were cut.
pub open spec fn cut(s: Seq<char>, max: nat) -> Seq<char> {
    if s.len() > max {
        s.take(max as int).push('\u{2026}')
    } else {
        s
    }
}

/// At most `max` characters of `s`, with an ellipsis when some were
/// cut.
pub fn truncate(s: &str, max: usize) -> (r: String)
    ensures
        r@ == cut(s@, max as nat),
{
    let n = s.unicode_len();
    if n > max {
        let mut out = String::from_str(s.substring_char(0, max));
        push_char(&mut out, '\u{2026}');
        assert(out@ =~= cut(s@, max as nat));
        out
    } else {
        assert(s@.take(n as int) =~= s@);
        String::from_str(s)
    }
}

/// Where the first line break is.
pub open spec fn first_break(s: Seq<char>) -> Option<int> {
    first_where(s, |c: char| c == '\n')
}

/// The first line, as `str::lines` yields it: up to the first line
/// feed, less a carriage return just before it.
pub open spec fn first_line(s: Seq<char>) -> Seq<char> {
    match first_break(s) {
        Some(k) => if k > 0 && s[k - 1] == '\r' {
            s.take(k - 1)
        } else {
            s.take(k)
        },
        None => s,
    }
}

/// Whether `s` has a second line: a line feed with something after it.
pub open spec fn has_more_lines(s: Seq<char>) -> bool {
    match first_break(s) {
        Some(k) => k + 1 < s.len(),
        None => false,
    }
}

/// A one-line preview: the first line, cut to `max` characters, with an
/// ellipsis when anything was left out — a longer line or more lines.
pub open spec fn preview(s: Seq<char>, max: nat) -> Seq<char> {
    let first = first_line(s);
    if first.len() > max || has_more_lines(s) {
        first.take(if first.len() > max { max as int } else { first.len() as int }).push('\u{2026}')
    } else {
        first
    }
}

/// A one-line preview of `s`, at most `max` characters of its first
/// line.
pub fn first_line_preview(s: &str, max: usize) -> (r: String)
    ensures
        r@ == preview(s@, max as nat),
{
    let n = s.unicode_len();
    let mut k: usize = 0;
    while k < n && s.get_char(k) != '\n'
        invariant
            n == s@.len(),
            k <= n,
            forall|j: int| 0 <= j < k ==> s@[j] != '\n',
        decreases n - k,
    {
        k = k + 1;
    }
    proof {
        if k < n {
            crate::seqs::lemma_first_found(s@, |c: char| c == '\n', k as int);
        } else {
            crate::seqs::lemma_none_found(s@, |c: char| c == '\n');
        }
    }
    let end = if k < n && k > 0 && s.get_char(k - 1) == '\r' {
        k - 1
    } else {
        k
    };
    assert(s@.take(n as int) =~= s@);
    let more = k < n && k + 1 < n;
    let first = s.substring_char(0, end);
    let shown = if end > max {
        max
    } else {
        end
    };
    if end > max || more {
        let mut out = String::from_str(first.substring_char(0, shown));
        push_char(&mut out, '\u{2026}');
        assert(out@ =~= preview(s@, max as nat));
        out
    } else {
        let out = String::from_str(first);
        assert(out@ =~= preview(s@, max as nat));
        out
    }
}

/// Who asked the question being answered, and what — from the threads
/// on screen, or a stand-in when none holds it.
pub fn question_summary(cur: &Current, question_id: &str) -> (r: (String, String))
    ensures
        comment_held(cur.threads@, question_id@) ==> exists|t: int, j: int|
            0 <= t < cur.threads@.len() && 0 <= j < cur.threads@[t].1@.len()
                && (#[trigger] cur.threads@[t].1@[j]).id@ == question_id@ && r.0@
                == cur.threads@[t].1@[j].author@ && r.1@ == preview(
                cur.threads@[t].1@[j].body@,
                80,
            ),
        !comment_held(cur.threads@, question_id@) ==> r.0@ == "a question"@ && r.1@.len() == 0,
{
    match comment_by_id(cur, question_id) {
        Some(c) => {
            let body = first_line_preview(c.body.as_str(), 80);
            (c.author, body)
        },
        None => (String::from_str("a question"), String::new()),
    }
}

/// The name of an attachment, for a confirm sentence; empty when none
/// on screen has the id.
pub fn attachment_name(cur: &Current, id: &str) -> (r: String)
    ensures
        match first_feature_attachment(cur.features@, id@) {
            Some(a) => r@ == a.name@,
            None => match cur.open_want {
                Some(o) => match first_where(o.1.attachments@, attachment_with(id@)) {
                    Some(k) => r@ == o.1.attachments@[k].name@,
                    None => r@.len() == 0,
                },
                None => r@.len() == 0,
            },
        },
{
    match attachment_by_id(cur, id) {
        Some(a) => a.name,
        None => String::new(),
    }
}

} // verus!
