use gitsift::diff::HunkRecord;
use gitsift::git::{
    diff_opts_tracked_only, diff_opts_with_untracked, parse_patch, parse_selection_patch,
    DiffSettings, CONTEXT_LINES,
};
use gitsift::models::{HunkLine, LineTag, Response, PROTOCOL_VERSION};
use gitsift::patch::{is_selected, reconstruct_patch, reconstruct_reverse_patch};
use gitsift::protocol::{
    blank_line, frame_request_line, invalid_request_message, read_error_message,
    strip_line_ending, LineFrame, MAX_LINE_LENGTH,
};
use gitsift::text::{escape_content, push_decimal, push_hex_digits, trim};

fn hl(tag: LineTag, content: &str) -> HunkLine {
    HunkLine { tag, content: content.to_string(), old_lineno: None, new_lineno: None }
}

fn record(lines: Vec<HunkLine>) -> HunkRecord {
    HunkRecord {
        id: "id".into(),
        file_path: "src/lib.rs".into(),
        untracked: false,
        added: false,
        old_start: 10,
        new_start: 12,
        lines,
    }
}

fn sample() -> HunkRecord {
    record(vec![
        hl(LineTag::Equal, "keep\n"),
        hl(LineTag::Delete, "old\n"),
        hl(LineTag::Insert, "new\n"),
        hl(LineTag::Equal, "tail"),
    ])
}

const HEAD: &str = "diff --git a/src/lib.rs b/src/lib.rs\n--- a/src/lib.rs\n+++ b/src/lib.rs\n";

#[test]
fn full_selection_is_the_whole_hunk() {
    let patch = reconstruct_patch(&sample(), &vec![1, 2]);
    assert_eq!(patch, format!("{HEAD}@@ -10,3 +10,3 @@\n keep\n-old\n+new\n tail\n"));
}

#[test]
fn empty_selection_keeps_old_side_only() {
    let patch = reconstruct_patch(&sample(), &vec![]);
    assert_eq!(patch, format!("{HEAD}@@ -10,3 +10,3 @@\n keep\n old\n tail\n"));
}

#[test]
fn selecting_only_the_deletion() {
    let patch = reconstruct_patch(&sample(), &vec![1]);
    assert_eq!(patch, format!("{HEAD}@@ -10,3 +10,2 @@\n keep\n-old\n tail\n"));
}

#[test]
fn selecting_only_the_insertion() {
    let patch = reconstruct_patch(&sample(), &vec![2, 2, 7]);
    assert_eq!(patch, format!("{HEAD}@@ -10,3 +10,4 @@\n keep\n old\n+new\n tail\n"));
}

#[test]
fn reverse_patch_swaps_sides() {
    let patch = reconstruct_reverse_patch(&sample());
    assert_eq!(patch, format!("{HEAD}@@ -12,3 +10,3 @@\n keep\n+old\n-new\n tail\n"));
}

#[test]
fn empty_hunk_patch() {
    let patch = reconstruct_patch(&record(vec![]), &vec![0]);
    assert_eq!(patch, format!("{HEAD}@@ -10,0 +10,0 @@\n"));
    let reverse = reconstruct_reverse_patch(&record(vec![]));
    assert_eq!(reverse, format!("{HEAD}@@ -12,0 +10,0 @@\n"));
}

#[test]
fn selection_membership() {
    assert!(is_selected(&vec![3, 1], 1));
    assert!(!is_selected(&vec![3, 1], 2));
    assert!(!is_selected(&vec![], 0));
}

#[test]
fn line_endings_stripped() {
    assert_eq!(strip_line_ending(b"abc\r\n".to_vec()), b"abc".to_vec());
    assert_eq!(strip_line_ending(b"abc\n".to_vec()), b"abc".to_vec());
    assert_eq!(strip_line_ending(b"abc\r".to_vec()), b"abc".to_vec());
    assert_eq!(strip_line_ending(b"abc\n\n".to_vec()), b"abc\n".to_vec());
    assert_eq!(strip_line_ending(b"".to_vec()), b"".to_vec());
}

#[test]
fn protocol_empty_lines_ignored() {
    assert!(blank_line(&b"".to_vec()));
    assert!(blank_line(&b" \t\x0c ".to_vec()));
    assert!(!blank_line(&b" x ".to_vec()));
    assert!(matches!(frame_request_line(b"   ".to_vec()), LineFrame::Skip));
    assert!(matches!(frame_request_line(Vec::new()), LineFrame::Skip));
}

#[test]
fn invalid_utf8_line_is_refused() {
    match frame_request_line(vec![b'{', 0xff, b'}']) {
        LineFrame::Invalid(m) => assert_eq!(m, "invalid UTF-8 input"),
        _ => panic!("expected a refusal"),
    }
}

#[test]
fn request_line_is_decoded() {
    match frame_request_line("{\"method\":\"status\"} é".as_bytes().to_vec()) {
        LineFrame::Request(s) => assert_eq!(s, "{\"method\":\"status\"} é"),
        _ => panic!("expected a request"),
    }
}

#[test]
fn protocol_messages() {
    assert_eq!(invalid_request_message("expected value"), "invalid request: expected value");
    assert_eq!(read_error_message("broken"), "stdin read error: broken");
    assert_eq!(MAX_LINE_LENGTH, 10 * 1024 * 1024);
}

#[test]
fn response_envelopes() {
    let ok = Response::success(5u32);
    assert_eq!(ok.version, PROTOCOL_VERSION);
    assert!(ok.ok);
    assert_eq!(ok.data, Some(5));
    assert_eq!(ok.error, None);

    let err = Response::error("boom".to_string());
    assert_eq!(err.version, 1);
    assert!(!err.ok);
    assert_eq!(err.data, None);
    assert_eq!(err.error, Some("boom".to_string()));
}

#[test]
fn trim_removes_unicode_white_space() {
    assert_eq!(trim("  a b \n"), "a b");
    assert_eq!(trim("\u{3000}x\u{a0}"), "x");
    assert_eq!(trim(""), "");
    assert_eq!(trim(" \t "), "");
    assert_eq!(trim("x"), "x");
}

#[test]
fn escape_round_values() {
    assert_eq!(escape_content("a,b\\c\nd\re"), "a\\,b\\\\c\\nd\\re");
    assert_eq!(escape_content("plain"), "plain");
}

#[test]
fn numbers_in_text() {
    let mut s = String::from("n=");
    push_decimal(&mut s, 0);
    s.push(' ');
    push_decimal(&mut s, 18446744073709551615);
    assert_eq!(s, "n=0 18446744073709551615");

    let mut h = String::new();
    push_hex_digits(&mut h, 0xdeadbeef, 16);
    assert_eq!(h, "00000000deadbeef");
    let mut h = String::new();
    push_hex_digits(&mut h, 0x1ff, 2);
    assert_eq!(h, "ff");
}

#[test]
fn diff_settings() {
    let with = diff_opts_with_untracked();
    assert_eq!(with.context_lines, 3);
    assert!(with.include_untracked);
    assert!(with.show_untracked_content);
    assert_eq!(
        diff_opts_tracked_only(),
        DiffSettings {
            context_lines: CONTEXT_LINES,
            include_untracked: false,
            show_untracked_content: false,
        }
    );
}

#[test]
fn reconstructed_patches_parse() {
    let patch = reconstruct_patch(&sample(), &vec![1, 2]);
    assert!(parse_patch(&patch).is_ok());
    assert!(parse_selection_patch(&"abc".to_string(), &patch).is_ok());
    let reverse = reconstruct_reverse_patch(&sample());
    assert!(parse_patch(&reverse).is_ok());
}

#[test]
fn truncated_patch_is_refused_naming_the_hunk() {
    let truncated = format!("{HEAD}@@ -1,2 +1,2 @@\n keep\n");
    assert!(parse_patch(&truncated).is_err());
    match parse_selection_patch(&"abc".to_string(), &truncated) {
        Err(m) => {
            assert!(m.starts_with("failed to parse reconstructed patch for hunk abc: "));
            assert!(m.len() > "failed to parse reconstructed patch for hunk abc: ".len());
        }
        Ok(_) => panic!("a truncated hunk must be refused"),
    }
}

#[test]
fn trimming_twice_is_trimming_once() {
    for s in ["  a b \n", "\u{3000}x\u{a0}", "", " \t ", "x", " @@ -1 +1 @@ \r\n"] {
        let once = trim(s);
        assert_eq!(trim(&once), once);
    }
}
