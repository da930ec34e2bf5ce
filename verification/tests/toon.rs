use gitsift::models::{
    CheckoutResult, DiffOutput, FileChange, FileStatus, Hunk, HunkLine, LineTag, StageResult,
    StatusSummary,
};
use gitsift::text::escape_content;
use gitsift::toon::{format_checkout_result, format_diff, format_stage_result, format_status};

fn sample_diff() -> DiffOutput {
    DiffOutput {
        files: vec![FileChange {
            path: "src/main.rs".into(),
            status: FileStatus::Modified,
            hunks: vec![Hunk {
                id: "abc123".into(),
                file_path: "src/main.rs".into(),
                old_start: 1,
                old_lines: 5,
                new_start: 1,
                new_lines: 6,
                header: "@@ -1,5 +1,6 @@".into(),
                lines: vec![
                    HunkLine {
                        tag: LineTag::Equal,
                        content: "unchanged\n".into(),
                        old_lineno: Some(1),
                        new_lineno: Some(1),
                    },
                    HunkLine {
                        tag: LineTag::Delete,
                        content: "old line\n".into(),
                        old_lineno: Some(2),
                        new_lineno: None,
                    },
                    HunkLine {
                        tag: LineTag::Insert,
                        content: "new line\n".into(),
                        old_lineno: None,
                        new_lineno: Some(2),
                    },
                    HunkLine {
                        tag: LineTag::Equal,
                        content: "also unchanged\n".into(),
                        old_lineno: Some(3),
                        new_lineno: Some(3),
                    },
                ],
            }],
        }],
        total_hunks: 1,
    }
}

#[test]
fn strips_context_lines() {
    let out = format_diff(&sample_diff());
    assert!(!out.contains("unchanged"), "context lines should be removed");
}

#[test]
fn no_file_path_in_hunks() {
    let out = format_diff(&sample_diff());
    let hunk_section = out.split("- id: abc123").nth(1).unwrap();
    assert!(!hunk_section.contains("file_path:"));
}

#[test]
fn preserves_hunk_id() {
    let out = format_diff(&sample_diff());
    assert!(out.contains("id: abc123"));
}

#[test]
fn tabular_header_present() {
    let out = format_diff(&sample_diff());
    assert!(out.contains("lines[2]{tag,content,old,new}:"));
}

#[test]
fn change_lines_as_csv_rows() {
    let out = format_diff(&sample_diff());
    assert!(out.contains("-,old line\\n,2,"));
    assert!(out.contains("+,new line\\n,,2"));
}

#[test]
fn empty_diff() {
    let empty = DiffOutput { files: vec![], total_hunks: 0 };
    let out = format_diff(&empty);
    assert!(out.contains("total_hunks: 0"));
    assert!(out.contains("files[0]:"));
}

#[test]
fn stage_result_format() {
    let result = StageResult { staged: 2, failed: 1, errors: vec!["hunk not found".into()] };
    let out = format_stage_result(&result);
    assert!(out.contains("staged: 2"));
    assert!(out.contains("failed: 1"));
    assert!(out.contains("- hunk not found"));
}

#[test]
fn status_format() {
    let status = StatusSummary {
        staged_files: 1,
        staged_hunks: 2,
        unstaged_files: 3,
        unstaged_hunks: 4,
    };
    let out = format_status(&status);
    assert!(out.contains("staged_files: 1"));
    assert!(out.contains("unstaged_hunks: 4"));
}

#[test]
fn escapes_special_chars() {
    assert_eq!(escape_content("a,b\nc\\d"), "a\\,b\\nc\\\\d");
}

// ---- exact renderings ----

#[test]
fn diff_full_rendering() {
    let out = format_diff(&sample_diff());
    let expected = "version: 1\n\
ok: true\n\
total_hunks: 1\n\
files[1]:\n\
\x20 - path: src/main.rs\n\
\x20   status: Modified\n\
\x20   hunks[1]:\n\
\x20     - id: abc123\n\
\x20       header: @@ -1,5 +1,6 @@\n\
\x20       old_start: 1 old_lines: 5 new_start: 1 new_lines: 6\n\
\x20       lines[2]{tag,content,old,new}:\n\
\x20         -,old line\\n,2,\n\
\x20         +,new line\\n,,2\n";
    assert_eq!(out, expected);
}

#[test]
fn diff_file_without_hunks_and_hunk_without_changes() {
    let out = format_diff(&DiffOutput {
        files: vec![
            FileChange { path: "a".into(), status: FileStatus::Added, hunks: vec![] },
            FileChange {
                path: "b".into(),
                status: FileStatus::Renamed,
                hunks: vec![Hunk {
                    id: "x".into(),
                    file_path: "b".into(),
                    old_start: 10,
                    old_lines: 1,
                    new_start: 12,
                    new_lines: 1,
                    header: "@@ -10 +12 @@".into(),
                    lines: vec![HunkLine {
                        tag: LineTag::Equal,
                        content: "same".into(),
                        old_lineno: Some(10),
                        new_lineno: Some(12),
                    }],
                }],
            },
        ],
        total_hunks: 1,
    });
    assert!(out.contains("  - path: a\n    status: Added\n    hunks[0]:\n  - path: b\n"));
    assert!(out.contains("    status: Renamed\n"));
    assert!(out.ends_with("        lines[0]:\n"));
}

#[test]
fn empty_diff_exact() {
    let out = format_diff(&DiffOutput { files: vec![], total_hunks: 0 });
    assert_eq!(out, "version: 1\nok: true\ntotal_hunks: 0\nfiles[0]:\n");
}

#[test]
fn stage_result_exact() {
    let out = format_stage_result(&StageResult {
        staged: 12,
        failed: 0,
        errors: vec![],
    });
    assert_eq!(out, "version: 1\nok: true\nstaged: 12\nfailed: 0\n");
    let out = format_stage_result(&StageResult {
        staged: 0,
        failed: 2,
        errors: vec!["e1".into(), "e2".into()],
    });
    assert_eq!(out, "version: 1\nok: true\nstaged: 0\nfailed: 2\nerrors[2]:\n  - e1\n  - e2\n");
}

#[test]
fn checkout_result_exact() {
    let out = format_checkout_result(&CheckoutResult {
        discarded: 3,
        failed: 1,
        errors: vec!["hunk ID not found: zz".into()],
    });
    assert_eq!(
        out,
        "version: 1\nok: true\ndiscarded: 3\nfailed: 1\nerrors[1]:\n  - hunk ID not found: zz\n"
    );
}

#[test]
fn status_exact() {
    let out = format_status(&StatusSummary {
        staged_files: 0,
        staged_hunks: 7,
        unstaged_files: 100,
        unstaged_hunks: 4294967296,
    });
    assert_eq!(
        out,
        "version: 1\nok: true\nstaged_files: 0\nstaged_hunks: 7\nunstaged_files: 100\nunstaged_hunks: 4294967296\n"
    );
}

#[test]
fn escape_carriage_return_and_unicode() {
    assert_eq!(escape_content("x\r\ny"), "x\\r\\ny");
    assert_eq!(escape_content("é,ü"), "é\\,ü");
    assert_eq!(escape_content(""), "");
}

#[test]
fn row_line_numbers_large() {
    let out = format_diff(&DiffOutput {
        files: vec![FileChange {
            path: "p".into(),
            status: FileStatus::Deleted,
            hunks: vec![Hunk {
                id: "i".into(),
                file_path: "p".into(),
                old_start: 4294967295,
                old_lines: 0,
                new_start: 0,
                new_lines: 0,
                header: "h".into(),
                lines: vec![HunkLine {
                    tag: LineTag::Delete,
                    content: "gone".into(),
                    old_lineno: Some(4294967295),
                    new_lineno: None,
                }],
            }],
        }],
        total_hunks: 1,
    });
    assert!(out.contains("old_start: 4294967295 old_lines: 0 new_start: 0 new_lines: 0\n"));
    assert!(out.contains("          -,gone,4294967295,\n"));
}
