use gitsift::diff::{
    build_diff_output, count_files_and_hunks, delta_path, delta_to_status, hunk_header, hunk_id,
    is_binary_delta, lookup_record, scan_hunks, DeltaKind, DiffEvent, FileDelta, HunkHeader,
    LineRecord,
};
use gitsift::models::{FileStatus, LineTag};

fn file(kind: DeltaKind, path: &str) -> DiffEvent {
    DiffEvent::File(FileDelta {
        kind,
        new_path: Some(path.to_string()),
        old_path: Some(path.to_string()),
        new_binary: false,
        old_binary: false,
    })
}

fn binary_file(path: &str) -> DiffEvent {
    DiffEvent::File(FileDelta {
        kind: DeltaKind::Modified,
        new_path: Some(path.to_string()),
        old_path: Some(path.to_string()),
        new_binary: true,
        old_binary: false,
    })
}

fn hunk(old_start: u32, old_lines: u32, new_start: u32, new_lines: u32) -> DiffEvent {
    DiffEvent::Hunk(HunkHeader {
        old_start,
        old_lines,
        new_start,
        new_lines,
        header: format!("@@ -{old_start},{old_lines} +{new_start},{new_lines} @@\n"),
    })
}

fn line(origin: char, content: &str, old: Option<u32>, new: Option<u32>) -> DiffEvent {
    DiffEvent::Line(LineRecord {
        origin,
        content: content.to_string(),
        old_lineno: old,
        new_lineno: new,
    })
}

/// A walk over one modified file with two hunks, a binary file, and an
/// untracked file.
fn sample_events() -> Vec<DiffEvent> {
    vec![
        file(DeltaKind::Modified, "big.txt"),
        hunk(1, 4, 1, 4),
        line(' ', "line 1\n", Some(1), Some(1)),
        line('-', "line 2\n", Some(2), None),
        line('+', "line 2 CHANGED\n", None, Some(2)),
        line(' ', "line 3\n", Some(3), Some(3)),
        hunk(16, 4, 16, 4),
        line(' ', "line 18\n", Some(18), Some(18)),
        line('-', "line 19\n", Some(19), None),
        line('+', "line 19 CHANGED\n", None, Some(19)),
        line(' ', "line 20\n", Some(20), Some(20)),
        binary_file("image.png"),
        file(DeltaKind::Untracked, "new.txt"),
        hunk(0, 0, 1, 1),
        line('+', "new content\n", None, Some(1)),
    ]
}

#[test]
fn diff_output_groups_events_into_files_and_hunks() {
    let out = build_diff_output(&sample_events());
    assert_eq!(out.total_hunks, 3);
    assert_eq!(out.files.len(), 2);

    let big = &out.files[0];
    assert_eq!(big.path, "big.txt");
    assert_eq!(big.status, FileStatus::Modified);
    assert_eq!(big.hunks.len(), 2);
    assert_eq!(big.hunks[0].header, "@@ -1,4 +1,4 @@");
    assert_eq!(big.hunks[0].file_path, "big.txt");
    assert_eq!(big.hunks[0].lines.len(), 4);
    assert_eq!(big.hunks[0].lines[1].tag, LineTag::Delete);
    assert_eq!(big.hunks[0].lines[1].content, "line 2\n");
    assert_eq!(big.hunks[0].lines[1].old_lineno, Some(2));
    assert_eq!(big.hunks[0].lines[1].new_lineno, None);
    assert_eq!(big.hunks[0].lines[2].tag, LineTag::Insert);
    assert_eq!(big.hunks[1].old_start, 16);
    assert_eq!(big.hunks[1].new_lines, 4);

    let new = &out.files[1];
    assert_eq!(new.path, "new.txt");
    assert_eq!(new.status, FileStatus::Added);
    assert_eq!(new.hunks.len(), 1);
    assert_eq!(new.hunks[0].lines[0].tag, LineTag::Insert);
    assert_eq!(new.hunks[0].lines[0].old_lineno, None);
    assert_eq!(new.hunks[0].lines[0].new_lineno, Some(1));
}

#[test]
fn binary_file_skipped_in_output() {
    let out = build_diff_output(&sample_events());
    assert!(out.files.iter().all(|f| f.path != "image.png"));
}

#[test]
fn diff_no_changes() {
    let out = build_diff_output(&Vec::new());
    assert_eq!(out.files.len(), 0);
    assert_eq!(out.total_hunks, 0);
}

#[test]
fn status_clean_repo() {
    assert_eq!(count_files_and_hunks(&Vec::new()), (0, 0));
}

#[test]
fn status_counts_binary_files_too() {
    assert_eq!(count_files_and_hunks(&sample_events()), (3, 3));
}

#[test]
fn hunk_ids_are_sixteen_hex_digits_and_stable() {
    let a = hunk_id("hello.txt", 1, "@@ -1,3 +1,4 @@");
    let b = hunk_id("hello.txt", 1, "@@ -1,3 +1,4 @@");
    assert_eq!(a, b);
    assert_eq!(a.len(), 16);
    assert!(a.chars().all(|c| c.is_ascii_hexdigit() && !c.is_ascii_uppercase()));
}

#[test]
fn hunk_ids_depend_on_each_part() {
    let base = hunk_id("hello.txt", 1, "@@ -1,3 +1,4 @@");
    assert_ne!(base, hunk_id("other.txt", 1, "@@ -1,3 +1,4 @@"));
    assert_ne!(base, hunk_id("hello.txt", 2, "@@ -1,3 +1,4 @@"));
    assert_ne!(base, hunk_id("hello.txt", 1, "@@ -1,3 +1,5 @@"));
}

#[test]
fn diff_multiple_hunks_have_unique_ids() {
    let out = build_diff_output(&sample_events());
    let ids: Vec<&str> = out.files[0].hunks.iter().map(|h| h.id.as_str()).collect();
    assert_eq!(ids.len(), 2);
    assert_ne!(ids[0], ids[1]);
}

#[test]
fn shown_ids_are_what_the_scan_finds() {
    let events = sample_events();
    let out = build_diff_output(&events);
    let recs = scan_hunks(&events);
    assert_eq!(recs.len(), 3);
    for f in &out.files {
        for h in &f.hunks {
            assert_eq!(h.id, hunk_id(&f.path, h.old_start, &h.header));
            let k = lookup_record(&recs, &h.id).expect("shown hunk is found");
            assert_eq!(recs[k].file_path, f.path);
            assert_eq!(recs[k].old_start, h.old_start);
            assert_eq!(recs[k].lines, h.lines);
        }
    }
    assert!(recs[2].untracked);
    assert!(!recs[0].untracked);
    assert_eq!(lookup_record(&recs, &"nonexistent".to_string()), None);
}

#[test]
fn scan_attributes_hunks_after_binary_file_to_empty_path() {
    let events = vec![binary_file("image.png"), hunk(1, 1, 1, 1), line('+', "x\n", None, Some(1))];
    let recs = scan_hunks(&events);
    assert_eq!(recs.len(), 1);
    assert_eq!(recs[0].file_path, "");
    assert_eq!(recs[0].id, hunk_id("", 1, "@@ -1,1 +1,1 @@"));
}

#[test]
fn hunk_header_trims_white_space() {
    assert_eq!(hunk_header("  @@ -1 +1 @@ fn main()\r\n"), "@@ -1 +1 @@ fn main()");
    assert_eq!(hunk_header("\t\n"), "");
}

#[test]
fn delta_status_mapping() {
    assert_eq!(delta_to_status(DeltaKind::Added), FileStatus::Added);
    assert_eq!(delta_to_status(DeltaKind::Untracked), FileStatus::Added);
    assert_eq!(delta_to_status(DeltaKind::Deleted), FileStatus::Deleted);
    assert_eq!(delta_to_status(DeltaKind::Renamed), FileStatus::Renamed);
    assert_eq!(delta_to_status(DeltaKind::Modified), FileStatus::Modified);
    assert_eq!(delta_to_status(DeltaKind::Typechange), FileStatus::Modified);
}

#[test]
fn delta_path_prefers_new_side() {
    let both = FileDelta {
        kind: DeltaKind::Renamed,
        new_path: Some("new.rs".into()),
        old_path: Some("old.rs".into()),
        new_binary: false,
        old_binary: false,
    };
    assert_eq!(delta_path(&both), "new.rs");
    let old_only = FileDelta { new_path: None, ..both.clone() };
    assert_eq!(delta_path(&old_only), "old.rs");
    let none = FileDelta { new_path: None, old_path: None, ..both.clone() };
    assert_eq!(delta_path(&none), "");
    assert!(!is_binary_delta(&both));
    assert!(is_binary_delta(&FileDelta { old_binary: true, ..both }));
}

#[test]
fn line_tags_from_origin() {
    assert_eq!(LineTag::from_origin('+'), LineTag::Insert);
    assert_eq!(LineTag::from_origin('>'), LineTag::Insert);
    assert_eq!(LineTag::from_origin('-'), LineTag::Delete);
    assert_eq!(LineTag::from_origin('<'), LineTag::Delete);
    assert_eq!(LineTag::from_origin(' '), LineTag::Equal);
    assert_eq!(LineTag::from_origin('='), LineTag::Equal);
}

#[test]
fn file_status_labels() {
    assert_eq!(FileStatus::Modified.label(), "Modified");
    assert_eq!(FileStatus::Added.label(), "Added");
    assert_eq!(FileStatus::Deleted.label(), "Deleted");
    assert_eq!(FileStatus::Renamed.label(), "Renamed");
}

#[test]
fn shown_hunks_are_named_by_their_file() {
    let out = build_diff_output(&sample_events());
    for f in &out.files {
        for h in &f.hunks {
            assert_eq!(h.file_path, f.path);
            assert_eq!(h.header, h.header.trim());
            assert_eq!(h.id, hunk_id(&f.path, h.old_start, &h.header));
        }
    }
}
