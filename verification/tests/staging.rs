use gitsift::checkout::{finish_checkout, is_within, note_resolved_path, precheck_checkout_request};
use gitsift::git::prepare_line_selection;
use gitsift::diff::{
    build_diff_output, scan_hunks, DeltaKind, DiffEvent, FileDelta, HunkHeader, HunkRecord,
    LineRecord,
};
use gitsift::models::{CheckoutRequest, LineSelection, LineTag, StageRequest};
use gitsift::plan::{
    combine_reverse_patches, contains_string, filter_known_ids, plan_hunks, WholeFiles,
};
use gitsift::stage::{
    finish_hunk_staging, has_change, line_selection_patch, line_stage_result, patch_parse_failure,
    precheck_stage_request, untracked_line_refusal, LineOutcome,
};

fn file(kind: DeltaKind, path: &str) -> DiffEvent {
    DiffEvent::File(FileDelta {
        kind,
        new_path: Some(path.to_string()),
        old_path: Some(path.to_string()),
        new_binary: false,
        old_binary: false,
    })
}

fn hunk(old_start: u32, old_lines: u32, new_start: u32, new_lines: u32) -> DiffEvent {
    DiffEvent::Hunk(HunkHeader {
        old_start,
        old_lines,
        new_start,
        new_lines,
        header: format!("@@ -{old_start},{old_lines} +{new_start},{new_lines} @@\n"),
    })
}

fn line(origin: char, content: &str) -> DiffEvent {
    DiffEvent::Line(LineRecord {
        origin,
        content: content.to_string(),
        old_lineno: None,
        new_lineno: None,
    })
}

/// The walk of a repository where `file.txt` has two changed hunks.
fn two_hunk_events() -> Vec<DiffEvent> {
    vec![
        file(DeltaKind::Modified, "file.txt"),
        hunk(1, 5, 1, 5),
        line(' ', "line 1\n"),
        line('-', "line 2\n"),
        line('+', "line 2 CHANGED\n"),
        line(' ', "line 3\n"),
        line(' ', "line 4\n"),
        line(' ', "line 5\n"),
        hunk(16, 5, 16, 5),
        line(' ', "line 16\n"),
        line(' ', "line 17\n"),
        line(' ', "line 18\n"),
        line('-', "line 19\n"),
        line('+', "line 19 CHANGED\n"),
        line(' ', "line 20\n"),
    ]
}

/// The same walk with an fresh `new.txt` as well.
fn with_untracked(path: &str, content: &str) -> Vec<DiffEvent> {
    let mut events = two_hunk_events();
    events.push(file(DeltaKind::Untracked, path));
    events.push(hunk(0, 0, 1, 1));
    events.push(line('+', content));
    events
}

/// A file where beta became BETA, NEW was added and delta removed.
fn line_level_events() -> Vec<DiffEvent> {
    vec![
        file(DeltaKind::Modified, "code.txt"),
        hunk(1, 5, 1, 5),
        line(' ', "alpha\n"),
        line('-', "beta\n"),
        line('+', "BETA\n"),
        line(' ', "gamma\n"),
        line('-', "delta\n"),
        line('+', "NEW\n"),
        line(' ', "epsilon\n"),
    ]
}

fn ids_of(events: &Vec<DiffEvent>) -> Vec<String> {
    let out = build_diff_output(events);
    out.files.iter().flat_map(|f| f.hunks.iter().map(|h| h.id.clone())).collect()
}

fn hunk_request(ids: Vec<String>) -> StageRequest {
    StageRequest { hunk_ids: ids, line_selections: vec![] }
}

fn line_request(id: &str, indices: Vec<usize>) -> StageRequest {
    StageRequest {
        hunk_ids: vec![],
        line_selections: vec![LineSelection { hunk_id: id.to_string(), line_indices: indices }],
    }
}

/// Stages hunks against the given walk as the command does: the plan,
/// then the kept hunks that the (kept-only) walk still has.
fn stage_hunks(events: &Vec<DiffEvent>, ids: Vec<String>) -> gitsift::models::StageResult {
    let request = hunk_request(ids);
    if let Some(r) = precheck_stage_request(&request) {
        return r;
    }
    let recs = scan_hunks(events);
    let plan = plan_hunks(&request.hunk_ids, &recs, WholeFiles::Untracked);
    let applied = filter_known_ids(&plan.patch_ids, &recs).len();
    finish_hunk_staging(plan, applied)
}

#[test]
fn stage_empty_request() {
    let result = precheck_stage_request(&hunk_request(vec![])).expect("refused");
    assert_eq!(result.staged, 0);
    assert!(result.errors[0].contains("no hunk IDs"));
    assert_eq!(result.errors, vec!["no hunk IDs or line selections provided".to_string()]);
}

#[test]
fn stage_mixed_hunk_and_line_rejected() {
    let ids = ids_of(&line_level_events());
    let request = StageRequest {
        hunk_ids: vec![ids[0].clone()],
        line_selections: vec![LineSelection { hunk_id: ids[0].clone(), line_indices: vec![0] }],
    };
    let result = precheck_stage_request(&request).expect("refused");
    assert_eq!(result.staged, 0);
    assert!(result.errors[0].contains("cannot mix"));
}

#[test]
fn precheck_lets_plain_requests_through() {
    assert!(precheck_stage_request(&hunk_request(vec!["x".into()])).is_none());
    assert!(precheck_stage_request(&line_request("x", vec![0])).is_none());
}

#[test]
fn stage_single_hunk() {
    let events = two_hunk_events();
    let ids = ids_of(&events);
    assert!(ids.len() >= 2);
    let result = stage_hunks(&events, vec![ids[0].clone()]);
    assert_eq!(result.staged, 1);
    assert_eq!(result.failed, 0);
}

#[test]
fn stage_multiple_hunks() {
    let events = two_hunk_events();
    let ids = ids_of(&events);
    let result = stage_hunks(&events, ids.clone());
    assert_eq!(result.staged, ids.len());
}

#[test]
fn stage_invalid_hunk_id() {
    let result = stage_hunks(&two_hunk_events(), vec!["nonexistent_id".into()]);
    assert_eq!(result.staged, 0);
    assert_eq!(result.failed, 1);
    assert!(result.errors[0].contains("not found"));
    assert_eq!(result.errors, vec!["hunk ID not found: nonexistent_id".to_string()]);
}

#[test]
fn stage_mix_valid_and_invalid() {
    let events = two_hunk_events();
    let ids = ids_of(&events);
    let result = stage_hunks(&events, vec![ids[0].clone(), "bad_id".into()]);
    assert_eq!(result.staged, 1);
    assert_eq!(result.failed, 1);
}

#[test]
fn stage_duplicate_hunk_ids() {
    let events = two_hunk_events();
    let ids = ids_of(&events);
    let result = stage_hunks(&events, vec![ids[0].clone(), ids[0].clone()]);
    assert_eq!(result.staged, 1);
    assert_eq!(result.failed, 0);
}

#[test]
fn stage_untracked_file_hunk_directly() {
    let events = with_untracked("brand_new.py", "print('hello')\n");
    let out = build_diff_output(&events);
    let new_file = out.files.iter().find(|f| f.path == "brand_new.py").expect("shown");
    let id = new_file.hunks[0].id.clone();

    let recs = scan_hunks(&events);
    let plan = plan_hunks(&vec![id.clone()], &recs, WholeFiles::Untracked);
    assert_eq!(plan.whole_paths, vec!["brand_new.py".to_string()]);
    assert_eq!(plan.whole_hunks, 1);
    assert!(plan.patch_ids.is_empty());

    let result = stage_hunks(&events, vec![id]);
    assert_eq!(result.staged, 1);
    assert_eq!(result.failed, 0);
}

#[test]
fn stage_mixed_tracked_and_untracked_hunks() {
    let events = with_untracked("new.txt", "new content\n");
    let out = build_diff_output(&events);
    let kept = out.files.iter().find(|f| f.path == "file.txt").unwrap().hunks[0].id.clone();
    let fresh = out.files.iter().find(|f| f.path == "new.txt").unwrap().hunks[0].id.clone();

    let recs = scan_hunks(&events);
    let plan = plan_hunks(&vec![kept.clone(), fresh.clone()], &recs, WholeFiles::Untracked);
    assert_eq!(plan.patch_ids, vec![kept.clone()]);
    assert_eq!(plan.whole_paths, vec!["new.txt".to_string()]);

    let result = stage_hunks(&events, vec![kept, fresh]);
    assert_eq!(result.staged, 2);
    assert_eq!(result.failed, 0);
    assert!(result.errors.is_empty());
}

#[test]
fn stage_with_untracked_files_present() {
    let events = with_untracked("new_file.txt", "brand new\n");
    let out = build_diff_output(&events);
    let kept = out.files.iter().find(|f| f.path == "file.txt").unwrap().hunks[0].id.clone();
    let recs = scan_hunks(&events);
    let plan = plan_hunks(&vec![kept.clone()], &recs, WholeFiles::Untracked);
    assert!(plan.whole_paths.is_empty());

    let result = stage_hunks(&events, vec![kept]);
    assert_eq!(result.staged, 1);
    assert_eq!(result.failed, 0);
    assert!(result.errors.is_empty());
}

#[test]
fn plan_names_a_file_once_for_many_of_its_hunks() {
    let mut events = with_untracked("new.txt", "a\n");
    events.push(hunk(5, 0, 5, 1));
    events.push(line('+', "b\n"));
    let out = build_diff_output(&events);
    let new_ids: Vec<String> = out.files[1].hunks.iter().map(|h| h.id.clone()).collect();
    assert_eq!(new_ids.len(), 2);
    let plan = plan_hunks(&new_ids, &scan_hunks(&events), WholeFiles::Untracked);
    assert_eq!(plan.whole_paths, vec!["new.txt".to_string()]);
    assert_eq!(plan.whole_hunks, 2);
}

#[test]
fn line_stage_invalid_hunk_id() {
    let recs = scan_hunks(&line_level_events());
    let request = line_request("nonexistent", vec![0]);
    let sel = &request.line_selections[0];
    let msg = line_selection_patch(sel, &recs).expect_err("unknown hunk");
    let result = line_stage_result(&vec![LineOutcome::Failed(msg)]);
    assert_eq!(result.staged, 0);
    assert_eq!(result.failed, 1);
    assert!(result.errors[0].contains("not found"));
    assert_eq!(result.errors[0], "hunk ID not found: nonexistent");
}

#[test]
fn line_stage_only_context_lines_fails() {
    let events = line_level_events();
    let out = build_diff_output(&events);
    let hunk = &out.files[0].hunks[0];
    let context: Vec<usize> = hunk
        .lines
        .iter()
        .enumerate()
        .filter(|(_, l)| l.tag == LineTag::Equal)
        .map(|(i, _)| i)
        .collect();
    let request = line_request(&hunk.id, context);
    let recs = scan_hunks(&events);
    let msg = line_selection_patch(&request.line_selections[0], &recs).expect_err("no change");
    let result = line_stage_result(&vec![LineOutcome::Failed(msg)]);
    assert_eq!(result.staged, 0);
    assert_eq!(result.failed, 1);
    assert!(result.errors[0].contains("no change lines"));
}

#[test]
fn line_selection_out_of_range_is_no_change() {
    let events = line_level_events();
    let recs = scan_hunks(&events);
    let id = recs[0].id.clone();
    assert!(!has_change(&recs[0], &vec![99]));
    let request = line_request(&id, vec![99]);
    let msg = line_selection_patch(&request.line_selections[0], &recs).unwrap_err();
    assert_eq!(msg, format!("no change lines selected for hunk {id}"));
}

#[test]
fn line_stage_select_one_change_builds_patch() {
    let events = line_level_events();
    let recs = scan_hunks(&events);
    let id = recs[0].id.clone();
    let request = line_request(&id, vec![2]);
    let patch = line_selection_patch(&request.line_selections[0], &recs).expect("patch");
    assert_eq!(
        patch,
        "diff --git a/code.txt b/code.txt\n--- a/code.txt\n+++ b/code.txt\n@@ -1,5 +1,6 @@\n alpha\n beta\n+BETA\n gamma\n delta\n epsilon\n"
    );
}

#[test]
fn line_stage_result_counts_in_order() {
    let result = line_stage_result(&vec![
        LineOutcome::Staged,
        LineOutcome::Failed("first".into()),
        LineOutcome::Staged,
        LineOutcome::Failed("second".into()),
    ]);
    assert_eq!(result.staged, 2);
    assert_eq!(result.failed, 2);
    assert_eq!(result.errors, vec!["first".to_string(), "second".to_string()]);
}

#[test]
fn line_staging_refused_in_untracked_file() {
    let events = with_untracked("new.txt", "x\n");
    let recs = scan_hunks(&events);
    let untracked_id = recs[2].id.clone();
    let tracked_id = recs[0].id.clone();
    let request = line_request(&untracked_id, vec![0]);
    assert_eq!(
        untracked_line_refusal(&request.line_selections[0], &recs),
        Some(format!(
            "line-level staging not supported for untracked files (hunk {untracked_id}); use git add or hunk-level staging instead"
        ))
    );
    let request = line_request(&tracked_id, vec![1]);
    assert_eq!(untracked_line_refusal(&request.line_selections[0], &recs), None);
    let request = line_request("unknown", vec![1]);
    assert_eq!(untracked_line_refusal(&request.line_selections[0], &recs), None);
}

#[test]
fn patch_parse_failure_message() {
    assert_eq!(
        patch_parse_failure(&"abc".to_string(), "bad header"),
        "failed to parse reconstructed patch for hunk abc: bad header"
    );
}

#[test]
fn checkout_unstaged_empty_request() {
    let result = precheck_checkout_request(&CheckoutRequest { hunk_ids: vec![] }).unwrap();
    assert_eq!(result.discarded, 0);
    assert!(result.errors[0].contains("no hunk IDs"));
}

#[test]
fn checkout_staged_empty_request() {
    let result = precheck_checkout_request(&CheckoutRequest { hunk_ids: vec![] }).unwrap();
    assert_eq!(result.discarded, 0);
    assert_eq!(result.failed, 0);
    assert_eq!(result.errors, vec!["no hunk IDs provided".to_string()]);
    assert!(precheck_checkout_request(&CheckoutRequest { hunk_ids: vec!["x".into()] }).is_none());
}

#[test]
fn checkout_unstaged_invalid_id() {
    let recs = scan_hunks(&two_hunk_events());
    let plan = plan_hunks(&vec!["nonexistent".into()], &recs, WholeFiles::Untracked);
    let result = finish_checkout(plan, &vec![], 0, vec![]);
    assert_eq!(result.discarded, 0);
    assert_eq!(result.failed, 1);
    assert!(result.errors[0].contains("not found"));
}

#[test]
fn checkout_staged_invalid_id() {
    let recs = scan_hunks(&two_hunk_events());
    let plan = plan_hunks(&vec!["nonexistent".into()], &recs, WholeFiles::Added);
    let result = finish_checkout(plan, &vec![], 0, vec![]);
    assert_eq!(result.discarded, 0);
    assert_eq!(result.failed, 1);
    assert_eq!(result.errors, vec!["hunk ID not found: nonexistent".to_string()]);
}

#[test]
fn checkout_result_orders_messages() {
    let mut events = with_untracked("new.txt", "x\n");
    events.push(file(DeltaKind::Untracked, "../outside.txt"));
    events.push(hunk(0, 0, 1, 1));
    events.push(line('+', "y\n"));
    let recs = scan_hunks(&events);
    let ids = vec![recs[2].id.clone(), recs[3].id.clone(), "gone".to_string(), recs[0].id.clone()];
    let plan = plan_hunks(&ids, &recs, WholeFiles::Untracked);
    assert_eq!(plan.whole_paths, vec!["new.txt".to_string(), "../outside.txt".to_string()]);
    assert_eq!(plan.whole_hunks, 2);
    assert_eq!(plan.patch_ids, vec![recs[0].id.clone()]);
    let result = finish_checkout(
        plan,
        &vec!["../outside.txt".to_string()],
        0,
        vec!["hunk ID not found in current diff: z".to_string()],
    );
    assert_eq!(result.discarded, 1);
    assert_eq!(result.failed, 3);
    assert_eq!(
        result.errors,
        vec![
            "hunk ID not found: gone".to_string(),
            "path escapes repository boundary: ../outside.txt".to_string(),
            "hunk ID not found in current diff: z".to_string(),
        ]
    );
}

#[test]
fn staged_plan_handles_added_files_whole() {
    let events = vec![
        file(DeltaKind::Added, "added.txt"),
        hunk(0, 0, 1, 1),
        line('+', "new\n"),
        file(DeltaKind::Modified, "kept.txt"),
        hunk(1, 1, 1, 1),
        line('-', "a\n"),
        line('+', "b\n"),
    ];
    let recs = scan_hunks(&events);
    assert!(recs[0].added);
    let ids = vec![recs[0].id.clone(), recs[1].id.clone()];
    let plan = plan_hunks(&ids, &recs, WholeFiles::Added);
    assert_eq!(plan.whole_paths, vec!["added.txt".to_string()]);
    assert_eq!(plan.patch_ids, vec![recs[1].id.clone()]);
}

#[test]
fn combined_reverse_patch_and_missing_ids() {
    let recs: Vec<HunkRecord> = scan_hunks(&line_level_events());
    let id = recs[0].id.clone();
    let combined = combine_reverse_patches(
        &vec![id, "gone".to_string()],
        &recs,
        "hunk ID not found in staged diff: ",
    );
    assert_eq!(combined.valid, 1);
    assert_eq!(combined.errors, vec!["hunk ID not found in staged diff: gone".to_string()]);
    assert_eq!(
        combined.patch,
        "diff --git a/code.txt b/code.txt\n--- a/code.txt\n+++ b/code.txt\n@@ -1,5 +1,5 @@\n alpha\n+beta\n-BETA\n gamma\n+delta\n-NEW\n epsilon\n"
    );
}

#[test]
fn filter_and_contains() {
    let recs = scan_hunks(&two_hunk_events());
    let ids = vec!["a".to_string(), recs[1].id.clone(), "b".to_string()];
    assert_eq!(filter_known_ids(&ids, &recs), vec![recs[1].id.clone()]);
    assert!(contains_string(&ids, &"b".to_string()));
    assert!(!contains_string(&ids, &"c".to_string()));
}

#[test]
fn hunk_gone_from_tracked_diff_is_left_out() {
    let events = two_hunk_events();
    let ids = ids_of(&events);
    let recs = scan_hunks(&events);
    let plan = plan_hunks(&vec![ids[0].clone(), "bad".into()], &recs, WholeFiles::Untracked);
    let applied = filter_known_ids(&plan.patch_ids, &Vec::new()).len();
    assert_eq!(applied, 0);
    let result = finish_hunk_staging(plan, applied);
    assert_eq!(result.staged, 0);
    assert_eq!(result.failed, 1);
}

#[test]
fn prepared_line_selection_parses_or_explains() {
    let events = line_level_events();
    let recs = scan_hunks(&events);
    let id = recs[0].id.clone();
    let ok = line_request(&id, vec![1, 2]);
    assert!(prepare_line_selection(&ok.line_selections[0], &recs).is_ok());
    let context_only = line_request(&id, vec![0, 3]);
    match prepare_line_selection(&context_only.line_selections[0], &recs) {
        Err(m) => assert_eq!(m, format!("no change lines selected for hunk {id}")),
        Ok(_) => panic!("context lines alone stage nothing"),
    }
    let unknown = line_request("nonexistent", vec![1]);
    match prepare_line_selection(&unknown.line_selections[0], &recs) {
        Err(m) => assert_eq!(m, "hunk ID not found: nonexistent"),
        Ok(_) => panic!("unknown hunk"),
    }
}

fn comps(parts: &[&str]) -> Vec<Vec<u8>> {
    parts.iter().map(|p| p.as_bytes().to_vec()).collect()
}

#[test]
fn resolved_paths_inside_root_are_deleted() {
    let root = comps(&["/", "tmp", "repo"]);
    let mut escaped: Vec<String> = Vec::new();
    assert!(note_resolved_path(&mut escaped, &root, &"a.txt".to_string(), &comps(&["/", "tmp", "repo", "a.txt"])));
    assert!(escaped.is_empty());
    assert!(is_within(&root, &root));
}

#[test]
fn resolved_paths_outside_root_escape() {
    let root = comps(&["/", "tmp", "repo"]);
    let mut escaped: Vec<String> = Vec::new();
    assert!(!note_resolved_path(&mut escaped, &root, &"../x".to_string(), &comps(&["/", "tmp", "x"])));
    // A sibling whose name only starts with the root's last component is outside.
    assert!(!note_resolved_path(&mut escaped, &root, &"../repo2/y".to_string(), &comps(&["/", "tmp", "repo2", "y"])));
    assert!(!is_within(&root, &comps(&["/", "tmp"])));
    assert_eq!(escaped, vec!["../x".to_string(), "../repo2/y".to_string()]);
}
