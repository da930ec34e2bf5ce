//! Decisions of staging: which requests are refused outright, which line
//! selections can be staged and with what patch, and how the outcomes add
//! up to a result.

use vstd::prelude::*;

use crate::diff::{find_record, lookup_record, records_view, HunkRecord, HunkRecordV};
use crate::models::{strings_view, HunkLineV, LineSelection, LineTag, StageRequest, StageResult, StageResultV};
use crate::patch::{reconstruct_patch, selection_patch};
use crate::plan::{
    distinct, known_ids, law_plan_accounts_for_each_id, lemma_found_or_missing, plan_of, HunkPlan,
    HunkPlanV, WholeFiles,
};

verus! {

/// The message for a request that names nothing to stage.
pub open spec fn empty_request_message() -> Seq<char> {
    "no hunk IDs or line selections provided"@
}

/// The message for a request that names both hunks and lines.
pub open spec fn mixed_request_message() -> Seq<char> {
    "cannot mix hunk_ids and line_selections in a single request; use separate calls"@
}

/// A result with nothing staged, nothing failed, and one message.
pub open spec fn refusal(msg: Seq<char>) -> StageResultV {
    StageResultV { staged: 0, failed: 0, errors: seq![msg] }
}

/// Checks a staging request before any repository work. A request with
/// neither hunk IDs nor line selections, or with both, is answered at once
/// with a result that stages nothing and carries one message; any other
/// request goes on (`None`).
pub fn precheck_stage_request(request: &StageRequest) -> (r: Option<StageResult>)
    ensures
        request.hunk_ids@.len() == 0 && request.line_selections@.len() == 0 ==> (r matches Some(
            res,
        ) && res@ == refusal(empty_request_message())),
        request.hunk_ids@.len() > 0 && request.line_selections@.len() > 0 ==> (r matches Some(res)
            && res@ == refusal(mixed_request_message())),
        (request.hunk_ids@.len() == 0) != (request.line_selections@.len() == 0) ==> r is None,
{
    if request.hunk_ids.len() == 0 && request.line_selections.len() == 0 {
        let mut msg = String::new();
        msg.append("no hunk IDs or line selections provided");
        let errors = vec![msg];
        proof {
            assert(strings_view(errors@) =~= seq![empty_request_message()]);
        }
        return Some(StageResult { staged: 0, failed: 0, errors });
    }
    if request.hunk_ids.len() > 0 && request.line_selections.len() > 0 {
        let mut msg = String::new();
        msg.append("cannot mix hunk_ids and line_selections in a single request; use separate calls");
        let errors = vec![msg];
        proof {
            assert(strings_view(errors@) =~= seq![mixed_request_message()]);
        }
        return Some(StageResult { staged: 0, failed: 0, errors });
    }
    None
}

/// The result of hunk-level staging: the hunks of untracked files and the
/// applied tracked hunks count as staged; unknown IDs as failed.
pub open spec fn hunk_stage_result(plan: HunkPlanV, applied: nat) -> StageResultV {
    StageResultV {
        staged: plan.whole_hunks + applied,
        failed: plan.failed,
        errors: plan.errors,
    }
}

/// Adds up hunk-level staging: `applied` tracked hunks were applied.
pub fn finish_hunk_staging(plan: HunkPlan, applied: usize) -> (r: StageResult)
    requires
        plan.whole_hunks + applied <= usize::MAX,
    ensures
        r@ == hunk_stage_result(plan@, applied as nat),
{
    StageResult { staged: plan.whole_hunks + applied, failed: plan.failed, errors: plan.errors }
}

/// The message refusing line-level staging in an untracked file.
pub open spec fn untracked_lines_message(id: Seq<char>) -> Seq<char> {
    "line-level staging not supported for untracked files (hunk "@ + id
        + "); use git add or hunk-level staging instead"@
}

/// Line-level staging is refused for a hunk of an untracked file: when the
/// hunk the selection names belongs to one, the refusal message, else
/// `None`.
pub fn untracked_line_refusal(sel: &LineSelection, recs: &Vec<HunkRecord>) -> (r: Option<String>)
    ensures
        match find_record(records_view(recs@), sel.hunk_id@) {
            Some(rec) if rec.untracked => (r matches Some(m) && m@ == untracked_lines_message(
                sel.hunk_id@,
            )),
            _ => r is None,
        },
{
    match lookup_record(recs, &sel.hunk_id) {
        Some(k) => {
            if recs[k].untracked {
                let mut msg = String::new();
                msg.append("line-level staging not supported for untracked files (hunk ");
                msg.append(sel.hunk_id.as_str());
                msg.append("); use git add or hunk-level staging instead");
                Some(msg)
            } else {
                None
            }
        },
        None => None,
    }
}

/// Whether some selected position names a change line of `lines`.
pub open spec fn selects_change(lines: Seq<HunkLineV>, selected: Seq<usize>) -> bool {
    exists|k: int|
        0 <= k < selected.len() && selected[k] < lines.len() && #[trigger] lines[selected[k] as int].tag
            != LineTag::Equal
}

/// Decides [`selects_change`].
pub fn has_change(hunk: &HunkRecord, selected: &Vec<usize>) -> (b: bool)
    ensures
        b == selects_change(crate::models::lines_view(hunk.lines@), selected@),
{
    let ghost lv = crate::models::lines_view(hunk.lines@);
    let mut k: usize = 0;
    while k < selected.len()
        invariant
            k <= selected@.len(),
            lv == crate::models::lines_view(hunk.lines@),
            forall|j: int|
                0 <= j < k ==> !(selected@[j] < lv.len() && #[trigger] lv[selected@[j] as int].tag
                    != LineTag::Equal),
        decreases selected@.len() - k,
    {
        let i = selected[k];
        if i < hunk.lines.len() && hunk.lines[i].tag != LineTag::Equal {
            proof {
                assert(lv[i as int] == hunk.lines@[i as int]@);
                assert(selected@[k as int] == i);
                assert(lv[selected@[k as int] as int].tag != LineTag::Equal);
            }
            return true;
        }
        proof {
            if i < lv.len() {
                assert(lv[i as int] == hunk.lines@[i as int]@);
            }
        }
        k = k + 1;
    }
    false
}

/// The message for a selection with no change line in it.
pub open spec fn no_change_message(id: Seq<char>) -> Seq<char> {
    "no change lines selected for hunk "@ + id
}

/// The message for a hunk ID that the current diff lacks.
pub open spec fn hunk_not_found_message(id: Seq<char>) -> Seq<char> {
    "hunk ID not found: "@ + id
}

/// What staging a line selection comes to against the current hunks: the
/// patch for the named hunk with the selected lines, or a message when the
/// hunk is unknown or no change line is selected.
pub open spec fn line_selection_outcome(recs: Seq<HunkRecordV>, id: Seq<char>, selected: Seq<usize>) -> Result<Seq<char>, Seq<char>> {
    match find_record(recs, id) {
        None => Err(hunk_not_found_message(id)),
        Some(r) => if !selects_change(r.lines, selected) {
            Err(no_change_message(id))
        } else {
            Ok(selection_patch(r.file_path, r.old_start, r.lines, selected))
        },
    }
}

/// Builds the patch that stages a line selection, or the message why it
/// cannot be staged.
pub fn line_selection_patch(sel: &LineSelection, recs: &Vec<HunkRecord>) -> (r: Result<String, String>)
    requires
        forall|k: int| 0 <= k < recs@.len() ==> #[trigger] recs@[k].lines@.len() <= u32::MAX,
    ensures
        match r {
            Ok(p) => line_selection_outcome(records_view(recs@), sel.hunk_id@, sel.line_indices@)
                == Ok::<Seq<char>, Seq<char>>(p@),
            Err(m) => line_selection_outcome(records_view(recs@), sel.hunk_id@, sel.line_indices@)
                == Err::<Seq<char>, Seq<char>>(m@),
        },
{
    match lookup_record(recs, &sel.hunk_id) {
        None => {
            let mut msg = String::new();
            msg.append("hunk ID not found: ");
            msg.append(sel.hunk_id.as_str());
            Err(msg)
        },
        Some(k) => {
            let raw = &recs[k];
            if !has_change(raw, &sel.line_indices) {
                let mut msg = String::new();
                msg.append("no change lines selected for hunk ");
                msg.append(sel.hunk_id.as_str());
                Err(msg)
            } else {
                Ok(reconstruct_patch(raw, &sel.line_indices))
            }
        },
    }
}

/// The message for a reconstructed patch that the patch parser refused.
pub open spec fn parse_failure_message(id: Seq<char>, detail: Seq<char>) -> Seq<char> {
    "failed to parse reconstructed patch for hunk "@ + id + ": "@ + detail
}

/// Builds [`parse_failure_message`].
pub fn patch_parse_failure(hunk_id: &String, detail: &str) -> (m: String)
    ensures
        m@ == parse_failure_message(hunk_id@, detail@),
{
    let mut msg = String::new();
    msg.append("failed to parse reconstructed patch for hunk ");
    msg.append(hunk_id.as_str());
    msg.append(": ");
    msg.append(detail);
    msg
}

/// How one line selection ended.
pub enum LineOutcome {
    Staged,
    Failed(String),
}

/// The mathematical value of a [`LineOutcome`]: `None` for staged, the
/// message for failed.
pub open spec fn outcome_view(o: LineOutcome) -> Option<Seq<char>> {
    match o {
        LineOutcome::Staged => None,
        LineOutcome::Failed(m) => Some(m@),
    }
}

/// The result of line-level staging: one staged per staged selection, one
/// failed and its message per failed selection, messages in order.
pub open spec fn line_stage_result_of(outcomes: Seq<Option<Seq<char>>>) -> StageResultV
    decreases outcomes.len(),
{
    if outcomes.len() == 0 {
        StageResultV { staged: 0, failed: 0, errors: Seq::empty() }
    } else {
        let prev = line_stage_result_of(outcomes.drop_last());
        match outcomes.last() {
            None => StageResultV { staged: prev.staged + 1, ..prev },
            Some(m) => StageResultV { failed: prev.failed + 1, errors: prev.errors.push(m), ..prev },
        }
    }
}

/// Adds up the outcomes of line-level staging.
pub fn line_stage_result(outcomes: &Vec<LineOutcome>) -> (r: StageResult)
    ensures
        r@ == line_stage_result_of(outcomes@.map_values(|o: LineOutcome| outcome_view(o))),
{
    let ghost ov = outcomes@.map_values(|o: LineOutcome| outcome_view(o));
    let mut staged: usize = 0;
    let mut failed: usize = 0;
    let mut errors: Vec<String> = Vec::new();
    let n = outcomes.len();
    let mut i: usize = 0;
    proof {
        assert(strings_view(errors@) =~= Seq::<Seq<char>>::empty());
        assert(ov.take(0) =~= Seq::<Option<Seq<char>>>::empty());
    }
    while i < n
        invariant
            i <= n == outcomes@.len() == ov.len(),
            ov == outcomes@.map_values(|o: LineOutcome| outcome_view(o)),
            line_stage_result_of(ov.take(i as int)) == (StageResultV {
                staged: staged as nat,
                failed: failed as nat,
                errors: strings_view(errors@),
            }),
            staged + failed == i,
        decreases n - i,
    {
        proof {
            assert(ov.take(i + 1).drop_last() =~= ov.take(i as int));
            assert(ov.take(i + 1).last() == outcome_view(outcomes@[i as int]));
        }
        match &outcomes[i] {
            LineOutcome::Staged => {
                staged = staged + 1;
            },
            LineOutcome::Failed(m) => {
                let ghost eb = errors@;
                errors.push(m.clone());
                failed = failed + 1;
                proof {
                    assert(strings_view(errors@) =~= strings_view(eb).push(m@));
                }
            },
        }
        i = i + 1;
    }
    proof {
        assert(ov.take(n as int) =~= ov);
    }
    StageResult { staged, failed, errors }
}

/// Law: line-level staging answers every selection exactly once, as
/// staged or as failed, with one message per failure.
pub proof fn law_each_selection_is_answered(outcomes: Seq<Option<Seq<char>>>)
    ensures
        line_stage_result_of(outcomes).staged + line_stage_result_of(outcomes).failed
            == outcomes.len(),
        line_stage_result_of(outcomes).errors.len() == line_stage_result_of(outcomes).failed,
    decreases outcomes.len(),
{
    if outcomes.len() > 0 {
        law_each_selection_is_answered(outcomes.drop_last());
    }
}

/// Law: hunk-level staging answers every distinct requested ID once, as
/// staged or failed, except the tracked hunks that the diff they are
/// applied from no longer has, which are left out. `recs` are the hunks
/// the plan was made from, `current` those of the tracked-only diff.
pub proof fn law_hunk_staging_answers_each_id(
    ids: Seq<Seq<char>>,
    recs: Seq<HunkRecordV>,
    current: Seq<HunkRecordV>,
)
    ensures
        ({
            let plan = plan_of(distinct(ids), recs, WholeFiles::Untracked);
            let applied = known_ids(plan.patch_ids, current).len();
            let r = hunk_stage_result(plan, applied);
            &&& applied <= plan.patch_ids.len()
            &&& r.staged + r.failed + (plan.patch_ids.len() - applied) == distinct(ids).len()
        }),
{
    let plan = plan_of(distinct(ids), recs, WholeFiles::Untracked);
    law_plan_accounts_for_each_id(ids, recs, WholeFiles::Untracked);
    lemma_found_or_missing(plan.patch_ids, current, Seq::empty());
}

} // verus!
