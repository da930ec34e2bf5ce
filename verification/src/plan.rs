//! Sorting requested hunk IDs: which are unknown, which belong to files
//! handled as a whole (untracked or newly added), and which are applied
//! as patches.

use vstd::prelude::*;

use crate::diff::{find_record, lookup_record, records_view, HunkRecord, HunkRecordV};
use crate::models::strings_view;
use crate::patch::{reconstruct_reverse_patch, reverse_patch};

verus! {

/// Whether `s` is among `v`.
pub fn contains_string(v: &Vec<String>, s: &String) -> (b: bool)
    ensures
        b == strings_view(v@).contains(s@),
{
    let ghost sv = strings_view(v@);
    let mut k: usize = 0;
    while k < v.len()
        invariant
            k <= v@.len(),
            sv == strings_view(v@),
            forall|j: int| 0 <= j < k ==> sv[j] != s@,
        decreases v@.len() - k,
    {
        if v[k] == *s {
            proof {
                assert(sv[k as int] == s@);
            }
            return true;
        }
        k = k + 1;
    }
    false
}

/// `ids` without repetitions, each kept where it first occurs.
pub open spec fn distinct(ids: Seq<Seq<char>>) -> Seq<Seq<char>>
    decreases ids.len(),
{
    if ids.len() == 0 {
        Seq::empty()
    } else if distinct(ids.drop_last()).contains(ids.last()) {
        distinct(ids.drop_last())
    } else {
        distinct(ids.drop_last()).push(ids.last())
    }
}

/// Which files are handled as a whole instead of through patches: the
/// untracked ones (staging, discarding unstaged changes) or the newly
/// added ones (discarding staged changes).
#[derive(Clone, Copy, Debug, PartialEq, Eq, Structural)]
pub enum WholeFiles {
    Untracked,
    Added,
}

/// Whether a record belongs to a file handled as a whole.
pub open spec fn is_whole_file(r: HunkRecordV, w: WholeFiles) -> bool {
    match w {
        WholeFiles::Untracked => r.untracked,
        WholeFiles::Added => r.added,
    }
}

/// The message for a requested ID that no hunk has.
pub open spec fn not_found_message(id: Seq<char>) -> Seq<char> {
    "hunk ID not found: "@ + id
}

/// How the requested IDs were sorted.
pub struct HunkPlan {
    /// Paths of the files handled as a whole, each once, in request order.
    pub whole_paths: Vec<String>,
    /// How many requested hunks belong to those files.
    pub whole_hunks: usize,
    /// IDs to apply as patches, in request order.
    pub patch_ids: Vec<String>,
    /// How many requested IDs are unknown.
    pub failed: usize,
    /// One message per unknown ID.
    pub errors: Vec<String>,
}

/// The mathematical value of a [`HunkPlan`].
pub struct HunkPlanV {
    pub whole_paths: Seq<Seq<char>>,
    pub whole_hunks: nat,
    pub patch_ids: Seq<Seq<char>>,
    pub failed: nat,
    pub errors: Seq<Seq<char>>,
}

impl View for HunkPlan {
    type V = HunkPlanV;

    open spec fn view(&self) -> HunkPlanV {
        HunkPlanV {
            whole_paths: strings_view(self.whole_paths@),
            whole_hunks: self.whole_hunks as nat,
            patch_ids: strings_view(self.patch_ids@),
            failed: self.failed as nat,
            errors: strings_view(self.errors@),
        }
    }
}

/// The plan before any ID.
pub open spec fn empty_plan() -> HunkPlanV {
    HunkPlanV {
        whole_paths: Seq::empty(),
        whole_hunks: 0,
        patch_ids: Seq::empty(),
        failed: 0,
        errors: Seq::empty(),
    }
}

/// The plan after sorting one more ID: an unknown ID fails with a message;
/// a hunk of a whole file counts, and its path joins the list unless it
/// is already there; any other hunk is to be applied as a patch.
pub open spec fn plan_add(p: HunkPlanV, id: Seq<char>, recs: Seq<HunkRecordV>, w: WholeFiles) -> HunkPlanV {
    match find_record(recs, id) {
        None => HunkPlanV {
            failed: p.failed + 1,
            errors: p.errors.push(not_found_message(id)),
            ..p
        },
        Some(r) => if is_whole_file(r, w) {
            HunkPlanV {
                whole_paths: if p.whole_paths.contains(r.file_path) {
                    p.whole_paths
                } else {
                    p.whole_paths.push(r.file_path)
                },
                whole_hunks: p.whole_hunks + 1,
                ..p
            }
        } else {
            HunkPlanV { patch_ids: p.patch_ids.push(id), ..p }
        },
    }
}

/// The plan for a sequence of distinct IDs, sorted in order.
pub open spec fn plan_of(ids: Seq<Seq<char>>, recs: Seq<HunkRecordV>, w: WholeFiles) -> HunkPlanV
    decreases ids.len(),
{
    if ids.len() == 0 {
        empty_plan()
    } else {
        plan_add(plan_of(ids.drop_last(), recs, w), ids.last(), recs, w)
    }
}

/// Sorts the requested IDs, each distinct ID once, against the hunks of
/// the current diff.
pub fn plan_hunks(ids: &Vec<String>, recs: &Vec<HunkRecord>, w: WholeFiles) -> (p: HunkPlan)
    ensures
        p@ == plan_of(distinct(strings_view(ids@)), records_view(recs@), w),
        p.whole_paths@.len() <= p.whole_hunks,
{
    let ghost iv = strings_view(ids@);
    let ghost rv = records_view(recs@);
    let mut seen: Vec<String> = Vec::new();
    let mut p = HunkPlan {
        whole_paths: Vec::new(),
        whole_hunks: 0,
        patch_ids: Vec::new(),
        failed: 0,
        errors: Vec::new(),
    };
    let mut i: usize = 0;
    proof {
        assert(iv.take(0) =~= Seq::<Seq<char>>::empty());
        assert(strings_view(seen@) =~= Seq::<Seq<char>>::empty());
        assert(p@ =~= empty_plan());
    }
    while i < ids.len()
        invariant
            i <= ids@.len(),
            iv == strings_view(ids@),
            rv == records_view(recs@),
            strings_view(seen@) == distinct(iv.take(i as int)),
            p@ == plan_of(distinct(iv.take(i as int)), rv, w),
            seen@.len() <= i,
            p.whole_hunks + p.failed + p.patch_ids@.len() <= seen@.len(),
            p.whole_paths@.len() <= p.whole_hunks,
        decreases ids@.len() - i,
    {
        let id = &ids[i];
        proof {
            assert(iv.take(i + 1).drop_last() =~= iv.take(i as int));
            assert(iv.take(i + 1).last() == id@);
        }
        if !contains_string(&seen, id) {
            let ghost before = p@;
            let ghost seen_before = seen@;
            seen.push(id.clone());
            proof {
                assert(strings_view(seen@) =~= strings_view(seen_before).push(id@));
                assert(distinct(iv.take(i + 1)) == distinct(iv.take(i as int)).push(id@));
                assert(distinct(iv.take(i + 1)).drop_last() =~= distinct(iv.take(i as int)));
                assert(distinct(iv.take(i + 1)).last() == id@);
            }
            match lookup_record(recs, id) {
                None => {
                    let mut msg = String::new();
                    msg.append("hunk ID not found: ");
                    msg.append(id.as_str());
                    let ghost eb = p.errors@;
                    p.errors.push(msg);
                    p.failed = p.failed + 1;
                    proof {
                        assert(strings_view(p.errors@) =~= strings_view(eb).push(
                            not_found_message(id@),
                        ));
                        assert(p@ =~= plan_add(before, id@, rv, w));
                    }
                },
                Some(k) => {
                    let r = &recs[k];
                    let whole = match w {
                        WholeFiles::Untracked => r.untracked,
                        WholeFiles::Added => r.added,
                    };
                    if whole {
                        if !contains_string(&p.whole_paths, &r.file_path) {
                            let ghost wb = p.whole_paths@;
                            p.whole_paths.push(r.file_path.clone());
                            proof {
                                assert(strings_view(p.whole_paths@) =~= strings_view(wb).push(
                                    r.file_path@,
                                ));
                            }
                        }
                        p.whole_hunks = p.whole_hunks + 1;
                        proof {
                            assert(p@ =~= plan_add(before, id@, rv, w));
                        }
                    } else {
                        let ghost pb = p.patch_ids@;
                        p.patch_ids.push(id.clone());
                        proof {
                            assert(strings_view(p.patch_ids@) =~= strings_view(pb).push(id@));
                            assert(p@ =~= plan_add(before, id@, rv, w));
                        }
                    }
                },
            }
        } else {
            proof {
                assert(distinct(iv.take(i + 1)) == distinct(iv.take(i as int)));
            }
        }
        i = i + 1;
    }
    proof {
        assert(iv.take(ids@.len() as int) =~= iv);
    }
    p
}

/// Law: every distinct requested ID is accounted for exactly once, as
/// unknown, as a hunk of a whole file, or as a patch to apply.
pub proof fn law_plan_accounts_for_each_id(ids: Seq<Seq<char>>, recs: Seq<HunkRecordV>, w: WholeFiles)
    ensures
        plan_of(distinct(ids), recs, w).failed + plan_of(distinct(ids), recs, w).whole_hunks
            + plan_of(distinct(ids), recs, w).patch_ids.len() == distinct(ids).len(),
        plan_of(distinct(ids), recs, w).errors.len() == plan_of(distinct(ids), recs, w).failed,
{
    lemma_plan_counts(distinct(ids), recs, w);
}

proof fn lemma_plan_counts(ids: Seq<Seq<char>>, recs: Seq<HunkRecordV>, w: WholeFiles)
    ensures
        plan_of(ids, recs, w).failed + plan_of(ids, recs, w).whole_hunks + plan_of(
            ids,
            recs,
            w,
        ).patch_ids.len() == ids.len(),
        plan_of(ids, recs, w).errors.len() == plan_of(ids, recs, w).failed,
    decreases ids.len(),
{
    if ids.len() > 0 {
        lemma_plan_counts(ids.drop_last(), recs, w);
    }
}

/// Law: asking for an ID twice is the same as asking once.
pub proof fn law_repeated_id_is_ignored(ids: Seq<Seq<char>>, k: int)
    requires
        0 <= k < ids.len(),
    ensures
        distinct(ids.push(ids[k])) == distinct(ids),
{
    lemma_distinct_contains(ids, k);
    assert(ids.push(ids[k]).drop_last() =~= ids);
}

/// Every ID of `ids` is among its distinct IDs.
pub proof fn lemma_distinct_contains(ids: Seq<Seq<char>>, k: int)
    requires
        0 <= k < ids.len(),
    ensures
        distinct(ids).contains(ids[k]),
    decreases ids.len(),
{
    if k == ids.len() - 1 {
        if !distinct(ids.drop_last()).contains(ids.last()) {
            assert(distinct(ids)[distinct(ids).len() - 1] == ids.last());
        }
    } else {
        lemma_distinct_contains(ids.drop_last(), k);
        let d = distinct(ids.drop_last());
        let j = choose|j: int| 0 <= j < d.len() && d[j] == ids[k];
        if !d.contains(ids.last()) {
            assert(d.push(ids.last())[j] == ids[k]);
        }
    }
}

/// Law: a file handled as a whole is named once in the plan, however many
/// of its hunks are requested.
pub proof fn law_whole_paths_named_once(ids: Seq<Seq<char>>, recs: Seq<HunkRecordV>, w: WholeFiles)
    ensures
        plan_of(ids, recs, w).whole_paths.no_duplicates(),
    decreases ids.len(),
{
    if ids.len() > 0 {
        law_whole_paths_named_once(ids.drop_last(), recs, w);
        let prev = plan_of(ids.drop_last(), recs, w).whole_paths;
        match find_record(recs, ids.last()) {
            Some(r) => {
                if is_whole_file(r, w) && !prev.contains(r.file_path) {
                    let next = prev.push(r.file_path);
                    assert forall|i: int, j: int|
                        0 <= i < next.len() && 0 <= j < next.len() && i != j implies next[i]
                        != next[j] by {
                        if j == prev.len() as int {
                            assert(next[i] == prev[i]);
                        } else if i == prev.len() as int {
                            assert(next[j] == prev[j]);
                        }
                    }
                }
            },
            None => {},
        }
    }
}

/// The IDs of `ids` that some record has, in order.
pub open spec fn known_ids(ids: Seq<Seq<char>>, recs: Seq<HunkRecordV>) -> Seq<Seq<char>>
    decreases ids.len(),
{
    if ids.len() == 0 {
        Seq::empty()
    } else if find_record(recs, ids.last()) is Some {
        known_ids(ids.drop_last(), recs).push(ids.last())
    } else {
        known_ids(ids.drop_last(), recs)
    }
}

/// Keeps the IDs that some record has.
pub fn filter_known_ids(ids: &Vec<String>, recs: &Vec<HunkRecord>) -> (r: Vec<String>)
    ensures
        strings_view(r@) == known_ids(strings_view(ids@), records_view(recs@)),
{
    let ghost iv = strings_view(ids@);
    let mut r: Vec<String> = Vec::new();
    let mut i: usize = 0;
    proof {
        assert(strings_view(r@) =~= Seq::<Seq<char>>::empty());
    }
    while i < ids.len()
        invariant
            i <= ids@.len(),
            iv == strings_view(ids@),
            strings_view(r@) == known_ids(iv.take(i as int), records_view(recs@)),
        decreases ids@.len() - i,
    {
        proof {
            assert(iv.take(i + 1).drop_last() =~= iv.take(i as int));
            assert(iv.take(i + 1).last() == ids@[i as int]@);
        }
        if lookup_record(recs, &ids[i]).is_some() {
            let ghost rb = r@;
            r.push(ids[i].clone());
            proof {
                assert(strings_view(r@) =~= strings_view(rb).push(ids@[i as int]@));
            }
        }
        i = i + 1;
    }
    proof {
        assert(iv.take(ids@.len() as int) =~= iv);
    }
    r
}

/// Every ID is either found, or missing with a message.
pub proof fn lemma_found_or_missing(ids: Seq<Seq<char>>, recs: Seq<HunkRecordV>, prefix: Seq<char>)
    ensures
        known_ids(ids, recs).len() + missing_messages(ids, recs, prefix).len() == ids.len(),
    decreases ids.len(),
{
    if ids.len() > 0 {
        lemma_found_or_missing(ids.drop_last(), recs, prefix);
    }
}

/// The combined reverse patch of the found IDs, with one message per
/// missing ID.
pub struct CombinedPatch {
    pub patch: String,
    pub valid: usize,
    pub errors: Vec<String>,
}

/// The combined reverse patch: the reverse patches of the IDs that a
/// record has, concatenated in order.
pub open spec fn combined_reverse(ids: Seq<Seq<char>>, recs: Seq<HunkRecordV>) -> Seq<char>
    decreases ids.len(),
{
    if ids.len() == 0 {
        Seq::empty()
    } else {
        match find_record(recs, ids.last()) {
            Some(r) => combined_reverse(ids.drop_last(), recs) + reverse_patch(
                r.file_path,
                r.old_start,
                r.new_start,
                r.lines,
            ),
            None => combined_reverse(ids.drop_last(), recs),
        }
    }
}

/// The messages for the IDs that no record has, each `prefix` followed by
/// the ID.
pub open spec fn missing_messages(ids: Seq<Seq<char>>, recs: Seq<HunkRecordV>, prefix: Seq<char>) -> Seq<Seq<char>>
    decreases ids.len(),
{
    if ids.len() == 0 {
        Seq::empty()
    } else if find_record(recs, ids.last()) is Some {
        missing_messages(ids.drop_last(), recs, prefix)
    } else {
        missing_messages(ids.drop_last(), recs, prefix).push(prefix + ids.last())
    }
}

/// Builds one patch that reverses every found hunk among `ids`; each
/// missing ID gets the message `prefix` followed by the ID.
pub fn combine_reverse_patches(ids: &Vec<String>, recs: &Vec<HunkRecord>, prefix: &str) -> (c: CombinedPatch)
    requires
        forall|k: int| 0 <= k < recs@.len() ==> #[trigger] recs@[k].lines@.len() <= u32::MAX,
    ensures
        c.patch@ == combined_reverse(strings_view(ids@), records_view(recs@)),
        c.valid as nat == known_ids(strings_view(ids@), records_view(recs@)).len(),
        strings_view(c.errors@) == missing_messages(strings_view(ids@), records_view(recs@), prefix@),
        c.valid + c.errors@.len() == ids@.len(),
{
    let ghost iv = strings_view(ids@);
    let ghost rv = records_view(recs@);
    let mut patch = String::new();
    let mut valid: usize = 0;
    let mut errors: Vec<String> = Vec::new();
    let mut i: usize = 0;
    proof {
        assert(strings_view(errors@) =~= Seq::<Seq<char>>::empty());
    }
    while i < ids.len()
        invariant
            i <= ids@.len(),
            iv == strings_view(ids@),
            rv == records_view(recs@),
            forall|k: int| 0 <= k < recs@.len() ==> #[trigger] recs@[k].lines@.len() <= u32::MAX,
            patch@ == combined_reverse(iv.take(i as int), rv),
            valid as nat == known_ids(iv.take(i as int), rv).len(),
            strings_view(errors@) == missing_messages(iv.take(i as int), rv, prefix@),
            valid + errors@.len() == i,
        decreases ids@.len() - i,
    {
        proof {
            assert(iv.take(i + 1).drop_last() =~= iv.take(i as int));
            assert(iv.take(i + 1).last() == ids@[i as int]@);
        }
        match lookup_record(recs, &ids[i]) {
            Some(k) => {
                let part = reconstruct_reverse_patch(&recs[k]);
                patch.append(part.as_str());
                valid = valid + 1;
            },
            None => {
                let mut msg = String::new();
                msg.append(prefix);
                msg.append(ids[i].as_str());
                let ghost eb = errors@;
                errors.push(msg);
                proof {
                    assert(strings_view(errors@) =~= strings_view(eb).push(prefix@ + ids@[i as int]@));
                }
            },
        }
        i = i + 1;
    }
    proof {
        assert(iv.take(ids@.len() as int) =~= iv);
    }
    CombinedPatch { patch, valid, errors }
}

/// The reverse patch of one ID: the reverse patch of its hunk when a
/// record has it, else nothing.
pub open spec fn reverse_of_id(id: Seq<char>, recs: Seq<HunkRecordV>) -> Seq<char> {
    match find_record(recs, id) {
        Some(r) => reverse_patch(r.file_path, r.old_start, r.new_start, r.lines),
        None => Seq::empty(),
    }
}

/// Law: the combined reverse patch of two runs of IDs is the combined
/// patch of the first followed by that of the second, and that of a single
/// ID is its hunk's reverse patch (nothing for an unknown ID). So the
/// combined patch is the concatenation, in request order, of the reverse
/// patches of every found ID.
pub proof fn law_combined_reverse_concatenates(a: Seq<Seq<char>>, b: Seq<Seq<char>>, recs: Seq<HunkRecordV>)
    ensures
        combined_reverse(a + b, recs) == combined_reverse(a, recs) + combined_reverse(b, recs),
    decreases b.len(),
{
    if b.len() == 0 {
        assert(a + b =~= a);
        assert(combined_reverse(a, recs) + Seq::<char>::empty() =~= combined_reverse(a, recs));
    } else {
        law_combined_reverse_concatenates(a, b.drop_last(), recs);
        assert((a + b).drop_last() =~= a + b.drop_last());
        assert((a + b).last() == b.last());
        assert(combined_reverse(a + b, recs) =~= combined_reverse(a, recs) + combined_reverse(b, recs));
    }
}

/// Law: the combined reverse patch of one ID is its hunk's reverse patch
/// when a record has it, and nothing otherwise.
pub proof fn law_combined_reverse_of_one(id: Seq<char>, recs: Seq<HunkRecordV>)
    ensures
        combined_reverse(seq![id], recs) == reverse_of_id(id, recs),
{
    let one = seq![id];
    assert(one.drop_last() =~= Seq::<Seq<char>>::empty());
    assert(one.last() == id);
    assert(combined_reverse(one.drop_last(), recs) == Seq::<char>::empty());
    assert(Seq::<char>::empty() + reverse_of_id(id, recs) =~= reverse_of_id(id, recs));
}

/// Law: the messages for missing IDs of two runs are those of the first
/// followed by those of the second.
pub proof fn law_missing_messages_concatenate(a: Seq<Seq<char>>, b: Seq<Seq<char>>, recs: Seq<HunkRecordV>, prefix: Seq<char>)
    ensures
        missing_messages(a + b, recs, prefix) == missing_messages(a, recs, prefix) + missing_messages(
            b,
            recs,
            prefix,
        ),
    decreases b.len(),
{
    if b.len() == 0 {
        assert(a + b =~= a);
        assert(missing_messages(a, recs, prefix) + Seq::<Seq<char>>::empty() =~= missing_messages(a, recs, prefix));
    } else {
        law_missing_messages_concatenate(a, b.drop_last(), recs, prefix);
        assert((a + b).drop_last() =~= a + b.drop_last());
        assert((a + b).last() == b.last());
        assert(missing_messages(a + b, recs, prefix) =~= missing_messages(a, recs, prefix)
            + missing_messages(b, recs, prefix));
    }
}

/// Law: the known IDs of two runs of IDs are those of the first followed
/// by those of the second.
pub proof fn law_known_ids_concatenates(a: Seq<Seq<char>>, b: Seq<Seq<char>>, recs: Seq<HunkRecordV>)
    ensures
        known_ids(a + b, recs) == known_ids(a, recs) + known_ids(b, recs),
    decreases b.len(),
{
    if b.len() == 0 {
        assert(a + b =~= a);
        assert(known_ids(a, recs) + Seq::<Seq<char>>::empty() =~= known_ids(a, recs));
    } else {
        law_known_ids_concatenates(a, b.drop_last(), recs);
        assert((a + b).drop_last() =~= a + b.drop_last());
        assert((a + b).last() == b.last());
        assert(known_ids(a + b, recs) =~= known_ids(a, recs) + known_ids(b, recs));
    }
}

} // verus!
