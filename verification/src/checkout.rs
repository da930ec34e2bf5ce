//! Decisions of discarding: refusing an empty request and adding up what
//! was discarded.

use vstd::prelude::*;

use crate::models::{strings_view, CheckoutRequest, CheckoutResult, CheckoutResultV};
use crate::diff::HunkRecordV;
use crate::plan::{
    distinct, known_ids, law_plan_accounts_for_each_id, lemma_found_or_missing, missing_messages,
    plan_of, HunkPlan, HunkPlanV, WholeFiles,
};

verus! {

/// The message for a discard request without hunk IDs.
pub open spec fn no_ids_message() -> Seq<char> {
    "no hunk IDs provided"@
}

/// A request without hunk IDs is answered at once with a result that
/// discards nothing and carries one message; any other goes on (`None`).
pub fn precheck_checkout_request(request: &CheckoutRequest) -> (r: Option<CheckoutResult>)
    ensures
        request.hunk_ids@.len() == 0 ==> (r matches Some(res) && res@ == (CheckoutResultV {
            discarded: 0,
            failed: 0,
            errors: seq![no_ids_message()],
        })),
        request.hunk_ids@.len() > 0 ==> r is None,
{
    if request.hunk_ids.len() == 0 {
        let mut msg = String::new();
        msg.append("no hunk IDs provided");
        let errors = vec![msg];
        proof {
            assert(strings_view(errors@) =~= seq![no_ids_message()]);
        }
        Some(CheckoutResult { discarded: 0, failed: 0, errors })
    } else {
        None
    }
}

/// The message for an untracked file whose resolved path lies outside the
/// repository.
pub open spec fn boundary_message(path: Seq<char>) -> Seq<char> {
    "path escapes repository boundary: "@ + path
}

/// The messages for the paths that escape the repository.
pub open spec fn boundary_messages(paths: Seq<Seq<char>>) -> Seq<Seq<char>>
    decreases paths.len(),
{
    if paths.len() == 0 {
        Seq::empty()
    } else {
        boundary_messages(paths.drop_last()).push(boundary_message(paths.last()))
    }
}

/// The views of a sequence of path components, each its bytes.
pub open spec fn components_view(c: Seq<Vec<u8>>) -> Seq<Seq<u8>> {
    c.map_values(|x: Vec<u8>| x@)
}

/// Whether a path lies within `root`: the root's components are the first
/// components of the path, as `Path::starts_with` compares them.
pub open spec fn within(root: Seq<Seq<u8>>, path: Seq<Seq<u8>>) -> bool {
    root.len() <= path.len() && path.take(root.len() as int) == root
}

fn same_bytes(a: &Vec<u8>, b: &Vec<u8>) -> (r: bool)
    ensures
        r == (a@ == b@),
{
    if a.len() != b.len() {
        return false;
    }
    let mut i: usize = 0;
    while i < a.len()
        invariant
            i <= a@.len() == b@.len(),
            forall|k: int| 0 <= k < i ==> a@[k] == b@[k],
        decreases a@.len() - i,
    {
        if a[i] != b[i] {
            return false;
        }
        i = i + 1;
    }
    proof {
        assert(a@ =~= b@);
    }
    true
}

/// Decides [`within`] on the components of two resolved paths.
pub fn is_within(root: &Vec<Vec<u8>>, path: &Vec<Vec<u8>>) -> (r: bool)
    ensures
        r == within(components_view(root@), components_view(path@)),
{
    let ghost rv = components_view(root@);
    let ghost pv = components_view(path@);
    if root.len() > path.len() {
        return false;
    }
    let mut i: usize = 0;
    while i < root.len()
        invariant
            i <= root@.len() <= path@.len(),
            rv == components_view(root@),
            pv == components_view(path@),
            forall|k: int| 0 <= k < i ==> pv[k] == rv[k],
        decreases root@.len() - i,
    {
        if !same_bytes(&root[i], &path[i]) {
            proof {
                assert(pv.take(rv.len() as int)[i as int] == pv[i as int]);
            }
            return false;
        }
        i = i + 1;
    }
    proof {
        assert(pv.take(rv.len() as int) =~= rv);
    }
    true
}

/// Decides, for one whole-file path of a discard, whether it may be
/// deleted: a path whose resolved components lie outside the resolved
/// repository root is refused and joins `escaped`; any other path is to be
/// deleted.
pub fn note_resolved_path(
    escaped: &mut Vec<String>,
    root: &Vec<Vec<u8>>,
    path: &String,
    resolved: &Vec<Vec<u8>>,
) -> (delete: bool)
    ensures
        delete == within(components_view(root@), components_view(resolved@)),
        strings_view(final(escaped)@) == if delete {
            strings_view(old(escaped)@)
        } else {
            strings_view(old(escaped)@).push(path@)
        },
{
    if is_within(root, resolved) {
        true
    } else {
        let ghost before = escaped@;
        escaped.push(path.clone());
        proof {
            assert(strings_view(escaped@) =~= strings_view(before).push(path@));
        }
        false
    }
}

/// The result of a discard: the whole-file hunks less one per path that
/// escaped the repository, plus the reversed hunks, count as discarded;
/// unknown IDs, escaping paths and hunks missing from the diff as failed,
/// with their messages in that order.
pub open spec fn checkout_result_of(plan: HunkPlanV, escaped: Seq<Seq<char>>, applied: nat, missing: Seq<Seq<char>>) -> CheckoutResultV {
    CheckoutResultV {
        discarded: (plan.whole_hunks - escaped.len() + applied) as nat,
        failed: plan.failed + escaped.len() + missing.len(),
        errors: plan.errors + boundary_messages(escaped) + missing,
    }
}

/// Adds up a discard: `escaped` are the whole-file paths refused for lying
/// outside the repository, `applied` the reversed hunks, `missing` the
/// messages for hunks the diff no longer had.
pub fn finish_checkout(plan: HunkPlan, escaped: &Vec<String>, applied: usize, missing: Vec<String>) -> (r: CheckoutResult)
    requires
        escaped@.len() <= plan.whole_hunks,
        plan.whole_hunks - escaped@.len() + applied <= usize::MAX,
        plan.failed + escaped@.len() + missing@.len() <= usize::MAX,
    ensures
        r@ == checkout_result_of(plan@, strings_view(escaped@), applied as nat, strings_view(missing@)),
{
    let ghost ev = strings_view(escaped@);
    let mut errors = plan.errors;
    let ghost head = strings_view(errors@);
    let mut i: usize = 0;
    while i < escaped.len()
        invariant
            i <= escaped@.len(),
            ev == strings_view(escaped@),
            strings_view(errors@) == head + boundary_messages(ev.take(i as int)),
        decreases escaped@.len() - i,
    {
        proof {
            assert(ev.take(i + 1).drop_last() =~= ev.take(i as int));
            assert(ev.take(i + 1).last() == escaped@[i as int]@);
        }
        let mut msg = String::new();
        msg.append("path escapes repository boundary: ");
        msg.append(escaped[i].as_str());
        let ghost eb = errors@;
        errors.push(msg);
        proof {
            assert(strings_view(errors@) =~= strings_view(eb).push(boundary_message(escaped@[i as int]@)));
            assert(head + boundary_messages(ev.take(i + 1)) =~= (head + boundary_messages(ev.take(i as int))).push(boundary_message(escaped@[i as int]@)));
        }
        i = i + 1;
    }
    proof {
        assert(ev.take(escaped@.len() as int) =~= ev);
    }
    let ghost mid = errors@;
    let mut missing = missing;
    let missing_len = missing.len();
    let ghost mv = strings_view(missing@);
    errors.append(&mut missing);
    proof {
        assert(strings_view(errors@) =~= strings_view(mid) + mv);
    }
    CheckoutResult {
        discarded: plan.whole_hunks - escaped.len() + applied,
        failed: plan.failed + escaped.len() + missing_len,
        errors,
    }
}

/// Law: a discard answers every distinct requested ID exactly once, as
/// discarded or as failed. `recs` are the hunks the plan was made from,
/// `current` those of the diff the reverse patches are built from,
/// `escaped` the whole-file paths refused for leaving the repository.
pub proof fn law_discard_answers_each_id(
    ids: Seq<Seq<char>>,
    recs: Seq<HunkRecordV>,
    w: WholeFiles,
    escaped: Seq<Seq<char>>,
    current: Seq<HunkRecordV>,
    prefix: Seq<char>,
)
    requires
        escaped.len() <= plan_of(distinct(ids), recs, w).whole_hunks,
    ensures
        ({
            let plan = plan_of(distinct(ids), recs, w);
            let r = checkout_result_of(
                plan,
                escaped,
                known_ids(plan.patch_ids, current).len(),
                missing_messages(plan.patch_ids, current, prefix),
            );
            &&& r.discarded + r.failed == distinct(ids).len()
            &&& r.errors.len() == r.failed
        }),
{
    let plan = plan_of(distinct(ids), recs, w);
    law_plan_accounts_for_each_id(ids, recs, w);
    lemma_found_or_missing(plan.patch_ids, current, prefix);
    lemma_boundary_messages_len(escaped);
}

proof fn lemma_boundary_messages_len(paths: Seq<Seq<char>>)
    ensures
        boundary_messages(paths).len() == paths.len(),
    decreases paths.len(),
{
    if paths.len() > 0 {
        lemma_boundary_messages_len(paths.drop_last());
    }
}

/// Law: the boundary messages of two runs of paths are those of the first
/// followed by those of the second.
pub proof fn law_boundary_messages_concatenates(a: Seq<Seq<char>>, b: Seq<Seq<char>>)
    ensures
        boundary_messages(a + b) == boundary_messages(a) + boundary_messages(b),
    decreases b.len(),
{
    if b.len() == 0 {
        assert(a + b =~= a);
        assert(boundary_messages(a) + Seq::<Seq<char>>::empty() =~= boundary_messages(a));
    } else {
        law_boundary_messages_concatenates(a, b.drop_last());
        assert((a + b).drop_last() =~= a + b.drop_last());
        assert((a + b).last() == b.last());
        assert(boundary_messages(a + b) =~= boundary_messages(a) + boundary_messages(b));
    }
}

} // verus!
