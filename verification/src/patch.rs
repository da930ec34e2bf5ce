//! Patch reconstruction: a unified diff for one hunk that stages only the
//! chosen lines, and the reverse patch that discards a hunk.

use vstd::prelude::*;

use crate::diff::HunkRecord;
use crate::models::{lines_view, HunkLineV, LineTag};
use crate::text::{decimal, push_decimal};

verus! {

/// What a patch line does: keep a line, remove it, or add it.
#[derive(Clone, Copy, Debug, PartialEq, Eq, Structural)]
pub enum PatchOp {
    Context,
    Remove,
    Add,
}

/// One line of a patch body.
pub struct PatchLineV {
    pub op: PatchOp,
    pub content: Seq<char>,
}

/// The prefix character of a patch line.
pub open spec fn op_prefix(op: PatchOp) -> char {
    match op {
        PatchOp::Context => ' ',
        PatchOp::Remove => '-',
        PatchOp::Add => '+',
    }
}

/// Whether `s` ends with a newline.
pub open spec fn ends_with_newline(s: Seq<char>) -> bool {
    s.len() > 0 && s.last() == '\n'
}

/// The text of a patch line: prefix, content, and a newline unless the
/// content already ends with one.
pub open spec fn patch_line_text(l: PatchLineV) -> Seq<char> {
    seq![op_prefix(l.op)] + l.content + if ends_with_newline(l.content) {
        Seq::empty()
    } else {
        seq!['\n']
    }
}

/// The text of a patch body.
pub open spec fn patch_body(ls: Seq<PatchLineV>) -> Seq<char>
    decreases ls.len(),
{
    if ls.len() == 0 {
        Seq::empty()
    } else {
        patch_body(ls.drop_last()) + patch_line_text(ls.last())
    }
}

/// The lines a patch expects to find: contents of its context and removed
/// lines, in order.
pub open spec fn old_side(ls: Seq<PatchLineV>) -> Seq<Seq<char>>
    decreases ls.len(),
{
    if ls.len() == 0 {
        Seq::empty()
    } else if ls.last().op == PatchOp::Add {
        old_side(ls.drop_last())
    } else {
        old_side(ls.drop_last()).push(ls.last().content)
    }
}

/// The lines a patch leaves behind: contents of its context and added
/// lines, in order.
pub open spec fn new_side(ls: Seq<PatchLineV>) -> Seq<Seq<char>>
    decreases ls.len(),
{
    if ls.len() == 0 {
        Seq::empty()
    } else if ls.last().op == PatchOp::Remove {
        new_side(ls.drop_last())
    } else {
        new_side(ls.drop_last()).push(ls.last().content)
    }
}

/// The lines of a hunk on the old side: its context and deleted lines.
pub open spec fn hunk_old_side(lines: Seq<HunkLineV>) -> Seq<Seq<char>>
    decreases lines.len(),
{
    if lines.len() == 0 {
        Seq::empty()
    } else if lines.last().tag == LineTag::Insert {
        hunk_old_side(lines.drop_last())
    } else {
        hunk_old_side(lines.drop_last()).push(lines.last().content)
    }
}

/// The lines of a hunk on the new side: its context and inserted lines.
pub open spec fn hunk_new_side(lines: Seq<HunkLineV>) -> Seq<Seq<char>>
    decreases lines.len(),
{
    if lines.len() == 0 {
        Seq::empty()
    } else if lines.last().tag == LineTag::Delete {
        hunk_new_side(lines.drop_last())
    } else {
        hunk_new_side(lines.drop_last()).push(lines.last().content)
    }
}

/// The body of the patch that stages the lines of `lines` whose positions
/// `selected` lists: context stays context, a selected deletion is
/// removed, an unselected deletion becomes context, a selected insertion
/// is added, an unselected insertion is left out.
pub open spec fn selection_ops(lines: Seq<HunkLineV>, selected: Seq<usize>) -> Seq<PatchLineV>
    decreases lines.len(),
{
    if lines.len() == 0 {
        Seq::empty()
    } else {
        let prev = selection_ops(lines.drop_last(), selected);
        let picked = selected.contains((lines.len() - 1) as usize);
        let l = lines.last();
        match l.tag {
            LineTag::Equal => prev.push(PatchLineV { op: PatchOp::Context, content: l.content }),
            LineTag::Delete => prev.push(
                PatchLineV {
                    op: if picked {
                        PatchOp::Remove
                    } else {
                        PatchOp::Context
                    },
                    content: l.content,
                },
            ),
            LineTag::Insert => if picked {
                prev.push(PatchLineV { op: PatchOp::Add, content: l.content })
            } else {
                prev
            },
        }
    }
}

/// The body of the patch that undoes `lines`: context stays, deletions are
/// added back, insertions are removed.
pub open spec fn reverse_ops(lines: Seq<HunkLineV>) -> Seq<PatchLineV>
    decreases lines.len(),
{
    if lines.len() == 0 {
        Seq::empty()
    } else {
        let l = lines.last();
        reverse_ops(lines.drop_last()).push(
            PatchLineV {
                op: match l.tag {
                    LineTag::Equal => PatchOp::Context,
                    LineTag::Delete => PatchOp::Add,
                    LineTag::Insert => PatchOp::Remove,
                },
                content: l.content,
            },
        )
    }
}

/// A one-file unified diff: the `diff --git`, `---` and `+++` lines for
/// `path`, the `@@` header with the given start lines and the lengths of
/// the two sides, then the body.
pub open spec fn patch_text(path: Seq<char>, from_start: u32, to_start: u32, ls: Seq<PatchLineV>) -> Seq<char> {
    "diff --git a/"@ + path + " b/"@ + path + "\n"@ + "--- a/"@ + path + "\n"@ + "+++ b/"@ + path
        + "\n"@ + "@@ -"@ + decimal(from_start as nat) + ","@ + decimal(old_side(ls).len())
        + " +"@ + decimal(to_start as nat) + ","@ + decimal(new_side(ls).len()) + " @@\n"@
        + patch_body(ls)
}

/// The patch that stages the selected lines of a hunk; both sides start
/// at the hunk's old start line.
pub open spec fn selection_patch(path: Seq<char>, old_start: u32, lines: Seq<HunkLineV>, selected: Seq<usize>) -> Seq<char> {
    patch_text(path, old_start, old_start, selection_ops(lines, selected))
}

/// The patch that discards a hunk: from the hunk's new start line back to
/// its old start line.
pub open spec fn reverse_patch(path: Seq<char>, old_start: u32, new_start: u32, lines: Seq<HunkLineV>) -> Seq<char> {
    patch_text(path, new_start, old_start, reverse_ops(lines))
}

/// Whether position `i` is among `selected`.
pub fn is_selected(selected: &Vec<usize>, i: usize) -> (b: bool)
    ensures
        b == selected@.contains(i),
{
    let mut k: usize = 0;
    while k < selected.len()
        invariant
            k <= selected@.len(),
            forall|j: int| 0 <= j < k ==> selected@[j] != i,
        decreases selected@.len() - k,
    {
        if selected[k] == i {
            proof {
                assert(selected@[k as int] == i);
            }
            return true;
        }
        k = k + 1;
    }
    false
}

/// Appends the text of one patch line.
fn push_patch_line(buf: &mut String, op: PatchOp, content: &String)
    ensures
        final(buf)@ == old(buf)@ + patch_line_text(PatchLineV { op, content: content@ }),
{
    let ghost start = buf@;
    match op {
        PatchOp::Context => buf.push(' '),
        PatchOp::Remove => buf.push('-'),
        PatchOp::Add => buf.push('+'),
    }
    buf.append(content.as_str());
    let n = content.as_str().unicode_len();
    let ends = n > 0 && content.as_str().get_char(n - 1) == '\n';
    if !ends {
        buf.push('\n');
    }
    proof {
        assert(buf@ =~= start + patch_line_text(PatchLineV { op, content: content@ }));
    }
}

/// Appends the header lines of a one-file patch.
fn push_patch_header(buf: &mut String, path: &str, from_start: u32, old_len: u32, to_start: u32, new_len: u32)
    ensures
        final(buf)@ == old(buf)@ + "diff --git a/"@ + path@ + " b/"@ + path@ + "\n"@ + "--- a/"@
            + path@ + "\n"@ + "+++ b/"@ + path@ + "\n"@ + "@@ -"@ + decimal(from_start as nat)
            + ","@ + decimal(old_len as nat) + " +"@ + decimal(to_start as nat) + ","@ + decimal(
            new_len as nat,
        ) + " @@\n"@,
{
    buf.append("diff --git a/");
    buf.append(path);
    buf.append(" b/");
    buf.append(path);
    buf.append("\n");
    buf.append("--- a/");
    buf.append(path);
    buf.append("\n");
    buf.append("+++ b/");
    buf.append(path);
    buf.append("\n");
    buf.append("@@ -");
    push_decimal(buf, from_start as u64);
    buf.append(",");
    push_decimal(buf, old_len as u64);
    buf.append(" +");
    push_decimal(buf, to_start as u64);
    buf.append(",");
    push_decimal(buf, new_len as u64);
    buf.append(" @@\n");
}

/// Reconstructs a unified diff patch for one hunk that contains only the
/// lines at the positions in `line_indices`: context lines stay, chosen
/// deletions stay, unchosen deletions become context, chosen insertions
/// stay, unchosen insertions are dropped; the `@@` counts are recomputed.
pub fn reconstruct_patch(hunk: &HunkRecord, line_indices: &Vec<usize>) -> (patch: String)
    requires
        hunk.lines@.len() <= u32::MAX,
    ensures
        patch@ == selection_patch(hunk.file_path@, hunk.old_start, lines_view(hunk.lines@), line_indices@),
{
    let ghost lv = lines_view(hunk.lines@);
    let n = hunk.lines.len();
    // First pass: the lengths of both sides.
    let mut old_count: u32 = 0;
    let mut new_count: u32 = 0;
    let mut i: usize = 0;
    while i < n
        invariant
            i <= n == hunk.lines@.len() <= u32::MAX,
            lv == lines_view(hunk.lines@),
            old_count as nat == old_side(selection_ops(lv.take(i as int), line_indices@)).len(),
            new_count as nat == new_side(selection_ops(lv.take(i as int), line_indices@)).len(),
            old_count <= i,
            new_count <= i,
        decreases n - i,
    {
        proof {
            assert(lv.take(i + 1).drop_last() =~= lv.take(i as int));
            assert(lv.take(i + 1).last() == hunk.lines@[i as int]@);
        }
        let ghost prev = selection_ops(lv.take(i as int), line_indices@);
        let picked = is_selected(line_indices, i);
        proof {
            lemma_push_drop(prev, hunk.lines@[i as int].content@);
        }
        match hunk.lines[i].tag {
            LineTag::Equal => {
                old_count = old_count + 1;
                new_count = new_count + 1;
            },
            LineTag::Delete => {
                old_count = old_count + 1;
                if !picked {
                    new_count = new_count + 1;
                }
            },
            LineTag::Insert => {
                if picked {
                    new_count = new_count + 1;
                }
            },
        }
        i = i + 1;
    }
    proof {
        assert(lv.take(n as int) =~= lv);
    }
    let mut patch = String::new();
    push_patch_header(
        &mut patch,
        hunk.file_path.as_str(),
        hunk.old_start,
        old_count,
        hunk.old_start,
        new_count,
    );
    let ghost head = patch@;
    // Second pass: the body.
    let mut i: usize = 0;
    while i < n
        invariant
            i <= n == hunk.lines@.len(),
            lv == lines_view(hunk.lines@),
            patch@ == head + patch_body(selection_ops(lv.take(i as int), line_indices@)),
        decreases n - i,
    {
        proof {
            assert(lv.take(i + 1).drop_last() =~= lv.take(i as int));
            assert(lv.take(i + 1).last() == hunk.lines@[i as int]@);
        }
        let ghost prev = selection_ops(lv.take(i as int), line_indices@);
        proof {
            lemma_push_drop(prev, hunk.lines@[i as int].content@);
        }
        let picked = is_selected(line_indices, i);
        let line = &hunk.lines[i];
        match line.tag {
            LineTag::Equal => {
                push_patch_line(&mut patch, PatchOp::Context, &line.content);
            },
            LineTag::Delete => {
                let op = if picked {
                    PatchOp::Remove
                } else {
                    PatchOp::Context
                };
                push_patch_line(&mut patch, op, &line.content);
            },
            LineTag::Insert => {
                if picked {
                    push_patch_line(&mut patch, PatchOp::Add, &line.content);
                }
            },
        }
        i = i + 1;
    }
    proof {
        assert(lv.take(n as int) =~= lv);
    }
    patch
}

/// Reconstructs the reverse patch of one hunk: deletions come back as
/// additions, insertions go as removals, context stays; the old side
/// starts at the hunk's new start line and the new side at its old one.
pub fn reconstruct_reverse_patch(hunk: &HunkRecord) -> (patch: String)
    requires
        hunk.lines@.len() <= u32::MAX,
    ensures
        patch@ == reverse_patch(hunk.file_path@, hunk.old_start, hunk.new_start, lines_view(hunk.lines@)),
{
    let ghost lv = lines_view(hunk.lines@);
    let n = hunk.lines.len();
    let mut old_count: u32 = 0;
    let mut new_count: u32 = 0;
    let mut i: usize = 0;
    while i < n
        invariant
            i <= n == hunk.lines@.len() <= u32::MAX,
            lv == lines_view(hunk.lines@),
            old_count as nat == old_side(reverse_ops(lv.take(i as int))).len(),
            new_count as nat == new_side(reverse_ops(lv.take(i as int))).len(),
            old_count <= i,
            new_count <= i,
        decreases n - i,
    {
        proof {
            assert(lv.take(i + 1).drop_last() =~= lv.take(i as int));
            assert(lv.take(i + 1).last() == hunk.lines@[i as int]@);
        }
        let ghost prev = reverse_ops(lv.take(i as int));
        proof {
            lemma_push_drop(prev, hunk.lines@[i as int].content@);
        }
        match hunk.lines[i].tag {
            LineTag::Equal => {
                old_count = old_count + 1;
                new_count = new_count + 1;
            },
            LineTag::Delete => {
                new_count = new_count + 1;
            },
            LineTag::Insert => {
                old_count = old_count + 1;
            },
        }
        i = i + 1;
    }
    proof {
        assert(lv.take(n as int) =~= lv);
    }
    let mut patch = String::new();
    push_patch_header(
        &mut patch,
        hunk.file_path.as_str(),
        hunk.new_start,
        old_count,
        hunk.old_start,
        new_count,
    );
    let ghost head = patch@;
    let mut i: usize = 0;
    while i < n
        invariant
            i <= n == hunk.lines@.len(),
            lv == lines_view(hunk.lines@),
            patch@ == head + patch_body(reverse_ops(lv.take(i as int))),
        decreases n - i,
    {
        proof {
            assert(lv.take(i + 1).drop_last() =~= lv.take(i as int));
            assert(lv.take(i + 1).last() == hunk.lines@[i as int]@);
        }
        let ghost prev = reverse_ops(lv.take(i as int));
        proof {
            lemma_push_drop(prev, hunk.lines@[i as int].content@);
        }
        let line = &hunk.lines[i];
        let op = match line.tag {
            LineTag::Equal => PatchOp::Context,
            LineTag::Delete => PatchOp::Add,
            LineTag::Insert => PatchOp::Remove,
        };
        push_patch_line(&mut patch, op, &line.content);
        i = i + 1;
    }
    proof {
        assert(lv.take(n as int) =~= lv);
    }
    patch
}


/// Pushing a line and dropping it again gives back the original body.
proof fn lemma_push_drop(prev: Seq<PatchLineV>, content: Seq<char>)
    ensures
        forall|op: PatchOp|
            #[trigger] prev.push(PatchLineV { op, content }).drop_last() == prev,
{
    assert forall|op: PatchOp| #[trigger] prev.push(PatchLineV { op, content }).drop_last() == prev by {
        assert(prev.push(PatchLineV { op, content }).drop_last() =~= prev);
    }
}

/// Law: whichever lines are chosen, the staging patch expects exactly the
/// hunk's old side (its context and deleted lines), so it applies where
/// the whole hunk would.
pub proof fn law_selection_keeps_old_side(lines: Seq<HunkLineV>, selected: Seq<usize>)
    ensures
        old_side(selection_ops(lines, selected)) == hunk_old_side(lines),
    decreases lines.len(),
{
    if lines.len() > 0 {
        law_selection_keeps_old_side(lines.drop_last(), selected);
        lemma_push_drop(selection_ops(lines.drop_last(), selected), lines.last().content);
    }
}

/// Law: choosing every change line of a hunk stages the whole hunk: the
/// patch leaves behind the hunk's new side.
pub proof fn law_full_selection_is_whole_hunk(lines: Seq<HunkLineV>, selected: Seq<usize>)
    requires
        forall|i: int|
            0 <= i < lines.len() && lines[i].tag != LineTag::Equal ==> selected.contains(i as usize),
    ensures
        new_side(selection_ops(lines, selected)) == hunk_new_side(lines),
    decreases lines.len(),
{
    if lines.len() > 0 {
        assert forall|j: int|
            0 <= j < lines.drop_last().len() && lines.drop_last()[j].tag
                != LineTag::Equal implies selected.contains(j as usize) by {
            assert(lines.drop_last()[j] == lines[j]);
        }
        law_full_selection_is_whole_hunk(lines.drop_last(), selected);
        lemma_push_drop(selection_ops(lines.drop_last(), selected), lines.last().content);
    }
}

/// Law: choosing no change line stages nothing: the patch leaves behind
/// exactly what it expects, the hunk's old side.
pub proof fn law_empty_selection_changes_nothing(lines: Seq<HunkLineV>, selected: Seq<usize>)
    requires
        forall|i: int|
            0 <= i < lines.len() && lines[i].tag != LineTag::Equal ==> !selected.contains(
                i as usize,
            ),
    ensures
        new_side(selection_ops(lines, selected)) == hunk_old_side(lines),
        old_side(selection_ops(lines, selected)) == hunk_old_side(lines),
    decreases lines.len(),
{
    if lines.len() > 0 {
        assert forall|j: int|
            0 <= j < lines.drop_last().len() && lines.drop_last()[j].tag
                != LineTag::Equal implies !selected.contains(j as usize) by {
            assert(lines.drop_last()[j] == lines[j]);
        }
        law_empty_selection_changes_nothing(lines.drop_last(), selected);
        lemma_push_drop(selection_ops(lines.drop_last(), selected), lines.last().content);
    }
}

/// Law: the reverse patch of a hunk expects the hunk's new side and leaves
/// its old side, so discarding a hunk restores what it replaced.
pub proof fn law_reverse_swaps_sides(lines: Seq<HunkLineV>)
    ensures
        old_side(reverse_ops(lines)) == hunk_new_side(lines),
        new_side(reverse_ops(lines)) == hunk_old_side(lines),
    decreases lines.len(),
{
    if lines.len() > 0 {
        law_reverse_swaps_sides(lines.drop_last());
        lemma_push_drop(reverse_ops(lines.drop_last()), lines.last().content);
    }
}

/// The contents of the lines a patch adds, in order.
pub open spec fn added_lines(ls: Seq<PatchLineV>) -> Seq<Seq<char>>
    decreases ls.len(),
{
    if ls.len() == 0 {
        Seq::empty()
    } else if ls.last().op == PatchOp::Add {
        added_lines(ls.drop_last()).push(ls.last().content)
    } else {
        added_lines(ls.drop_last())
    }
}

/// The contents of the lines a patch removes, in order.
pub open spec fn removed_lines(ls: Seq<PatchLineV>) -> Seq<Seq<char>>
    decreases ls.len(),
{
    if ls.len() == 0 {
        Seq::empty()
    } else if ls.last().op == PatchOp::Remove {
        removed_lines(ls.drop_last()).push(ls.last().content)
    } else {
        removed_lines(ls.drop_last())
    }
}

/// The positions `0..n`.
pub open spec fn positions(n: nat) -> Seq<int> {
    Seq::new(n, |i: int| i)
}

/// Whether position `i` of `lines` is a selected line with tag `tag`.
pub open spec fn chosen_at(lines: Seq<HunkLineV>, selected: Seq<usize>, tag: LineTag) -> spec_fn(int) -> bool {
    |i: int| 0 <= i < lines.len() && lines[i].tag == tag && selected.contains(i as usize)
}

/// The contents of the lines of `lines` with tag `tag` whose positions
/// `selected` lists, in hunk order.
pub open spec fn chosen(lines: Seq<HunkLineV>, selected: Seq<usize>, tag: LineTag, n: nat) -> Seq<Seq<char>> {
    positions(n).filter(chosen_at(lines, selected, tag)).map_values(|i: int| lines[i].content)
}

proof fn lemma_chosen_step(lines: Seq<HunkLineV>, selected: Seq<usize>, tag: LineTag, k: nat)
    requires
        k < lines.len(),
    ensures
        chosen(lines, selected, tag, k + 1) == if chosen_at(lines, selected, tag)(k as int) {
            chosen(lines, selected, tag, k).push(lines[k as int].content)
        } else {
            chosen(lines, selected, tag, k)
        },
{
    reveal(Seq::filter);
    let p = chosen_at(lines, selected, tag);
    assert(positions(k + 1).drop_last() =~= positions(k));
    assert(positions(k + 1).last() == k as int);
    let f = positions(k).filter(p);
    if p(k as int) {
        assert(positions(k + 1).filter(p) == f.push(k as int));
        assert(f.push(k as int).map_values(|i: int| lines[i].content) =~= f.map_values(
            |i: int| lines[i].content,
        ).push(lines[k as int].content));
    } else {
        assert(positions(k + 1).filter(p) == f);
    }
}

proof fn lemma_selection_chosen(lines: Seq<HunkLineV>, selected: Seq<usize>, k: nat)
    requires
        k <= lines.len(),
    ensures
        added_lines(selection_ops(lines.take(k as int), selected)) == chosen(
            lines,
            selected,
            LineTag::Insert,
            k,
        ),
        removed_lines(selection_ops(lines.take(k as int), selected)) == chosen(
            lines,
            selected,
            LineTag::Delete,
            k,
        ),
    decreases k,
{
    reveal(Seq::filter);
    if k == 0 {
        assert(positions(0) =~= Seq::<int>::empty());
        assert(chosen(lines, selected, LineTag::Insert, 0) =~= Seq::<Seq<char>>::empty());
        assert(chosen(lines, selected, LineTag::Delete, 0) =~= Seq::<Seq<char>>::empty());
    } else {
        let j = (k - 1) as nat;
        lemma_selection_chosen(lines, selected, j);
        lemma_chosen_step(lines, selected, LineTag::Insert, j);
        lemma_chosen_step(lines, selected, LineTag::Delete, j);
        let t = lines.take(k as int);
        assert(t.drop_last() =~= lines.take(j as int));
        assert(t.last() == lines[j as int]);
        assert(t.len() - 1 == j);
        lemma_push_drop(selection_ops(t.drop_last(), selected), lines[j as int].content);
    }
}

/// Law: the staging patch of a selection adds exactly the selected
/// insertions and removes exactly the selected deletions, each in hunk
/// order; unselected insertions are not added and unselected deletions
/// are not removed, whatever their neighbours.
pub proof fn law_selection_stages_exactly_the_chosen_lines(lines: Seq<HunkLineV>, selected: Seq<usize>)
    ensures
        added_lines(selection_ops(lines, selected)) == chosen(
            lines,
            selected,
            LineTag::Insert,
            lines.len(),
        ),
        removed_lines(selection_ops(lines, selected)) == chosen(
            lines,
            selected,
            LineTag::Delete,
            lines.len(),
        ),
{
    lemma_selection_chosen(lines, selected, lines.len());
    assert(lines.take(lines.len() as int) =~= lines);
}

/// Law: the body of two runs of patch lines is the body of the first
/// followed by that of the second.
pub proof fn law_patch_body_concatenates(a: Seq<PatchLineV>, b: Seq<PatchLineV>)
    ensures
        patch_body(a + b) == patch_body(a) + patch_body(b),
    decreases b.len(),
{
    if b.len() == 0 {
        assert(a + b =~= a);
        assert(patch_body(a) + Seq::<char>::empty() =~= patch_body(a));
    } else {
        law_patch_body_concatenates(a, b.drop_last());
        assert((a + b).drop_last() =~= a + b.drop_last());
        assert((a + b).last() == b.last());
        assert(patch_body(a + b) =~= patch_body(a) + patch_body(b));
    }
}

/// Law: the old side of two runs of patch lines is the old side of the
/// first followed by that of the second.
pub proof fn law_old_side_concatenates(a: Seq<PatchLineV>, b: Seq<PatchLineV>)
    ensures
        old_side(a + b) == old_side(a) + old_side(b),
    decreases b.len(),
{
    if b.len() == 0 {
        assert(a + b =~= a);
        assert(old_side(a) + Seq::<Seq<char>>::empty() =~= old_side(a));
    } else {
        law_old_side_concatenates(a, b.drop_last());
        assert((a + b).drop_last() =~= a + b.drop_last());
        assert((a + b).last() == b.last());
        assert(old_side(a + b) =~= old_side(a) + old_side(b));
    }
}

/// Law: the new side of two runs of patch lines is the new side of the
/// first followed by that of the second.
pub proof fn law_new_side_concatenates(a: Seq<PatchLineV>, b: Seq<PatchLineV>)
    ensures
        new_side(a + b) == new_side(a) + new_side(b),
    decreases b.len(),
{
    if b.len() == 0 {
        assert(a + b =~= a);
        assert(new_side(a) + Seq::<Seq<char>>::empty() =~= new_side(a));
    } else {
        law_new_side_concatenates(a, b.drop_last());
        assert((a + b).drop_last() =~= a + b.drop_last());
        assert((a + b).last() == b.last());
        assert(new_side(a + b) =~= new_side(a) + new_side(b));
    }
}

} // verus!
