//! Compact output format inspired by TOON (Token-Oriented Object Notation).
//!
//! Nesting by indentation instead of braces; change lines as tabular rows
//! under a header that names the columns once; context lines left out;
//! no `file_path` on hunks, since the enclosing file already names it.

use vstd::prelude::*;

use crate::models::{
    files_view, hunks_view, lines_view, status_label, CheckoutResult, DiffOutput, FileChange,
    FileChangeV, Hunk, HunkLine, HunkLineV, HunkV, LineTag, StageResult, StatusSummary,
    strings_view, PROTOCOL_VERSION,
};
use crate::text::{decimal, escape_content, escape_seq, push_decimal};

verus! {

/// The numeral of an optional line number; empty when there is none.
pub open spec fn opt_number(n: Option<u32>) -> Seq<char> {
    match n {
        Some(v) => decimal(v as nat),
        None => Seq::empty(),
    }
}

/// The symbol of a tag in a row.
pub open spec fn tag_symbol(t: LineTag) -> char {
    match t {
        LineTag::Insert => '+',
        LineTag::Delete => '-',
        LineTag::Equal => ' ',
    }
}

/// The row of one change line: tag, escaped content, old and new line
/// numbers, separated by commas.
pub open spec fn row_text(l: HunkLineV) -> Seq<char> {
    "          "@ + seq![tag_symbol(l.tag)] + ","@ + escape_seq(l.content) + ","@ + opt_number(
        l.old_lineno,
    ) + ","@ + opt_number(l.new_lineno) + "\n"@
}

/// The rows of the change lines of `lines`; context lines have none.
pub open spec fn rows_text(lines: Seq<HunkLineV>) -> Seq<char>
    decreases lines.len(),
{
    if lines.len() == 0 {
        Seq::empty()
    } else if lines.last().tag == LineTag::Equal {
        rows_text(lines.drop_last())
    } else {
        rows_text(lines.drop_last()) + row_text(lines.last())
    }
}

/// How many of `lines` are change lines.
pub open spec fn change_count(lines: Seq<HunkLineV>) -> nat
    decreases lines.len(),
{
    if lines.len() == 0 {
        0
    } else if lines.last().tag == LineTag::Equal {
        change_count(lines.drop_last())
    } else {
        change_count(lines.drop_last()) + 1
    }
}

/// The lines block of a hunk: `lines[0]:` when it has no change line,
/// else the tabular header and one row per change line.
pub open spec fn lines_block(lines: Seq<HunkLineV>) -> Seq<char> {
    if change_count(lines) == 0 {
        "        lines[0]:\n"@
    } else {
        "        lines["@ + decimal(change_count(lines)) + "]{tag,content,old,new}:\n"@
            + rows_text(lines)
    }
}

/// The entry of one hunk.
pub open spec fn hunk_text(h: HunkV) -> Seq<char> {
    "      - id: "@ + h.id + "\n"@ + "        header: "@ + h.header + "\n"@
        + "        old_start: "@ + decimal(h.old_start as nat) + " old_lines: "@ + decimal(
        h.old_lines as nat,
    ) + " new_start: "@ + decimal(h.new_start as nat) + " new_lines: "@ + decimal(
        h.new_lines as nat,
    ) + "\n"@ + lines_block(h.lines)
}

/// The entries of a sequence of hunks.
pub open spec fn hunks_text(hs: Seq<HunkV>) -> Seq<char>
    decreases hs.len(),
{
    if hs.len() == 0 {
        Seq::empty()
    } else {
        hunks_text(hs.drop_last()) + hunk_text(hs.last())
    }
}

/// The entry of one file.
pub open spec fn file_text(f: FileChangeV) -> Seq<char> {
    "  - path: "@ + f.path + "\n"@ + "    status: "@ + status_label(f.status) + "\n"@
        + "    hunks["@ + decimal(f.hunks.len()) + "]:\n"@ + hunks_text(f.hunks)
}

/// The entries of a sequence of files.
pub open spec fn files_text(fs: Seq<FileChangeV>) -> Seq<char>
    decreases fs.len(),
{
    if fs.len() == 0 {
        Seq::empty()
    } else {
        files_text(fs.drop_last()) + file_text(fs.last())
    }
}

/// The lines that open every successful compact response.
pub open spec fn preamble() -> Seq<char> {
    "version: "@ + decimal(PROTOCOL_VERSION as nat) + "\n"@ + "ok: true\n"@
}

/// The compact rendering of a diff.
pub open spec fn diff_text(total_hunks: nat, files: Seq<FileChangeV>) -> Seq<char> {
    preamble() + "total_hunks: "@ + decimal(total_hunks) + "\n"@ + "files["@ + decimal(files.len())
        + "]:\n"@ + files_text(files)
}

/// The list items of a sequence of error messages.
pub open spec fn errors_items(es: Seq<Seq<char>>) -> Seq<char>
    decreases es.len(),
{
    if es.len() == 0 {
        Seq::empty()
    } else {
        errors_items(es.drop_last()) + "  - "@ + es.last() + "\n"@
    }
}

/// The error block: nothing when there is no error, else a counted list.
pub open spec fn errors_block(es: Seq<Seq<char>>) -> Seq<char> {
    if es.len() == 0 {
        Seq::empty()
    } else {
        "errors["@ + decimal(es.len()) + "]:\n"@ + errors_items(es)
    }
}

/// The compact rendering of a staging result.
pub open spec fn stage_result_text(staged: nat, failed: nat, errors: Seq<Seq<char>>) -> Seq<char> {
    preamble() + "staged: "@ + decimal(staged) + "\n"@ + "failed: "@ + decimal(failed) + "\n"@
        + errors_block(errors)
}

/// The compact rendering of a discard result.
pub open spec fn checkout_result_text(discarded: nat, failed: nat, errors: Seq<Seq<char>>) -> Seq<char> {
    preamble() + "discarded: "@ + decimal(discarded) + "\n"@ + "failed: "@ + decimal(failed)
        + "\n"@ + errors_block(errors)
}

/// The compact rendering of a status summary.
pub open spec fn status_text(s: StatusSummary) -> Seq<char> {
    preamble() + "staged_files: "@ + decimal(s.staged_files as nat) + "\n"@ + "staged_hunks: "@
        + decimal(s.staged_hunks as nat) + "\n"@ + "unstaged_files: "@ + decimal(
        s.unstaged_files as nat,
    ) + "\n"@ + "unstaged_hunks: "@ + decimal(s.unstaged_hunks as nat) + "\n"@
}

/// The change lines of `lines`, in order.
pub open spec fn change_lines(lines: Seq<HunkLineV>) -> Seq<HunkLineV> {
    lines.filter(|l: HunkLineV| l.tag != LineTag::Equal)
}

proof fn lemma_rows_of_change_lines(lines: Seq<HunkLineV>)
    ensures
        rows_text(change_lines(lines)) == rows_text(lines),
        change_count(change_lines(lines)) == change_count(lines),
        change_lines(lines).len() == change_count(lines),
    decreases lines.len(),
{
    reveal(Seq::filter);
    if lines.len() > 0 {
        lemma_rows_of_change_lines(lines.drop_last());
        let rest = change_lines(lines.drop_last());
        if lines.last().tag != LineTag::Equal {
            assert(change_lines(lines) == rest.push(lines.last()));
            assert(change_lines(lines).drop_last() =~= rest);
        } else {
            assert(change_lines(lines) == rest);
        }
    }
}

/// Law: context lines leave no trace in the compact format. A hunk renders
/// exactly as the same hunk reduced to its change lines, and its lines
/// block counts one row per change line.
pub proof fn law_context_lines_are_stripped(h: HunkV)
    ensures
        hunk_text(h) == hunk_text(HunkV { lines: change_lines(h.lines), ..h }),
        change_count(h.lines) == change_lines(h.lines).len(),
{
    lemma_rows_of_change_lines(h.lines);
}

/// Law: the hunk entries of two runs of hunks are those of the first
/// followed by those of the second.
pub proof fn law_hunks_text_concatenates(a: Seq<HunkV>, b: Seq<HunkV>)
    ensures
        hunks_text(a + b) == hunks_text(a) + hunks_text(b),
    decreases b.len(),
{
    if b.len() == 0 {
        assert(a + b =~= a);
        assert(hunks_text(a) + Seq::<char>::empty() =~= hunks_text(a));
    } else {
        law_hunks_text_concatenates(a, b.drop_last());
        assert((a + b).drop_last() =~= a + b.drop_last());
        assert((a + b).last() == b.last());
        assert(hunks_text(a + b) =~= hunks_text(a) + hunks_text(b));
    }
}

/// Law: one hunk renders as its own entry; with the law above, a file
/// lists one entry per hunk, in order.
pub proof fn law_hunks_text_of_one(x: HunkV)
    ensures
        hunks_text(seq![x]) == hunk_text(x),
{
    let one = seq![x];
    assert(one.drop_last() =~= Seq::<HunkV>::empty());
    assert(one.last() == x);
    assert(hunks_text(one.drop_last()) == Seq::<char>::empty());
    assert(Seq::<char>::empty() + hunk_text(x) =~= hunk_text(x));
}

/// Law: the file entries of two runs of files are those of the first
/// followed by those of the second.
pub proof fn law_files_text_concatenates(a: Seq<FileChangeV>, b: Seq<FileChangeV>)
    ensures
        files_text(a + b) == files_text(a) + files_text(b),
    decreases b.len(),
{
    if b.len() == 0 {
        assert(a + b =~= a);
        assert(files_text(a) + Seq::<char>::empty() =~= files_text(a));
    } else {
        law_files_text_concatenates(a, b.drop_last());
        assert((a + b).drop_last() =~= a + b.drop_last());
        assert((a + b).last() == b.last());
        assert(files_text(a + b) =~= files_text(a) + files_text(b));
    }
}

/// Law: one file renders as its own entry; with the law above, a diff
/// lists one entry per file, in order.
pub proof fn law_files_text_of_one(x: FileChangeV)
    ensures
        files_text(seq![x]) == file_text(x),
{
    let one = seq![x];
    assert(one.drop_last() =~= Seq::<FileChangeV>::empty());
    assert(one.last() == x);
    assert(files_text(one.drop_last()) == Seq::<char>::empty());
    assert(Seq::<char>::empty() + file_text(x) =~= file_text(x));
}

/// Law: the rows of two runs of lines are those of the first followed
/// by those of the second.
pub proof fn law_rows_text_concatenates(a: Seq<HunkLineV>, b: Seq<HunkLineV>)
    ensures
        rows_text(a + b) == rows_text(a) + rows_text(b),
    decreases b.len(),
{
    if b.len() == 0 {
        assert(a + b =~= a);
        assert(rows_text(a) + Seq::<char>::empty() =~= rows_text(a));
    } else {
        law_rows_text_concatenates(a, b.drop_last());
        assert((a + b).drop_last() =~= a + b.drop_last());
        assert((a + b).last() == b.last());
        assert(rows_text(a + b) =~= rows_text(a) + rows_text(b));
    }
}

/// Law: the error items of two runs of messages are those of the first
/// followed by those of the second.
pub proof fn law_errors_items_concatenates(a: Seq<Seq<char>>, b: Seq<Seq<char>>)
    ensures
        errors_items(a + b) == errors_items(a) + errors_items(b),
    decreases b.len(),
{
    if b.len() == 0 {
        assert(a + b =~= a);
        assert(errors_items(a) + Seq::<char>::empty() =~= errors_items(a));
    } else {
        law_errors_items_concatenates(a, b.drop_last());
        assert((a + b).drop_last() =~= a + b.drop_last());
        assert((a + b).last() == b.last());
        assert(errors_items(a + b) =~= errors_items(a) + errors_items(b));
    }
}

/// Law: one line gives its row when it is a change line and nothing when
/// it is context.
pub proof fn law_rows_text_of_one(l: HunkLineV)
    ensures
        rows_text(seq![l]) == if l.tag == LineTag::Equal {
            Seq::<char>::empty()
        } else {
            row_text(l)
        },
{
    let one = seq![l];
    assert(one.drop_last() =~= Seq::<HunkLineV>::empty());
    assert(one.last() == l);
    assert(rows_text(one.drop_last()) == Seq::<char>::empty());
    assert(Seq::<char>::empty() + row_text(l) =~= row_text(l));
}

/// Law: one message gives one list item.
pub proof fn law_errors_items_of_one(m: Seq<char>)
    ensures
        errors_items(seq![m]) == "  - "@ + m + "\n"@,
{
    let one = seq![m];
    assert(one.drop_last() =~= Seq::<Seq<char>>::empty());
    assert(one.last() == m);
    assert(errors_items(one.drop_last()) == Seq::<char>::empty());
    assert(Seq::<char>::empty() + "  - "@ + m + "\n"@ =~= "  - "@ + m + "\n"@);
}

fn push_preamble(buf: &mut String)
    ensures
        final(buf)@ == old(buf)@ + preamble(),
{
    buf.append("version: ");
    push_decimal(buf, PROTOCOL_VERSION as u64);
    buf.append("\n");
    buf.append("ok: true\n");
}

fn push_opt_number(buf: &mut String, n: Option<u32>)
    ensures
        final(buf)@ == old(buf)@ + opt_number(n),
{
    if let Some(v) = n {
        push_decimal(buf, v as u64);
    } else {
        proof {
            assert(buf@ + Seq::<char>::empty() =~= buf@);
        }
    }
}

fn push_row(buf: &mut String, l: &HunkLine)
    ensures
        final(buf)@ == old(buf)@ + row_text(l@),
{
    let ghost start = buf@;
    buf.append("          ");
    match l.tag {
        LineTag::Insert => buf.push('+'),
        LineTag::Delete => buf.push('-'),
        LineTag::Equal => buf.push(' '),
    }
    buf.append(",");
    let escaped = escape_content(l.content.as_str());
    buf.append(escaped.as_str());
    buf.append(",");
    push_opt_number(buf, l.old_lineno);
    buf.append(",");
    push_opt_number(buf, l.new_lineno);
    buf.append("\n");
    proof {
        assert(buf@ =~= start + row_text(l@));
    }
}

fn push_lines_block(buf: &mut String, lines: &Vec<HunkLine>)
    ensures
        final(buf)@ == old(buf)@ + lines_block(lines_view(lines@)),
{
    let ghost lv = lines_view(lines@);
    let ghost start = buf@;
    let n = lines.len();
    let mut count: usize = 0;
    let mut i: usize = 0;
    while i < n
        invariant
            i <= n == lines@.len(),
            lv == lines_view(lines@),
            count as nat == change_count(lv.take(i as int)),
            count <= i,
        decreases n - i,
    {
        proof {
            assert(lv.take(i + 1).drop_last() =~= lv.take(i as int));
            assert(lv.take(i + 1).last() == lines@[i as int]@);
        }
        if lines[i].tag != LineTag::Equal {
            count = count + 1;
        }
        i = i + 1;
    }
    proof {
        assert(lv.take(n as int) =~= lv);
    }
    if count == 0 {
        buf.append("        lines[0]:\n");
        return;
    }
    buf.append("        lines[");
    push_decimal(buf, count as u64);
    buf.append("]{tag,content,old,new}:\n");
    let ghost head = buf@;
    let mut i: usize = 0;
    while i < n
        invariant
            i <= n == lines@.len(),
            lv == lines_view(lines@),
            buf@ == head + rows_text(lv.take(i as int)),
        decreases n - i,
    {
        proof {
            assert(lv.take(i + 1).drop_last() =~= lv.take(i as int));
            assert(lv.take(i + 1).last() == lines@[i as int]@);
        }
        if lines[i].tag != LineTag::Equal {
            push_row(buf, &lines[i]);
        }
        i = i + 1;
    }
    proof {
        assert(lv.take(n as int) =~= lv);
        assert(buf@ =~= start + lines_block(lv));
    }
}

fn push_hunk(buf: &mut String, h: &Hunk)
    ensures
        final(buf)@ == old(buf)@ + hunk_text(h@),
{
    let ghost start = buf@;
    buf.append("      - id: ");
    buf.append(h.id.as_str());
    buf.append("\n");
    buf.append("        header: ");
    buf.append(h.header.as_str());
    buf.append("\n");
    buf.append("        old_start: ");
    push_decimal(buf, h.old_start as u64);
    buf.append(" old_lines: ");
    push_decimal(buf, h.old_lines as u64);
    buf.append(" new_start: ");
    push_decimal(buf, h.new_start as u64);
    buf.append(" new_lines: ");
    push_decimal(buf, h.new_lines as u64);
    buf.append("\n");
    let ghost mid = buf@;
    push_lines_block(buf, &h.lines);
    proof {
        assert(buf@ =~= start + hunk_text(h@));
    }
}

fn push_file(buf: &mut String, f: &FileChange)
    ensures
        final(buf)@ == old(buf)@ + file_text(f@),
{
    let ghost start = buf@;
    let ghost hv = hunks_view(f.hunks@);
    buf.append("  - path: ");
    buf.append(f.path.as_str());
    buf.append("\n");
    buf.append("    status: ");
    buf.append(f.status.label());
    buf.append("\n");
    buf.append("    hunks[");
    push_decimal(buf, f.hunks.len() as u64);
    buf.append("]:\n");
    let ghost head = buf@;
    let n = f.hunks.len();
    let mut i: usize = 0;
    while i < n
        invariant
            i <= n == f.hunks@.len(),
            hv == hunks_view(f.hunks@),
            buf@ == head + hunks_text(hv.take(i as int)),
        decreases n - i,
    {
        proof {
            assert(hv.take(i + 1).drop_last() =~= hv.take(i as int));
            assert(hv.take(i + 1).last() == f.hunks@[i as int]@);
        }
        push_hunk(buf, &f.hunks[i]);
        i = i + 1;
    }
    proof {
        assert(hv.take(n as int) =~= hv);
        assert(buf@ =~= start + file_text(f@));
    }
}

/// Formats a diff in the compact format.
pub fn format_diff(output: &DiffOutput) -> (text: String)
    ensures
        text@ == diff_text(output.total_hunks as nat, output@.files),
{
    let ghost fv = files_view(output.files@);
    let mut buf = String::new();
    push_preamble(&mut buf);
    buf.append("total_hunks: ");
    push_decimal(&mut buf, output.total_hunks as u64);
    buf.append("\n");
    buf.append("files[");
    push_decimal(&mut buf, output.files.len() as u64);
    buf.append("]:\n");
    let ghost head = buf@;
    let n = output.files.len();
    let mut i: usize = 0;
    while i < n
        invariant
            i <= n == output.files@.len(),
            fv == files_view(output.files@),
            buf@ == head + files_text(fv.take(i as int)),
        decreases n - i,
    {
        proof {
            assert(fv.take(i + 1).drop_last() =~= fv.take(i as int));
            assert(fv.take(i + 1).last() == output.files@[i as int]@);
        }
        push_file(&mut buf, &output.files[i]);
        i = i + 1;
    }
    proof {
        assert(fv.take(n as int) =~= fv);
        assert(buf@ =~= diff_text(output.total_hunks as nat, output@.files));
    }
    buf
}

fn push_errors(buf: &mut String, errors: &Vec<String>)
    ensures
        final(buf)@ == old(buf)@ + errors_block(strings_view(errors@)),
{
    let ghost ev = strings_view(errors@);
    let ghost start = buf@;
    if errors.len() == 0 {
        proof {
            assert(buf@ + Seq::<char>::empty() =~= buf@);
        }
        return;
    }
    buf.append("errors[");
    push_decimal(buf, errors.len() as u64);
    buf.append("]:\n");
    let ghost head = buf@;
    let n = errors.len();
    let mut i: usize = 0;
    while i < n
        invariant
            i <= n == errors@.len(),
            ev == strings_view(errors@),
            buf@ == head + errors_items(ev.take(i as int)),
        decreases n - i,
    {
        proof {
            assert(ev.take(i + 1).drop_last() =~= ev.take(i as int));
            assert(ev.take(i + 1).last() == errors@[i as int]@);
        }
        buf.append("  - ");
        buf.append(errors[i].as_str());
        buf.append("\n");
        i = i + 1;
    }
    proof {
        assert(ev.take(n as int) =~= ev);
        assert(buf@ =~= start + errors_block(ev));
    }
}

/// Formats a staging result in the compact format.
pub fn format_stage_result(result: &StageResult) -> (text: String)
    ensures
        text@ == stage_result_text(
            result.staged as nat,
            result.failed as nat,
            strings_view(result.errors@),
        ),
{
    let mut buf = String::new();
    push_preamble(&mut buf);
    buf.append("staged: ");
    push_decimal(&mut buf, result.staged as u64);
    buf.append("\n");
    buf.append("failed: ");
    push_decimal(&mut buf, result.failed as u64);
    buf.append("\n");
    push_errors(&mut buf, &result.errors);
    proof {
        assert(buf@ =~= stage_result_text(
            result.staged as nat,
            result.failed as nat,
            strings_view(result.errors@),
        ));
    }
    buf
}

/// Formats a discard result in the compact format.
pub fn format_checkout_result(result: &CheckoutResult) -> (text: String)
    ensures
        text@ == checkout_result_text(
            result.discarded as nat,
            result.failed as nat,
            strings_view(result.errors@),
        ),
{
    let mut buf = String::new();
    push_preamble(&mut buf);
    buf.append("discarded: ");
    push_decimal(&mut buf, result.discarded as u64);
    buf.append("\n");
    buf.append("failed: ");
    push_decimal(&mut buf, result.failed as u64);
    buf.append("\n");
    push_errors(&mut buf, &result.errors);
    proof {
        assert(buf@ =~= checkout_result_text(
            result.discarded as nat,
            result.failed as nat,
            strings_view(result.errors@),
        ));
    }
    buf
}

/// Formats a status summary in the compact format.
pub fn format_status(status: &StatusSummary) -> (text: String)
    ensures
        text@ == status_text(*status),
{
    let mut buf = String::new();
    push_preamble(&mut buf);
    buf.append("staged_files: ");
    push_decimal(&mut buf, status.staged_files as u64);
    buf.append("\n");
    buf.append("staged_hunks: ");
    push_decimal(&mut buf, status.staged_hunks as u64);
    buf.append("\n");
    buf.append("unstaged_files: ");
    push_decimal(&mut buf, status.unstaged_files as u64);
    buf.append("\n");
    buf.append("unstaged_hunks: ");
    push_decimal(&mut buf, status.unstaged_hunks as u64);
    buf.append("\n");
    proof {
        assert(buf@ =~= status_text(*status));
    }
    buf
}

} // verus!
