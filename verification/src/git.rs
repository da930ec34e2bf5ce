//! What the library hands to git: the settings of the diffs it asks for,
//! and the parsing of the patches it builds.

use vstd::prelude::*;
use git2::Diff;

use crate::diff::{records_view, HunkRecord};
use crate::models::LineSelection;
use crate::stage::{line_selection_outcome, line_selection_patch, parse_failure_message, patch_parse_failure};

verus! {

/// A parsed patch, ready to be applied.
#[verifier::external_type_specification]
#[verifier::external_body]
pub struct ExDiff<'a>(Diff<'a>);

/// An error reported by git.
#[verifier::external_type_specification]
#[verifier::external_body]
pub struct ExGitError(git2::Error);

/// Default context lines for all diffs.
pub const CONTEXT_LINES: u32 = 3;

/// The settings of a diff: how many context lines surround a change, and
/// whether untracked files take part with their content.
#[derive(Clone, Copy, Debug, PartialEq, Eq, Structural)]
pub struct DiffSettings {
    pub context_lines: u32,
    pub include_untracked: bool,
    pub show_untracked_content: bool,
}

/// Settings that include untracked files with their content: for the
/// diff, status and hunk scans.
pub fn diff_opts_with_untracked() -> (s: DiffSettings)
    ensures
        s.context_lines == CONTEXT_LINES,
        s.include_untracked,
        s.show_untracked_content,
{
    DiffSettings { context_lines: CONTEXT_LINES, include_untracked: true, show_untracked_content: true }
}

/// Settings for tracked files only: for applying hunks to the index.
pub fn diff_opts_tracked_only() -> (s: DiffSettings)
    ensures
        s.context_lines == CONTEXT_LINES,
        !s.include_untracked,
        !s.show_untracked_content,
{
    DiffSettings { context_lines: CONTEXT_LINES, include_untracked: false, show_untracked_content: false }
}

/// Whether git's patch parser accepts a patch text. Parsing a buffer
/// touches no repository, so the verdict depends on the text alone.
pub uninterp spec fn patch_accepted(patch: Seq<char>) -> bool;

/// `git2::Diff::from_buffer` on the patch's UTF-8 bytes. The claim is only
/// that the verdict is the one [`patch_accepted`] names; which texts git
/// accepts is not stated, nor anything of the error.
#[verifier::external_body]
fn diff_from_buffer(patch: &str) -> (r: Result<Diff<'static>, git2::Error>)
    ensures
        r is Ok <==> patch_accepted(patch@),
{
    Diff::from_buffer(patch.as_bytes())
}

/// The text that `git2::Error`'s `Display` writes. Nothing is stated of
/// it: for some refusals git leaves no message of its own and the text is
/// whatever error the thread last recorded.
#[verifier::external_body]
fn git_error_message(e: &git2::Error) -> (m: String) {
    e.to_string()
}

/// Parses a patch; when git refuses it, the error is the text of git's
/// error.
pub fn parse_patch(patch: &String) -> (r: Result<Diff<'static>, String>)
    ensures
        r is Ok <==> patch_accepted(patch@),
{
    match diff_from_buffer(patch.as_str()) {
        Ok(d) => Ok(d),
        Err(e) => Err(git_error_message(&e)),
    }
}

/// Parses the patch built for a line selection of hunk `hunk_id`; when
/// git refuses it, the message names the hunk, then gives git's error
/// text.
pub fn parse_selection_patch(hunk_id: &String, patch: &String) -> (r: Result<Diff<'static>, String>)
    ensures
        r is Ok <==> patch_accepted(patch@),
        r matches Err(m) ==> exists|detail: Seq<char>| m@ == #[trigger] parse_failure_message(
            hunk_id@,
            detail,
        ),
{
    match parse_patch(patch) {
        Ok(d) => Ok(d),
        Err(detail) => {
            let m = patch_parse_failure(hunk_id, detail.as_str());
            assert(m@ == parse_failure_message(hunk_id@, detail@));
            Err(m)
        },
    }
}

/// Prepares a line selection against the hunks of the current diff: the
/// parsed patch that stages it, or the message why it cannot be staged.
/// An unknown hunk or a selection without change lines gets its message;
/// a patch that git refuses to parse gets the parse failure message.
pub fn prepare_line_selection(sel: &LineSelection, current: &Vec<HunkRecord>) -> (r: Result<Diff<'static>, String>)
    requires
        forall|k: int| 0 <= k < current@.len() ==> #[trigger] current@[k].lines@.len() <= u32::MAX,
    ensures
        match line_selection_outcome(records_view(current@), sel.hunk_id@, sel.line_indices@) {
            Err(m) => r matches Err(e) && e@ == m,
            Ok(p) => (r is Ok <==> patch_accepted(p)) && (r matches Err(e) ==> exists|
                detail: Seq<char>,
            | e@ == #[trigger] parse_failure_message(sel.hunk_id@, detail)),
        },
{
    match line_selection_patch(sel, current) {
        Err(m) => Err(m),
        Ok(patch) => parse_selection_patch(&sel.hunk_id, &patch),
    }
}

} // verus!
