//! The data exchanged with agents: diffs, hunks, lines, staging and
//! discarding requests and their results, the response envelope and the
//! protocol requests. Each type with text in it has a view over `Seq<char>`.

use vstd::prelude::*;

verus! {

/// Version stamped on every response envelope.
pub const PROTOCOL_VERSION: u8 = 1;

/// Role of one line inside a hunk.
#[derive(Clone, Copy, Debug, PartialEq, Eq, Structural)]
pub enum LineTag {
    Equal,
    Insert,
    Delete,
}

/// The tag that a diff line origin character stands for: `+` and `>` mark
/// an insertion, `-` and `<` a deletion, anything else context.
pub open spec fn tag_of_origin(origin: char) -> LineTag {
    if origin == '+' || origin == '>' {
        LineTag::Insert
    } else if origin == '-' || origin == '<' {
        LineTag::Delete
    } else {
        LineTag::Equal
    }
}

impl LineTag {
    /// Classifies a diff line by its origin character.
    pub fn from_origin(origin: char) -> (tag: LineTag)
        ensures
            tag == tag_of_origin(origin),
    {
        if origin == '+' || origin == '>' {
            LineTag::Insert
        } else if origin == '-' || origin == '<' {
            LineTag::Delete
        } else {
            LineTag::Equal
        }
    }
}

/// A single line within a hunk.
#[derive(Debug, Clone, PartialEq)]
pub struct HunkLine {
    pub tag: LineTag,
    pub content: String,
    pub old_lineno: Option<u32>,
    pub new_lineno: Option<u32>,
}

/// The mathematical value of a [`HunkLine`].
pub struct HunkLineV {
    pub tag: LineTag,
    pub content: Seq<char>,
    pub old_lineno: Option<u32>,
    pub new_lineno: Option<u32>,
}

impl View for HunkLine {
    type V = HunkLineV;

    open spec fn view(&self) -> HunkLineV {
        HunkLineV {
            tag: self.tag,
            content: self.content@,
            old_lineno: self.old_lineno,
            new_lineno: self.new_lineno,
        }
    }
}

/// The views of a sequence of lines.
pub open spec fn lines_view(lines: Seq<HunkLine>) -> Seq<HunkLineV> {
    lines.map_values(|l: HunkLine| l@)
}

/// A diff hunk with a stable ID for agents to refer to.
#[derive(Debug, Clone, PartialEq)]
pub struct Hunk {
    pub id: String,
    pub file_path: String,
    pub old_start: u32,
    pub old_lines: u32,
    pub new_start: u32,
    pub new_lines: u32,
    pub header: String,
    pub lines: Vec<HunkLine>,
}

/// The mathematical value of a [`Hunk`].
pub struct HunkV {
    pub id: Seq<char>,
    pub file_path: Seq<char>,
    pub old_start: u32,
    pub old_lines: u32,
    pub new_start: u32,
    pub new_lines: u32,
    pub header: Seq<char>,
    pub lines: Seq<HunkLineV>,
}

impl View for Hunk {
    type V = HunkV;

    open spec fn view(&self) -> HunkV {
        HunkV {
            id: self.id@,
            file_path: self.file_path@,
            old_start: self.old_start,
            old_lines: self.old_lines,
            new_start: self.new_start,
            new_lines: self.new_lines,
            header: self.header@,
            lines: lines_view(self.lines@),
        }
    }
}

/// The views of a sequence of hunks.
pub open spec fn hunks_view(hunks: Seq<Hunk>) -> Seq<HunkV> {
    hunks.map_values(|h: Hunk| h@)
}

/// How a file changed.
#[derive(Clone, Copy, Debug, PartialEq, Eq, Structural)]
pub enum FileStatus {
    Modified,
    Added,
    Deleted,
    Renamed,
}

/// The name under which a status is shown in the compact format.
pub open spec fn status_label(s: FileStatus) -> Seq<char> {
    match s {
        FileStatus::Modified => "Modified"@,
        FileStatus::Added => "Added"@,
        FileStatus::Deleted => "Deleted"@,
        FileStatus::Renamed => "Renamed"@,
    }
}

impl FileStatus {
    /// The name under which this status is shown in the compact format.
    pub fn label(&self) -> (r: &'static str)
        ensures
            r@ == status_label(*self),
    {
        match self {
            FileStatus::Modified => "Modified",
            FileStatus::Added => "Added",
            FileStatus::Deleted => "Deleted",
            FileStatus::Renamed => "Renamed",
        }
    }
}

/// File-level change with its hunks.
#[derive(Debug, Clone, PartialEq)]
pub struct FileChange {
    pub path: String,
    pub status: FileStatus,
    pub hunks: Vec<Hunk>,
}

/// The mathematical value of a [`FileChange`].
pub struct FileChangeV {
    pub path: Seq<char>,
    pub status: FileStatus,
    pub hunks: Seq<HunkV>,
}

impl View for FileChange {
    type V = FileChangeV;

    open spec fn view(&self) -> FileChangeV {
        FileChangeV { path: self.path@, status: self.status, hunks: hunks_view(self.hunks@) }
    }
}

/// The views of a sequence of file changes.
pub open spec fn files_view(files: Seq<FileChange>) -> Seq<FileChangeV> {
    files.map_values(|f: FileChange| f@)
}

/// Output of a diff: the changed files and how many hunks they hold.
#[derive(Debug, PartialEq)]
pub struct DiffOutput {
    pub files: Vec<FileChange>,
    pub total_hunks: usize,
}

/// The mathematical value of a [`DiffOutput`].
pub struct DiffOutputV {
    pub files: Seq<FileChangeV>,
    pub total_hunks: nat,
}

impl View for DiffOutput {
    type V = DiffOutputV;

    open spec fn view(&self) -> DiffOutputV {
        DiffOutputV { files: files_view(self.files@), total_hunks: self.total_hunks as nat }
    }
}

/// The views of a sequence of strings.
pub open spec fn strings_view(v: Seq<String>) -> Seq<Seq<char>> {
    v.map_values(|s: String| s@)
}

/// Input for staging: whole hunks by ID, or chosen lines within hunks.
#[derive(Debug, PartialEq)]
pub struct StageRequest {
    /// Stage entire hunks by ID.
    pub hunk_ids: Vec<String>,
    /// Stage individual lines within hunks.
    pub line_selections: Vec<LineSelection>,
}

/// Select specific lines within a hunk to stage.
#[derive(Debug, PartialEq)]
pub struct LineSelection {
    pub hunk_id: String,
    /// Line indices (0-based within the hunk's lines array) to include.
    pub line_indices: Vec<usize>,
}

/// Result of a staging operation.
#[derive(Debug, PartialEq)]
pub struct StageResult {
    pub staged: usize,
    pub failed: usize,
    pub errors: Vec<String>,
}

/// The mathematical value of a [`StageResult`].
pub struct StageResultV {
    pub staged: nat,
    pub failed: nat,
    pub errors: Seq<Seq<char>>,
}

impl View for StageResult {
    type V = StageResultV;

    open spec fn view(&self) -> StageResultV {
        StageResultV {
            staged: self.staged as nat,
            failed: self.failed as nat,
            errors: strings_view(self.errors@),
        }
    }
}

/// Input for discarding hunks.
#[derive(Debug, PartialEq)]
pub struct CheckoutRequest {
    pub hunk_ids: Vec<String>,
}

/// Result of a discard operation.
#[derive(Debug, PartialEq)]
pub struct CheckoutResult {
    pub discarded: usize,
    pub failed: usize,
    pub errors: Vec<String>,
}

/// The mathematical value of a [`CheckoutResult`].
pub struct CheckoutResultV {
    pub discarded: nat,
    pub failed: nat,
    pub errors: Seq<Seq<char>>,
}

impl View for CheckoutResult {
    type V = CheckoutResultV;

    open spec fn view(&self) -> CheckoutResultV {
        CheckoutResultV {
            discarded: self.discarded as nat,
            failed: self.failed as nat,
            errors: strings_view(self.errors@),
        }
    }
}

/// Generic response envelope.
#[derive(Debug, PartialEq)]
pub struct Response<T> {
    pub version: u8,
    pub ok: bool,
    pub data: Option<T>,
    pub error: Option<String>,
}

impl<T> Response<T> {
    /// A successful response carrying `data`.
    pub fn success(data: T) -> (r: Self)
        ensures
            r.version == PROTOCOL_VERSION,
            r.ok,
            r.data == Some(data),
            r.error is None,
    {
        Response { version: PROTOCOL_VERSION, ok: true, data: Some(data), error: None }
    }
}

impl Response<()> {
    /// A failed response carrying the message `msg`.
    pub fn error(msg: String) -> (r: Self)
        ensures
            r.version == PROTOCOL_VERSION,
            !r.ok,
            r.data is None,
            r.error == Some(msg),
    {
        Response { version: PROTOCOL_VERSION, ok: false, data: None, error: Some(msg) }
    }
}

/// A protocol request, one per input line.
#[derive(Debug, PartialEq)]
pub enum ProtocolRequest {
    Diff { params: DiffParams },
    Stage { params: StageRequest },
    Checkout { params: CheckoutParams },
    Status,
}

/// Parameters of a diff request.
#[derive(Debug, Default, PartialEq)]
pub struct DiffParams {
    pub file: Option<String>,
    pub staged: bool,
}

/// Parameters of a discard request.
#[derive(Debug, PartialEq)]
pub struct CheckoutParams {
    pub hunk_ids: Vec<String>,
    pub staged: bool,
}

/// Staging status summary.
#[derive(Debug, PartialEq)]
pub struct StatusSummary {
    pub staged_files: usize,
    pub unstaged_files: usize,
    pub staged_hunks: usize,
    pub unstaged_hunks: usize,
}

} // verus!
