//! Diff structure: the events a diff walk reports (file deltas, hunk
//! headers, lines), hunk identity, and the grouping of events into files,
//! hunks and lines.

use vstd::prelude::*;
use vstd::string::StringSliceAdditionalSpecFns;
use vstd::utf8::encode_utf8;
use vstd::bytes::spec_u32_to_le_bytes;
use vstd::std_specs::hash::DefaultHasherAdditionalSpecFns;
use std::collections::hash_map::DefaultHasher;
use std::hash::Hasher;

use crate::models::{
    lines_view, hunks_view, files_view, tag_of_origin, DiffOutput, FileChange, FileChangeV, FileStatus,
    Hunk, HunkLine, HunkLineV, HunkV, LineTag,
};
use crate::text::{
    hex_digits, is_lower_hex, law_trim_idempotent, lemma_hex_digits_shape, push_hex_digits, trim,
    trimmed,
};

verus! {

/// The kind of change a diff delta records, one variant per kind a git
/// diff reports.
#[derive(Clone, Copy, Debug, PartialEq, Eq, Structural)]
pub enum DeltaKind {
    Unmodified,
    Added,
    Deleted,
    Modified,
    Renamed,
    Copied,
    Ignored,
    Untracked,
    Typechange,
    Unreadable,
    Conflicted,
}

/// The file status shown for a delta kind: added and untracked files are
/// `Added`, deletions `Deleted`, renames `Renamed`, everything else
/// `Modified`.
pub open spec fn status_of_kind(k: DeltaKind) -> FileStatus {
    match k {
        DeltaKind::Added | DeltaKind::Untracked => FileStatus::Added,
        DeltaKind::Deleted => FileStatus::Deleted,
        DeltaKind::Renamed => FileStatus::Renamed,
        _ => FileStatus::Modified,
    }
}

/// Maps a delta kind to the file status shown for it.
pub fn delta_to_status(k: DeltaKind) -> (s: FileStatus)
    ensures
        s == status_of_kind(k),
{
    match k {
        DeltaKind::Added | DeltaKind::Untracked => FileStatus::Added,
        DeltaKind::Deleted => FileStatus::Deleted,
        DeltaKind::Renamed => FileStatus::Renamed,
        _ => FileStatus::Modified,
    }
}

/// A file delta as a diff walk reports it: its kind, the paths on both
/// sides (lossily decoded) and whether either side is binary.
#[derive(Debug, Clone)]
pub struct FileDelta {
    pub kind: DeltaKind,
    pub new_path: Option<String>,
    pub old_path: Option<String>,
    pub new_binary: bool,
    pub old_binary: bool,
}

/// The mathematical value of a [`FileDelta`].
pub struct FileDeltaV {
    pub kind: DeltaKind,
    pub new_path: Option<Seq<char>>,
    pub old_path: Option<Seq<char>>,
    pub new_binary: bool,
    pub old_binary: bool,
}

pub open spec fn opt_string_view(o: Option<String>) -> Option<Seq<char>> {
    match o {
        Some(s) => Some(s@),
        None => None,
    }
}

impl View for FileDelta {
    type V = FileDeltaV;

    open spec fn view(&self) -> FileDeltaV {
        FileDeltaV {
            kind: self.kind,
            new_path: opt_string_view(self.new_path),
            old_path: opt_string_view(self.old_path),
            new_binary: self.new_binary,
            old_binary: self.old_binary,
        }
    }
}

/// The path of a delta: the new side's path, else the old side's, else
/// empty.
pub open spec fn path_of_delta(d: FileDeltaV) -> Seq<char> {
    match d.new_path {
        Some(p) => p,
        None => match d.old_path {
            Some(p) => p,
            None => Seq::empty(),
        },
    }
}

/// Whether either side of a delta is binary.
pub open spec fn delta_is_binary(d: FileDeltaV) -> bool {
    d.new_binary || d.old_binary
}

/// The path of a delta, preferring the new side.
pub fn delta_path(delta: &FileDelta) -> (p: String)
    ensures
        p@ == path_of_delta(delta@),
{
    match &delta.new_path {
        Some(p) => p.clone(),
        None => match &delta.old_path {
            Some(p) => p.clone(),
            None => String::new(),
        },
    }
}

/// Whether a delta concerns a binary file.
pub fn is_binary_delta(delta: &FileDelta) -> (b: bool)
    ensures
        b == delta_is_binary(delta@),
{
    delta.new_binary || delta.old_binary
}

/// A hunk header as a diff walk reports it; `header` is the raw header
/// line, lossily decoded.
#[derive(Debug, Clone)]
pub struct HunkHeader {
    pub old_start: u32,
    pub old_lines: u32,
    pub new_start: u32,
    pub new_lines: u32,
    pub header: String,
}

/// The mathematical value of a [`HunkHeader`].
pub struct HunkHeaderV {
    pub old_start: u32,
    pub old_lines: u32,
    pub new_start: u32,
    pub new_lines: u32,
    pub header: Seq<char>,
}

impl View for HunkHeader {
    type V = HunkHeaderV;

    open spec fn view(&self) -> HunkHeaderV {
        HunkHeaderV {
            old_start: self.old_start,
            old_lines: self.old_lines,
            new_start: self.new_start,
            new_lines: self.new_lines,
            header: self.header@,
        }
    }
}

/// A diff line as a diff walk reports it; `content` is lossily decoded.
#[derive(Debug, Clone)]
pub struct LineRecord {
    pub origin: char,
    pub content: String,
    pub old_lineno: Option<u32>,
    pub new_lineno: Option<u32>,
}

/// The mathematical value of a [`LineRecord`].
pub struct LineRecordV {
    pub origin: char,
    pub content: Seq<char>,
    pub old_lineno: Option<u32>,
    pub new_lineno: Option<u32>,
}

impl View for LineRecord {
    type V = LineRecordV;

    open spec fn view(&self) -> LineRecordV {
        LineRecordV {
            origin: self.origin,
            content: self.content@,
            old_lineno: self.old_lineno,
            new_lineno: self.new_lineno,
        }
    }
}

/// One step of a diff walk, in the order the walk reports them: a file
/// delta, then its hunks, each followed by its lines.
#[derive(Debug, Clone)]
pub enum DiffEvent {
    File(FileDelta),
    Hunk(HunkHeader),
    Line(LineRecord),
}

/// The mathematical value of a [`DiffEvent`].
pub enum DiffEventV {
    File(FileDeltaV),
    Hunk(HunkHeaderV),
    Line(LineRecordV),
}

impl View for DiffEvent {
    type V = DiffEventV;

    open spec fn view(&self) -> DiffEventV {
        match self {
            DiffEvent::File(d) => DiffEventV::File(d@),
            DiffEvent::Hunk(h) => DiffEventV::Hunk(h@),
            DiffEvent::Line(l) => DiffEventV::Line(l@),
        }
    }
}

/// The views of a sequence of events.
pub open spec fn events_view(ev: Seq<DiffEvent>) -> Seq<DiffEventV> {
    ev.map_values(|e: DiffEvent| e@)
}

/// The header shown for a hunk: the raw header without surrounding white
/// space.
pub fn hunk_header(raw: &str) -> (h: String)
    ensures
        h@ == trimmed(raw@),
{
    trim(raw)
}

/// The byte chunks fed to the hasher for a hunk's identity: the path's
/// UTF-8 bytes and a `0xff` terminator, the old start line as four
/// little-endian bytes, then the header's UTF-8 bytes and a `0xff`
/// terminator.
pub open spec fn hunk_key_chunks(file_path: Seq<char>, old_start: u32, header: Seq<char>) -> Seq<
    Seq<u8>,
> {
    seq![
        encode_utf8(file_path),
        seq![0xffu8],
        spec_u32_to_le_bytes(old_start),
        encode_utf8(header),
        seq![0xffu8],
    ]
}

/// The ID of a hunk: the `DefaultHasher` digest of its key chunks, as
/// sixteen lowercase hexadecimal digits.
pub open spec fn hunk_id_of(file_path: Seq<char>, old_start: u32, header: Seq<char>) -> Seq<char> {
    hex_digits(
        DefaultHasher::spec_finish(hunk_key_chunks(file_path, old_start, header)) as nat,
        16,
    )
}

/// Generates a hunk ID from file path, old start line and header.
///
/// The digest comes from `DefaultHasher`, which is the same for every
/// hasher made by `new` within one build but not across Rust versions:
/// IDs are valid within one diff-then-stage cycle of the same binary.
pub fn hunk_id(file_path: &str, old_start: u32, header: &str) -> (id: String)
    ensures
        id@ == hunk_id_of(file_path@, old_start, header@),
{
    let mut hasher = DefaultHasher::new();
    let ff: Vec<u8> = vec![0xffu8];
    let path_bytes = file_path.as_bytes();
    let header_bytes = header.as_bytes();
    hasher.write(path_bytes);
    hasher.write(ff.as_slice());
    let start_bytes = vstd::bytes::u32_to_le_bytes(old_start);
    hasher.write(start_bytes.as_slice());
    hasher.write(header_bytes);
    hasher.write(ff.as_slice());
    let digest = hasher.finish();
    proof {
        assert(ff@ =~= seq![0xffu8]);
        assert(start_bytes@ == spec_u32_to_le_bytes(old_start));
        assert(path_bytes@ == encode_utf8(file_path@));
        assert(header_bytes@ == encode_utf8(header@));
        assert(hasher@ =~= hunk_key_chunks(file_path@, old_start, header@));
    }
    let mut id = String::new();
    push_hex_digits(&mut id, digest, 16);
    proof {
        assert(id@ =~= hunk_id_of(file_path@, old_start, header@));
    }
    id
}


/// Whether an event is a file delta.
pub fn is_file_event(e: &DiffEvent) -> (b: bool)
    ensures
        b == (e@ is File),
{
    match e {
        DiffEvent::File(_) => true,
        _ => false,
    }
}

/// Whether an event is a line.
pub fn is_line_event(e: &DiffEvent) -> (b: bool)
    ensures
        b == (e@ is Line),
{
    match e {
        DiffEvent::Line(_) => true,
        _ => false,
    }
}

/// The hunk line a line event stands for.
pub open spec fn line_of_record(r: LineRecordV) -> HunkLineV {
    HunkLineV {
        tag: tag_of_origin(r.origin),
        content: r.content,
        old_lineno: r.old_lineno,
        new_lineno: r.new_lineno,
    }
}

/// The lines reported directly at the front of `ev`, up to the first event
/// that is not a line.
pub open spec fn leading_lines(ev: Seq<DiffEventV>) -> Seq<HunkLineV>
    decreases ev.len(),
{
    if ev.len() == 0 {
        Seq::empty()
    } else {
        match ev[0] {
            DiffEventV::Line(r) => seq![line_of_record(r)] + leading_lines(ev.drop_first()),
            _ => Seq::empty(),
        }
    }
}

/// The hunk a header stands for inside the file at `path`, with `lines`.
pub open spec fn hunk_of(h: HunkHeaderV, path: Seq<char>, lines: Seq<HunkLineV>) -> HunkV {
    HunkV {
        id: hunk_id_of(path, h.old_start, trimmed(h.header)),
        file_path: path,
        old_start: h.old_start,
        old_lines: h.old_lines,
        new_start: h.new_start,
        new_lines: h.new_lines,
        header: trimmed(h.header),
        lines: lines,
    }
}

/// The hunks reported at the front of `ev` for the file at `path`: every
/// hunk header before the next file delta, each with the lines that
/// directly follow it. Lines before the first header belong to no hunk.
pub open spec fn file_hunks(ev: Seq<DiffEventV>, path: Seq<char>) -> Seq<HunkV>
    decreases ev.len(),
{
    if ev.len() == 0 {
        Seq::empty()
    } else {
        match ev[0] {
            DiffEventV::File(_) => Seq::empty(),
            DiffEventV::Line(_) => file_hunks(ev.drop_first(), path),
            DiffEventV::Hunk(h) => seq![hunk_of(h, path, leading_lines(ev.drop_first()))]
                + file_hunks(ev.drop_first(), path),
        }
    }
}

/// The files of a diff walk: one per file delta that is not binary, in
/// order, with the hunks reported for it. Hunks under a binary delta, or
/// before any delta, belong to no file.
pub open spec fn diff_files(ev: Seq<DiffEventV>) -> Seq<FileChangeV>
    decreases ev.len(),
{
    if ev.len() == 0 {
        Seq::empty()
    } else {
        match ev[0] {
            DiffEventV::File(d) => if delta_is_binary(d) {
                diff_files(ev.drop_first())
            } else {
                seq![
                    FileChangeV {
                        path: path_of_delta(d),
                        status: status_of_kind(d.kind),
                        hunks: file_hunks(ev.drop_first(), path_of_delta(d)),
                    },
                ] + diff_files(ev.drop_first())
            },
            _ => diff_files(ev.drop_first()),
        }
    }
}

/// The number of hunks over all files.
pub open spec fn hunk_count(files: Seq<FileChangeV>) -> nat
    decreases files.len(),
{
    if files.len() == 0 {
        0
    } else {
        hunk_count(files.drop_last()) + files.last().hunks.len()
    }
}

/// The hunk line for a line event.
pub fn make_line(r: &LineRecord) -> (l: HunkLine)
    ensures
        l@ == line_of_record(r@),
{
    HunkLine {
        tag: LineTag::from_origin(r.origin),
        content: r.content.clone(),
        old_lineno: r.old_lineno,
        new_lineno: r.new_lineno,
    }
}

/// The lines reported directly from position `start` on.
pub fn collect_lines(events: &Vec<DiffEvent>, start: usize) -> (lines: Vec<HunkLine>)
    requires
        start <= events@.len(),
    ensures
        lines_view(lines@) == leading_lines(events_view(events@).skip(start as int)),
{
    let ghost ev = events_view(events@);
    let mut lines: Vec<HunkLine> = Vec::new();
    let mut j = start;
    proof {
        assert(lines_view(lines@) =~= Seq::<HunkLineV>::empty());
    }
    while j < events.len() && is_line_event(&events[j])
        invariant
            start <= j <= events@.len(),
            ev == events_view(events@),
            lines_view(lines@) + leading_lines(ev.skip(j as int)) == leading_lines(
                ev.skip(start as int),
            ),
        decreases events@.len() - j,
    {
        let ghost before = lines@;
        if let DiffEvent::Line(r) = &events[j] {
            let l = make_line(r);
            lines.push(l);
            proof {
                assert(ev.skip(j as int).drop_first() =~= ev.skip(j + 1));
                assert(ev.skip(j as int)[0] == events@[j as int]@);
                assert(lines_view(lines@) =~= lines_view(before).push(l@));
                assert(lines_view(lines@) + leading_lines(ev.skip(j + 1)) =~= lines_view(before)
                    + leading_lines(ev.skip(j as int)));
            }
        }
        j = j + 1;
    }
    proof {
        if j < events@.len() {
            assert(ev.skip(j as int)[0] == events@[j as int]@);
        }
        assert(leading_lines(ev.skip(j as int)) =~= Seq::<HunkLineV>::empty());
        assert(lines_view(lines@) + Seq::<HunkLineV>::empty() =~= lines_view(lines@));
    }
    lines
}

/// The hunk for a header inside the file at `path`.
pub fn make_hunk(h: &HunkHeader, path: &str, lines: Vec<HunkLine>) -> (hunk: Hunk)
    ensures
        hunk@ == hunk_of(h@, path@, lines_view(lines@)),
{
    let header = hunk_header(h.header.as_str());
    let id = hunk_id(path, h.old_start, header.as_str());
    Hunk {
        id,
        file_path: path.to_owned(),
        old_start: h.old_start,
        old_lines: h.old_lines,
        new_start: h.new_start,
        new_lines: h.new_lines,
        header,
        lines,
    }
}

/// The hunks reported from position `start` on for the file at `path`,
/// and the position of the next file delta (or the end).
pub fn collect_file_hunks(events: &Vec<DiffEvent>, start: usize, path: &str) -> (r: (
    Vec<Hunk>,
    usize,
))
    requires
        start <= events@.len(),
    ensures
        hunks_view(r.0@) == file_hunks(events_view(events@).skip(start as int), path@),
        start <= r.1 <= events@.len(),
        r.0@.len() <= r.1 - start,
        forall|k: int| start <= k < r.1 ==> !(#[trigger] events@[k]@ is File),
        r.1 < events@.len() ==> events@[r.1 as int]@ is File,
{
    let ghost ev = events_view(events@);
    let mut hunks: Vec<Hunk> = Vec::new();
    let mut j = start;
    proof {
        assert(hunks_view(hunks@) =~= Seq::<HunkV>::empty());
    }
    while j < events.len() && !is_file_event(&events[j])
        invariant
            start <= j <= events@.len(),
            ev == events_view(events@),
            hunks_view(hunks@) + file_hunks(ev.skip(j as int), path@) == file_hunks(
                ev.skip(start as int),
                path@,
            ),
            hunks@.len() <= j - start,
            forall|k: int| start <= k < j ==> !(#[trigger] events@[k]@ is File),
        decreases events@.len() - j,
    {
        let ghost before = hunks@;
        proof {
            assert(ev.skip(j as int).drop_first() =~= ev.skip(j + 1));
            assert(ev.skip(j as int)[0] == events@[j as int]@);
        }
        if let DiffEvent::Hunk(h) = &events[j] {
            let lines = collect_lines(events, j + 1);
            let hunk = make_hunk(h, path, lines);
            hunks.push(hunk);
            proof {
                assert(hunks_view(hunks@) =~= hunks_view(before).push(hunk@));
                assert(hunks_view(hunks@) + file_hunks(ev.skip(j + 1), path@) =~= hunks_view(
                    before,
                ) + file_hunks(ev.skip(j as int), path@));
            }
        }
        j = j + 1;
    }
    proof {
        if j < events@.len() {
            assert(ev.skip(j as int)[0] == events@[j as int]@);
        }
        assert(file_hunks(ev.skip(j as int), path@) =~= Seq::<HunkV>::empty());
        assert(hunks_view(hunks@) + Seq::<HunkV>::empty() =~= hunks_view(hunks@));
    }
    (hunks, j)
}

/// Events that are not file deltas contribute no file.
pub proof fn lemma_skip_non_files(ev: Seq<DiffEventV>, a: int, b: int)
    requires
        0 <= a <= b <= ev.len(),
        forall|k: int| a <= k < b ==> !(#[trigger] ev[k] is File),
    ensures
        diff_files(ev.skip(a)) == diff_files(ev.skip(b)),
    decreases b - a,
{
    if a < b {
        assert(ev.skip(a).drop_first() =~= ev.skip(a + 1));
        assert(ev.skip(a)[0] == ev[a]);
        lemma_skip_non_files(ev, a + 1, b);
    }
}

/// Groups the events of a diff walk into files, hunks and lines.
pub fn build_diff_output(events: &Vec<DiffEvent>) -> (out: DiffOutput)
    ensures
        out@.files == diff_files(events_view(events@)),
        out@.total_hunks == hunk_count(out@.files),
{
    let ghost ev = events_view(events@);
    let mut files: Vec<FileChange> = Vec::new();
    let mut total: usize = 0;
    let mut i: usize = 0;
    proof {
        assert(ev.skip(0) =~= ev);
        assert(files_view(files@) =~= Seq::<FileChangeV>::empty());
    }
    while i < events.len()
        invariant
            i <= events@.len(),
            ev == events_view(events@),
            files_view(files@) + diff_files(ev.skip(i as int)) == diff_files(ev),
            total == hunk_count(files_view(files@)),
            total <= i,
        decreases events@.len() - i,
    {
        let ghost before = files@;
        proof {
            assert(ev.skip(i as int).drop_first() =~= ev.skip(i + 1));
            assert(ev.skip(i as int)[0] == events@[i as int]@);
        }
        match &events[i] {
            DiffEvent::File(d) => {
                if is_binary_delta(d) {
                    i = i + 1;
                } else {
                    let path = delta_path(d);
                    let (hunks, end) = collect_file_hunks(events, i + 1, path.as_str());
                    total = total + hunks.len();
                    let f = FileChange { path, status: delta_to_status(d.kind), hunks };
                    files.push(f);
                    proof {
                        assert forall|k: int| i + 1 <= k < end implies !(#[trigger] ev[k] is File) by {
                            assert(ev[k] == events@[k]@);
                        }
                        lemma_skip_non_files(ev, i + 1, end as int);
                        assert(files_view(files@) =~= files_view(before).push(f@));
                        assert(files_view(files@).drop_last() =~= files_view(before));
                        assert(files_view(files@) + diff_files(ev.skip(end as int)) =~= files_view(
                            before,
                        ) + diff_files(ev.skip(i as int)));
                    }
                    i = end;
                }
            },
            _ => {
                i = i + 1;
            },
        }
    }
    proof {
        assert(files_view(files@) + diff_files(ev.skip(i as int)) =~= files_view(files@));
    }
    DiffOutput { files, total_hunks: total }
}


/// The file a hunk is attributed to while scanning: its path and whether
/// the file is untracked or newly added.
pub struct FileContext {
    pub path: String,
    pub untracked: bool,
    pub added: bool,
}

/// The mathematical value of a [`FileContext`].
pub struct FileContextV {
    pub path: Seq<char>,
    pub untracked: bool,
    pub added: bool,
}

impl View for FileContext {
    type V = FileContextV;

    open spec fn view(&self) -> FileContextV {
        FileContextV { path: self.path@, untracked: self.untracked, added: self.added }
    }
}

/// The context before any file delta: empty path, neither untracked nor
/// added.
pub open spec fn no_context() -> FileContextV {
    FileContextV { path: Seq::empty(), untracked: false, added: false }
}

/// The context a file delta opens: for a binary file the empty context,
/// else its path and whether it is untracked or added.
pub open spec fn context_of(d: FileDeltaV) -> FileContextV {
    if delta_is_binary(d) {
        no_context()
    } else {
        FileContextV {
            path: path_of_delta(d),
            untracked: d.kind == DeltaKind::Untracked,
            added: d.kind == DeltaKind::Added,
        }
    }
}

/// Computes [`context_of`].
pub fn file_context(d: &FileDelta) -> (c: FileContext)
    ensures
        c@ == context_of(d@),
{
    if is_binary_delta(d) {
        FileContext { path: String::new(), untracked: false, added: false }
    } else {
        FileContext {
            path: delta_path(d),
            untracked: d.kind == DeltaKind::Untracked,
            added: d.kind == DeltaKind::Added,
        }
    }
}

/// A hunk as the scans that stage and discard see it: its ID, the file
/// it is attributed to, where it starts on both sides, and its lines.
#[derive(Debug)]
pub struct HunkRecord {
    pub id: String,
    pub file_path: String,
    pub untracked: bool,
    pub added: bool,
    pub old_start: u32,
    pub new_start: u32,
    pub lines: Vec<HunkLine>,
}

/// The mathematical value of a [`HunkRecord`].
pub struct HunkRecordV {
    pub id: Seq<char>,
    pub file_path: Seq<char>,
    pub untracked: bool,
    pub added: bool,
    pub old_start: u32,
    pub new_start: u32,
    pub lines: Seq<HunkLineV>,
}

impl View for HunkRecord {
    type V = HunkRecordV;

    open spec fn view(&self) -> HunkRecordV {
        HunkRecordV {
            id: self.id@,
            file_path: self.file_path@,
            untracked: self.untracked,
            added: self.added,
            old_start: self.old_start,
            new_start: self.new_start,
            lines: lines_view(self.lines@),
        }
    }
}

/// The views of a sequence of records.
pub open spec fn records_view(r: Seq<HunkRecord>) -> Seq<HunkRecordV> {
    r.map_values(|x: HunkRecord| x@)
}

/// The record of a hunk header seen in context `ctx`, with `lines`.
pub open spec fn record_of(h: HunkHeaderV, ctx: FileContextV, lines: Seq<HunkLineV>) -> HunkRecordV {
    HunkRecordV {
        id: hunk_id_of(ctx.path, h.old_start, trimmed(h.header)),
        file_path: ctx.path,
        untracked: ctx.untracked,
        added: ctx.added,
        old_start: h.old_start,
        new_start: h.new_start,
        lines: lines,
    }
}

/// The hunk records of a diff walk: one per hunk header, attributed to
/// the most recent file delta (`ctx` before the first), each with the lines
/// that directly follow it.
pub open spec fn hunk_records(ev: Seq<DiffEventV>, ctx: FileContextV) -> Seq<HunkRecordV>
    decreases ev.len(),
{
    if ev.len() == 0 {
        Seq::empty()
    } else {
        match ev[0] {
            DiffEventV::File(d) => hunk_records(ev.drop_first(), context_of(d)),
            DiffEventV::Line(_) => hunk_records(ev.drop_first(), ctx),
            DiffEventV::Hunk(h) => seq![record_of(h, ctx, leading_lines(ev.drop_first()))]
                + hunk_records(ev.drop_first(), ctx),
        }
    }
}

/// The record of every hunk header of a diff walk.
pub fn scan_hunks(events: &Vec<DiffEvent>) -> (recs: Vec<HunkRecord>)
    ensures
        records_view(recs@) == hunk_records(events_view(events@), no_context()),
{
    let ghost ev = events_view(events@);
    let mut recs: Vec<HunkRecord> = Vec::new();
    let mut ctx = FileContext { path: String::new(), untracked: false, added: false };
    let mut i: usize = 0;
    proof {
        assert(ev.skip(0) =~= ev);
        assert(records_view(recs@) =~= Seq::<HunkRecordV>::empty());
    }
    while i < events.len()
        invariant
            i <= events@.len(),
            ev == events_view(events@),
            records_view(recs@) + hunk_records(ev.skip(i as int), ctx@) == hunk_records(
                ev,
                no_context(),
            ),
        decreases events@.len() - i,
    {
        let ghost before = recs@;
        proof {
            assert(ev.skip(i as int).drop_first() =~= ev.skip(i + 1));
            assert(ev.skip(i as int)[0] == events@[i as int]@);
        }
        match &events[i] {
            DiffEvent::File(d) => {
                ctx = file_context(d);
            },
            DiffEvent::Hunk(h) => {
                let lines = collect_lines(events, i + 1);
                let header = hunk_header(h.header.as_str());
                let id = hunk_id(ctx.path.as_str(), h.old_start, header.as_str());
                let rec = HunkRecord {
                    id,
                    file_path: ctx.path.clone(),
                    untracked: ctx.untracked,
                    added: ctx.added,
                    old_start: h.old_start,
                    new_start: h.new_start,
                    lines,
                };
                recs.push(rec);
                proof {
                    assert(records_view(recs@) =~= records_view(before).push(rec@));
                    assert(records_view(recs@) + hunk_records(ev.skip(i + 1), ctx@)
                        =~= records_view(before) + hunk_records(ev.skip(i as int), ctx@));
                }
            },
            DiffEvent::Line(_) => {},
        }
        i = i + 1;
    }
    proof {
        assert(records_view(recs@) + hunk_records(ev.skip(i as int), ctx@) =~= records_view(
            recs@,
        ));
    }
    recs
}

/// The record a lookup by ID finds: the last one with that ID, as a map
/// filled in order would keep it.
pub open spec fn find_record(recs: Seq<HunkRecordV>, id: Seq<char>) -> Option<HunkRecordV>
    decreases recs.len(),
{
    if recs.len() == 0 {
        None
    } else if recs.last().id == id {
        Some(recs.last())
    } else {
        find_record(recs.drop_last(), id)
    }
}

/// Finds the position of the record [`find_record`] names.
pub fn lookup_record(recs: &Vec<HunkRecord>, id: &String) -> (r: Option<usize>)
    ensures
        match r {
            Some(k) => k < recs@.len() && find_record(records_view(recs@), id@) == Some(
                recs@[k as int]@,
            ),
            None => find_record(records_view(recs@), id@) is None,
        },
{
    let ghost rv = records_view(recs@);
    let mut k: usize = recs.len();
    proof {
        assert(rv.take(k as int) =~= rv);
    }
    while k > 0
        invariant
            k <= recs@.len(),
            rv == records_view(recs@),
            find_record(rv.take(k as int), id@) == find_record(rv, id@),
        decreases k,
    {
        proof {
            assert(rv.take(k as int).drop_last() =~= rv.take(k - 1));
            assert(rv.take(k as int).last() == recs@[k - 1]@);
        }
        if recs[k - 1].id == *id {
            return Some(k - 1);
        }
        k = k - 1;
    }
    None
}

/// How many file deltas and how many hunk headers a diff walk reports.
pub open spec fn event_counts(ev: Seq<DiffEventV>) -> (nat, nat)
    decreases ev.len(),
{
    if ev.len() == 0 {
        (0, 0)
    } else {
        let (f, h) = event_counts(ev.drop_last());
        match ev.last() {
            DiffEventV::File(_) => (f + 1, h),
            DiffEventV::Hunk(_) => (f, h + 1),
            DiffEventV::Line(_) => (f, h),
        }
    }
}

/// Counts the file deltas and hunk headers of a diff walk, binary files
/// included.
pub fn count_files_and_hunks(events: &Vec<DiffEvent>) -> (r: (usize, usize))
    ensures
        (r.0 as nat, r.1 as nat) == event_counts(events_view(events@)),
{
    let ghost ev = events_view(events@);
    let mut files: usize = 0;
    let mut hunks: usize = 0;
    let mut i: usize = 0;
    while i < events.len()
        invariant
            i <= events@.len(),
            ev == events_view(events@),
            (files as nat, hunks as nat) == event_counts(ev.take(i as int)),
            files + hunks <= i,
        decreases events@.len() - i,
    {
        proof {
            assert(ev.take(i + 1).drop_last() =~= ev.take(i as int));
            assert(ev.take(i + 1).last() == events@[i as int]@);
        }
        match &events[i] {
            DiffEvent::File(_) => {
                files = files + 1;
            },
            DiffEvent::Hunk(_) => {
                hunks = hunks + 1;
            },
            DiffEvent::Line(_) => {},
        }
        i = i + 1;
    }
    proof {
        assert(ev.take(i as int) =~= ev);
    }
    (files, hunks)
}


/// Law: every hunk ID is sixteen lowercase hexadecimal digits.
pub proof fn law_hunk_id_shape(file_path: Seq<char>, old_start: u32, header: Seq<char>)
    ensures
        hunk_id_of(file_path, old_start, header).len() == 16,
        forall|i: int|
            0 <= i < 16 ==> is_lower_hex(#[trigger] hunk_id_of(file_path, old_start, header)[i]),
{
    lemma_hex_digits_shape(
        DefaultHasher::spec_finish(hunk_key_chunks(file_path, old_start, header)) as nat,
        16,
    );
}

/// Whether a record stands for the same hunk as a shown hunk: same ID,
/// file, start line and lines.
pub open spec fn record_matches(r: HunkRecordV, h: HunkV) -> bool {
    &&& r.id == h.id
    &&& r.file_path == h.file_path
    &&& r.old_start == h.old_start
    &&& r.new_start == h.new_start
    &&& r.lines == h.lines
}

/// Every hunk of a file's stretch of events has a matching record when the
/// scan attributes the stretch to that file.
proof fn lemma_file_hunks_have_records(ev: Seq<DiffEventV>, ctx: FileContextV, j: int)
    requires
        0 <= j < file_hunks(ev, ctx.path).len(),
    ensures
        exists|k: int|
            0 <= k < hunk_records(ev, ctx).len() && record_matches(
                #[trigger] hunk_records(ev, ctx)[k],
                file_hunks(ev, ctx.path)[j],
            ),
    decreases ev.len(),
{
    let rest = ev.drop_first();
    match ev[0] {
        DiffEventV::File(_) => {},
        DiffEventV::Line(_) => {
            assert(hunk_records(ev, ctx) == hunk_records(rest, ctx));
            assert(file_hunks(ev, ctx.path) == file_hunks(rest, ctx.path));
            lemma_file_hunks_have_records(rest, ctx, j);
        },
        DiffEventV::Hunk(h) => {
            let r = record_of(h, ctx, leading_lines(rest));
            assert(hunk_records(ev, ctx) == seq![r] + hunk_records(rest, ctx));
            assert(file_hunks(ev, ctx.path) == seq![hunk_of(h, ctx.path, leading_lines(rest))]
                + file_hunks(rest, ctx.path));
            if j == 0 {
                assert(hunk_records(ev, ctx)[0] == r);
                assert(record_matches(hunk_records(ev, ctx)[0], file_hunks(ev, ctx.path)[0]));
            } else {
                assert(file_hunks(ev, ctx.path)[j] == file_hunks(rest, ctx.path)[j - 1]);
                lemma_file_hunks_have_records(rest, ctx, j - 1);
                let k = choose|k: int|
                    0 <= k < hunk_records(rest, ctx).len() && record_matches(
                        #[trigger] hunk_records(rest, ctx)[k],
                        file_hunks(rest, ctx.path)[j - 1],
                    );
                assert(hunk_records(ev, ctx)[k + 1] == hunk_records(rest, ctx)[k]);
            }
        },
    }
}

/// Every hunk shown for a file has a matching record, whatever context
/// the scan starts in.
proof fn lemma_diff_hunks_have_records(ev: Seq<DiffEventV>, ctx: FileContextV, i: int, j: int)
    requires
        0 <= i < diff_files(ev).len(),
        0 <= j < diff_files(ev)[i].hunks.len(),
    ensures
        exists|k: int|
            0 <= k < hunk_records(ev, ctx).len() && record_matches(
                #[trigger] hunk_records(ev, ctx)[k],
                diff_files(ev)[i].hunks[j],
            ),
    decreases ev.len(),
{
    let rest = ev.drop_first();
    match ev[0] {
        DiffEventV::File(d) => {
            assert(hunk_records(ev, ctx) == hunk_records(rest, context_of(d)));
            if delta_is_binary(d) {
                assert(diff_files(ev) == diff_files(rest));
                lemma_diff_hunks_have_records(rest, context_of(d), i, j);
            } else {
                let f = FileChangeV {
                    path: path_of_delta(d),
                    status: status_of_kind(d.kind),
                    hunks: file_hunks(rest, path_of_delta(d)),
                };
                assert(diff_files(ev) == seq![f] + diff_files(rest));
                if i == 0 {
                    assert(diff_files(ev)[0] == f);
                    assert(context_of(d).path == path_of_delta(d));
                    lemma_file_hunks_have_records(rest, context_of(d), j);
                } else {
                    assert(diff_files(ev)[i] == diff_files(rest)[i - 1]);
                    lemma_diff_hunks_have_records(rest, context_of(d), i - 1, j);
                }
            }
        },
        DiffEventV::Line(_) => {
            assert(hunk_records(ev, ctx) == hunk_records(rest, ctx));
            assert(diff_files(ev) == diff_files(rest));
            lemma_diff_hunks_have_records(rest, ctx, i, j);
        },
        DiffEventV::Hunk(h) => {
            let r = record_of(h, ctx, leading_lines(rest));
            assert(hunk_records(ev, ctx) == seq![r] + hunk_records(rest, ctx));
            assert(diff_files(ev) == diff_files(rest));
            lemma_diff_hunks_have_records(rest, ctx, i, j);
            let k = choose|k: int|
                0 <= k < hunk_records(rest, ctx).len() && record_matches(
                    #[trigger] hunk_records(rest, ctx)[k],
                    diff_files(rest)[i].hunks[j],
                );
            assert(hunk_records(ev, ctx)[k + 1] == hunk_records(rest, ctx)[k]);
        },
    }
}

/// Law: every hunk that a diff shows is found, under the same ID and with
/// the same file, start lines and lines, by the scan that staging and
/// discarding make of the same diff walk.
pub proof fn law_shown_hunks_are_found(ev: Seq<DiffEventV>, i: int, j: int)
    requires
        0 <= i < diff_files(ev).len(),
        0 <= j < diff_files(ev)[i].hunks.len(),
    ensures
        exists|k: int|
            0 <= k < hunk_records(ev, no_context()).len() && record_matches(
                #[trigger] hunk_records(ev, no_context())[k],
                diff_files(ev)[i].hunks[j],
            ),
{
    lemma_diff_hunks_have_records(ev, no_context(), i, j);
}

/// Whether a shown hunk is named by its file: it carries the file's path,
/// its header is trimmed, and its ID is the one made of that path, its old
/// start line and its header.
pub open spec fn named_by_file(h: HunkV, path: Seq<char>) -> bool {
    &&& h.file_path == path
    &&& trimmed(h.header) == h.header
    &&& h.id == hunk_id_of(path, h.old_start, h.header)
}

proof fn lemma_file_hunks_named(ev: Seq<DiffEventV>, path: Seq<char>, j: int)
    requires
        0 <= j < file_hunks(ev, path).len(),
    ensures
        named_by_file(file_hunks(ev, path)[j], path),
    decreases ev.len(),
{
    let rest = ev.drop_first();
    match ev[0] {
        DiffEventV::File(_) => {},
        DiffEventV::Line(_) => {
            assert(file_hunks(ev, path) == file_hunks(rest, path));
            lemma_file_hunks_named(rest, path, j);
        },
        DiffEventV::Hunk(h) => {
            assert(file_hunks(ev, path) == seq![hunk_of(h, path, leading_lines(rest))]
                + file_hunks(rest, path));
            if j == 0 {
                law_trim_idempotent(h.header);
                assert(file_hunks(ev, path)[0] == hunk_of(h, path, leading_lines(rest)));
            } else {
                assert(file_hunks(ev, path)[j] == file_hunks(rest, path)[j - 1]);
                lemma_file_hunks_named(rest, path, j - 1);
            }
        },
    }
}

/// Law: every hunk a diff shows carries the path of the file it is listed
/// under, a trimmed header, and the ID made of that path, its old start
/// line and its header.
pub proof fn law_shown_hunks_named_by_file(ev: Seq<DiffEventV>, i: int, j: int)
    requires
        0 <= i < diff_files(ev).len(),
        0 <= j < diff_files(ev)[i].hunks.len(),
    ensures
        named_by_file(diff_files(ev)[i].hunks[j], diff_files(ev)[i].path),
    decreases ev.len(),
{
    let rest = ev.drop_first();
    match ev[0] {
        DiffEventV::File(d) => {
            if delta_is_binary(d) {
                assert(diff_files(ev) == diff_files(rest));
                law_shown_hunks_named_by_file(rest, i, j);
            } else {
                let f = FileChangeV {
                    path: path_of_delta(d),
                    status: status_of_kind(d.kind),
                    hunks: file_hunks(rest, path_of_delta(d)),
                };
                assert(diff_files(ev) == seq![f] + diff_files(rest));
                if i == 0 {
                    assert(diff_files(ev)[0] == f);
                    lemma_file_hunks_named(rest, path_of_delta(d), j);
                } else {
                    assert(diff_files(ev)[i] == diff_files(rest)[i - 1]);
                    law_shown_hunks_named_by_file(rest, i - 1, j);
                }
            }
        },
        _ => {
            assert(diff_files(ev) == diff_files(rest));
            law_shown_hunks_named_by_file(rest, i, j);
        },
    }
}

/// The file-delta events of a walk, in order.
pub open spec fn file_events(ev: Seq<DiffEventV>) -> Seq<DiffEventV> {
    ev.filter(|e: DiffEventV| e is File)
}

/// The hunk-header events of a walk, in order.
pub open spec fn hunk_events(ev: Seq<DiffEventV>) -> Seq<DiffEventV> {
    ev.filter(|e: DiffEventV| e is Hunk)
}

/// Law: the counts of a walk are how many of its events are file deltas
/// and how many are hunk headers; line events count for neither.
pub proof fn law_counts_are_files_and_hunks(ev: Seq<DiffEventV>)
    ensures
        event_counts(ev).0 == file_events(ev).len(),
        event_counts(ev).1 == hunk_events(ev).len(),
    decreases ev.len(),
{
    reveal(Seq::filter);
    if ev.len() > 0 {
        law_counts_are_files_and_hunks(ev.drop_last());
    }
}

/// The file delta in force at position `j` of a walk: the last one before
/// `j`, or `cur` when there is none.
pub open spec fn delta_at(ev: Seq<DiffEventV>, j: int, cur: Option<FileDeltaV>) -> Option<FileDeltaV>
    decreases j,
{
    if j <= 0 || ev.len() == 0 {
        cur
    } else {
        delta_at(
            ev.drop_first(),
            j - 1,
            match ev[0] {
                DiffEventV::File(d) => Some(d),
                _ => cur,
            },
        )
    }
}

/// How many hunk headers come before position `j`.
pub open spec fn hunks_before(ev: Seq<DiffEventV>, j: int) -> nat
    decreases j,
{
    if j <= 0 || ev.len() == 0 {
        0
    } else {
        hunks_before(ev.drop_first(), j - 1) + if ev[0] is Hunk {
            1nat
        } else {
            0nat
        }
    }
}

/// Whether the hunks under a delta belong to an untracked text file.
pub open spec fn untracked_under(cur: Option<FileDeltaV>) -> bool {
    match cur {
        Some(d) => !d.new_binary && !d.old_binary && d.kind == DeltaKind::Untracked,
        None => false,
    }
}

/// Whether the hunks under a delta belong to a newly added text file.
pub open spec fn added_under(cur: Option<FileDeltaV>) -> bool {
    match cur {
        Some(d) => !d.new_binary && !d.old_binary && d.kind == DeltaKind::Added,
        None => false,
    }
}

proof fn lemma_record_marks(ev: Seq<DiffEventV>, j: int, ctx: FileContextV, cur: Option<FileDeltaV>)
    requires
        0 <= j < ev.len(),
        ev[j] is Hunk,
        ctx.untracked == untracked_under(cur),
        ctx.added == added_under(cur),
    ensures
        hunks_before(ev, j) < hunk_records(ev, ctx).len(),
        hunk_records(ev, ctx)[hunks_before(ev, j) as int].untracked == untracked_under(
            delta_at(ev, j, cur),
        ),
        hunk_records(ev, ctx)[hunks_before(ev, j) as int].added == added_under(
            delta_at(ev, j, cur),
        ),
    decreases j,
{
    let rest = ev.drop_first();
    if j == 0 {
        match ev[0] {
            DiffEventV::Hunk(h) => {
                assert(hunk_records(ev, ctx) == seq![record_of(h, ctx, leading_lines(rest))]
                    + hunk_records(rest, ctx));
            },
            _ => {},
        }
    } else {
        assert(rest[j - 1] == ev[j]);
        match ev[0] {
            DiffEventV::File(d) => {
                assert(hunk_records(ev, ctx) == hunk_records(rest, context_of(d)));
                lemma_record_marks(rest, j - 1, context_of(d), Some(d));
            },
            DiffEventV::Line(_) => {
                assert(hunk_records(ev, ctx) == hunk_records(rest, ctx));
                lemma_record_marks(rest, j - 1, ctx, cur);
            },
            DiffEventV::Hunk(h) => {
                let r = record_of(h, ctx, leading_lines(rest));
                assert(hunk_records(ev, ctx) == seq![r] + hunk_records(rest, ctx));
                lemma_record_marks(rest, j - 1, ctx, cur);
                let k = hunks_before(rest, j - 1) as int;
                assert(hunk_records(ev, ctx)[k + 1] == hunk_records(rest, ctx)[k]);
            },
        }
    }
}

/// Law: the record of the hunk header at position `j` (the record that
/// comes after one per earlier header) is marked untracked exactly when
/// the last file delta before it is an untracked text file, and added
/// exactly when that delta is a newly added text file. Hunks of deleted,
/// modified or renamed files are neither.
pub proof fn law_records_marked_by_their_delta(ev: Seq<DiffEventV>, j: int)
    requires
        0 <= j < ev.len(),
        ev[j] is Hunk,
    ensures
        hunks_before(ev, j) < hunk_records(ev, no_context()).len(),
        hunk_records(ev, no_context())[hunks_before(ev, j) as int].untracked == untracked_under(
            delta_at(ev, j, None),
        ),
        hunk_records(ev, no_context())[hunks_before(ev, j) as int].added == added_under(
            delta_at(ev, j, None),
        ),
{
    lemma_record_marks(ev, j, no_context(), None);
}

/// Law: the hunk count of two runs of files is the sum of their counts,
/// and one file counts its own hunks.
pub proof fn law_hunk_count_adds_up(a: Seq<FileChangeV>, b: Seq<FileChangeV>)
    ensures
        hunk_count(a + b) == hunk_count(a) + hunk_count(b),
    decreases b.len(),
{
    if b.len() == 0 {
        assert(a + b =~= a);
    } else {
        law_hunk_count_adds_up(a, b.drop_last());
        assert((a + b).drop_last() =~= a + b.drop_last());
        assert((a + b).last() == b.last());
    }
}

} // verus!
