//! Extraction of package manifests from a repository archive's entry events:
//! each package's name (from its `desc` entry) and raw file list (from its
//! `files` entry).
use vstd::prelude::*;
use vstd::utf8::{decode_utf8, valid_utf8};
use crate::text::{
    char_views, chars_end_with, chars_of, ends_with, find_first, first_index_of, lines_of,
    lemma_split_lines_nonempty, same_chars, split_lines, string_of, string_range, terminated_lines, terminated_lines_of,
    utf8_string, views,
};

verus! {

pub open spec fn name_marker() -> Seq<char> {
    seq!['%', 'N', 'A', 'M', 'E', '%']
}

/// Index of the first line equal to the `%NAME%` marker, or -1.
pub open spec fn marker_index(lines: Seq<Seq<char>>) -> int
    decreases lines.len(),
{
    if lines.len() == 0 {
        -1
    } else {
        let r = marker_index(lines.drop_last());
        if r >= 0 {
            r
        } else if lines.last() == name_marker() {
            lines.len() - 1
        } else {
            -1
        }
    }
}

/// The package name in a metadata entry: the line after the first `%NAME%` line.
/// There is none when that line is the last: a final newline starts no line.
pub open spec fn package_name_in(desc: Seq<char>) -> Option<Seq<char>> {
    let ls = terminated_lines(desc);
    let j = marker_index(ls);
    if 0 <= j && j + 1 < ls.len() {
        Some(ls[j + 1])
    } else {
        None
    }
}

/// Index of the first empty line, or -1.
pub open spec fn empty_index(lines: Seq<Seq<char>>) -> int
    decreases lines.len(),
{
    if lines.len() == 0 {
        -1
    } else {
        let r = empty_index(lines.drop_last());
        if r >= 0 {
            r
        } else if lines.last().len() == 0 {
            lines.len() - 1
        } else {
            -1
        }
    }
}

/// The paths of a file-list entry: its lines after the first (a header), up to
/// the first empty line.
pub open spec fn listed_paths(files: Seq<char>) -> Seq<Seq<char>> {
    let body = split_lines(files).drop_first();
    let e = empty_index(body);
    if e >= 0 {
        body.take(e)
    } else {
        body
    }
}

proof fn lemma_marker_index_bound(lines: Seq<Seq<char>>)
    ensures
        -1 <= marker_index(lines) < lines.len(),
        marker_index(lines) >= 0 ==> lines[marker_index(lines)] == name_marker(),
    decreases lines.len(),
{
    if lines.len() > 0 {
        lemma_marker_index_bound(lines.drop_last());
    }
}

proof fn lemma_empty_index_bound(lines: Seq<Seq<char>>)
    ensures
        -1 <= empty_index(lines) < lines.len(),
    decreases lines.len(),
{
    if lines.len() > 0 {
        lemma_empty_index_bound(lines.drop_last());
    }
}

/// The package name in the text of a metadata entry.
pub fn package_name(desc: &str) -> (r: Option<String>)
    ensures
        match r {
            Some(n) => package_name_in(desc@) == Some(n@),
            None => package_name_in(desc@) is None,
        },
{
    let lines = terminated_lines_of(&chars_of(desc));
    let ghost ls = terminated_lines(desc@);
    let marker: Vec<char> = vec!['%', 'N', 'A', 'M', 'E', '%'];
    assert(marker@ =~= name_marker());
    let mut i: usize = 0;
    while i < lines.len()
        invariant
            i <= lines@.len(),
            char_views(lines@) == ls,
            ls == terminated_lines(desc@),
            marker@ == name_marker(),
            marker_index(ls.take(i as int)) == -1,
        decreases lines@.len() - i,
    {
        assert(ls.take(i + 1).drop_last() =~= ls.take(i as int));
        if same_chars(&lines[i], &marker) {
            proof {
                assert(marker_index(ls.take(i + 1)) == i);
                lemma_marker_prefix(ls, i as int + 1);
                lemma_marker_index_bound(ls);
            }
            if i + 1 < lines.len() {
                return Some(string_of(lines[i + 1].as_slice()));
            }
            return None;
        }
        i = i + 1;
    }
    assert(ls.take(i as int) =~= ls);
    None
}

/// Once the marker is found in a prefix, it is the marker of the whole.
proof fn lemma_marker_prefix(lines: Seq<Seq<char>>, k: int)
    requires
        0 <= k <= lines.len(),
        marker_index(lines.take(k)) >= 0,
    ensures
        marker_index(lines) == marker_index(lines.take(k)),
    decreases lines.len() - k,
{
    if k < lines.len() {
        assert(lines.take(k + 1).drop_last() =~= lines.take(k));
        lemma_marker_prefix(lines, k + 1);
    } else {
        assert(lines.take(k) =~= lines);
    }
}

/// Once an empty line is found in a prefix, it is the first of the whole.
proof fn lemma_empty_prefix(lines: Seq<Seq<char>>, k: int)
    requires
        0 <= k <= lines.len(),
        empty_index(lines.take(k)) >= 0,
    ensures
        empty_index(lines) == empty_index(lines.take(k)),
    decreases lines.len() - k,
{
    if k < lines.len() {
        assert(lines.take(k + 1).drop_last() =~= lines.take(k));
        lemma_empty_prefix(lines, k + 1);
    } else {
        assert(lines.take(k) =~= lines);
    }
}

/// The paths listed in the text of a file-list entry.
pub fn file_paths(files: &str) -> (r: Vec<String>)
    ensures
        views(r@) == listed_paths(files@),
{
    let lines = lines_of(&chars_of(files));
    let ghost ls = split_lines(files@);
    let ghost body = ls.drop_first();
    proof {
        lemma_split_lines_nonempty(files@);
    }
    let mut out: Vec<String> = Vec::new();
    let mut i: usize = 1;
    while i < lines.len()
        invariant
            1 <= i <= lines@.len(),
            char_views(lines@) == ls,
            ls == split_lines(files@),
            body == ls.drop_first(),
            empty_index(body.take(i - 1)) == -1,
            views(out@) == body.take(i - 1),
        decreases lines@.len() - i,
    {
        assert(body.take(i as int).drop_last() =~= body.take(i - 1));
        if lines[i].len() == 0 {
            proof {
                assert(empty_index(body.take(i as int)) == i - 1);
                lemma_empty_prefix(body, i as int);
            }
            return out;
        }
        out.push(string_of(lines[i].as_slice()));
        assert(views(out@) =~= body.take(i as int));
        i = i + 1;
    }
    assert(body.take(i - 1) =~= body);
    out
}

/// What an archive entry is, by its name.
#[derive(Clone, Copy, PartialEq, Eq, Structural)]
pub enum EntryKind {
    /// A `desc` entry, holding the package's name.
    Metadata,
    /// A `files` entry, holding the package's file list.
    FileList,
    Other,
}

pub open spec fn entry_kind(name: Seq<char>) -> EntryKind {
    if ends_with(name, seq!['/', 'd', 'e', 's', 'c']) {
        EntryKind::Metadata
    } else if ends_with(name, seq!['/', 'f', 'i', 'l', 'e', 's']) {
        EntryKind::FileList
    } else {
        EntryKind::Other
    }
}

/// The directory of an entry: its name up to the first slash (all of it if none).
pub open spec fn entry_dir(name: Seq<char>) -> Seq<char> {
    let s = first_index_of(name, '/');
    if s >= 0 {
        name.subrange(0, s)
    } else {
        name
    }
}

/// One event of an archive stream.
pub enum ArchiveEvent {
    /// An entry, of this name, starts.
    EntryStart(String),
    /// The next bytes of the open entry.
    DataChunk(Vec<u8>),
    /// The open entry ends.
    EntryEnd,
    /// The archive could not be read further, for this cause.
    Error(String),
}

/// Why the extraction of an archive stops.
pub enum ExtractError {
    /// This metadata entry is not UTF-8.
    NotUtf8 { entry: String },
    /// This metadata entry has no line after a `%NAME%` line.
    Malformed { entry: String },
    /// The archive could not be read.
    Archive { cause: String },
}

pub enum ExtractErrorView {
    NotUtf8 { entry: Seq<char> },
    Malformed { entry: Seq<char> },
    Archive { cause: Seq<char> },
}

impl View for ExtractError {
    type V = ExtractErrorView;

    open spec fn view(&self) -> ExtractErrorView {
        match self {
            ExtractError::NotUtf8 { entry } => ExtractErrorView::NotUtf8 { entry: entry@ },
            ExtractError::Malformed { entry } => ExtractErrorView::Malformed { entry: entry@ },
            ExtractError::Archive { cause } => ExtractErrorView::Archive { cause: cause@ },
        }
    }
}

/// What one event yields.
pub enum Extracted {
    /// Nothing yet.
    Pending,
    /// A package's manifest: its archive directory, its name and its file list.
    Manifest { dir: String, pkgname: String, files: String },
    /// The file list of this package is not UTF-8: its files are left out.
    SkippedFiles { pkgname: String },
    /// Extraction stops.
    Failed(ExtractError),
}

pub enum ExtractedView {
    Pending,
    Manifest { dir: Seq<char>, pkgname: Seq<char>, files: Seq<char> },
    SkippedFiles { pkgname: Seq<char> },
    Failed(ExtractErrorView),
}

impl View for Extracted {
    type V = ExtractedView;

    open spec fn view(&self) -> ExtractedView {
        match self {
            Extracted::Pending => ExtractedView::Pending,
            Extracted::Manifest { dir, pkgname, files } => ExtractedView::Manifest {
                dir: dir@,
                pkgname: pkgname@,
                files: files@,
            },
            Extracted::SkippedFiles { pkgname } => ExtractedView::SkippedFiles { pkgname: pkgname@ },
            Extracted::Failed(e) => ExtractedView::Failed(e@),
        }
    }
}

/// The state of the extraction: the kind and name of the open entry, its bytes
/// so far, and the name of the package whose metadata came last.
pub struct ExtractorView {
    pub kind: EntryKind,
    pub entry: Seq<char>,
    pub buffer: Seq<u8>,
    pub pkgname: Seq<char>,
}

/// One transition of the extraction: from the state before an event, the state
/// after it and what the event yields.
///
/// - An entry's start records its kind and name and empties the buffer.
/// - A data chunk is kept only for a metadata or file-list entry.
/// - An entry's end decodes what was kept: a metadata entry gives the package
///   name (or stops the extraction when it is not UTF-8 or has no name); a
///   file-list entry gives the manifest of the package named last (or is
///   skipped when it is not UTF-8), and that name is used up.
/// - An error stops the extraction.
pub open spec fn extract_step(o: ExtractorView, ev: ArchiveEvent) -> (ExtractorView, ExtractedView) {
    match ev {
        ArchiveEvent::EntryStart(name) => (
            ExtractorView {
                kind: entry_kind(name@),
                entry: name@,
                buffer: Seq::empty(),
                pkgname: o.pkgname,
            },
            ExtractedView::Pending,
        ),
        ArchiveEvent::DataChunk(data) => (
            ExtractorView {
                buffer: if o.kind == EntryKind::Other {
                    o.buffer
                } else {
                    o.buffer + data@
                },
                ..o
            },
            ExtractedView::Pending,
        ),
        ArchiveEvent::EntryEnd => {
            let closed = ExtractorView { kind: EntryKind::Other, buffer: Seq::empty(), ..o };
            match o.kind {
                EntryKind::Other => (closed, ExtractedView::Pending),
                EntryKind::Metadata => if !valid_utf8(o.buffer) {
                    (closed, ExtractedView::Failed(ExtractErrorView::NotUtf8 { entry: o.entry }))
                } else {
                    match package_name_in(decode_utf8(o.buffer)) {
                        Some(n) => (ExtractorView { pkgname: n, ..closed }, ExtractedView::Pending),
                        None => (
                            closed,
                            ExtractedView::Failed(ExtractErrorView::Malformed { entry: o.entry }),
                        ),
                    }
                },
                EntryKind::FileList => (
                    ExtractorView { pkgname: Seq::empty(), ..closed },
                    if valid_utf8(o.buffer) {
                        ExtractedView::Manifest {
                            dir: entry_dir(o.entry),
                            pkgname: o.pkgname,
                            files: decode_utf8(o.buffer),
                        }
                    } else {
                        ExtractedView::SkippedFiles { pkgname: o.pkgname }
                    },
                ),
            }
        },
        ArchiveEvent::Error(cause) => (
            o,
            ExtractedView::Failed(ExtractErrorView::Archive { cause: cause@ }),
        ),
    }
}

/// The state of an extraction that has seen no event.
pub open spec fn initial_extractor() -> ExtractorView {
    ExtractorView {
        kind: EntryKind::Other,
        entry: Seq::empty(),
        buffer: Seq::empty(),
        pkgname: Seq::empty(),
    }
}

/// Turns archive events into package manifests.
pub struct ManifestExtractor {
    kind: EntryKind,
    entry: String,
    buffer: Vec<u8>,
    pkgname: String,
}

impl View for ManifestExtractor {
    type V = ExtractorView;

    closed spec fn view(&self) -> ExtractorView {
        ExtractorView {
            kind: self.kind,
            entry: self.entry@,
            buffer: self.buffer@,
            pkgname: self.pkgname@,
        }
    }
}

/// The directory part of an entry name.
fn dir_of(name: &Vec<char>) -> (r: String)
    ensures
        r@ == entry_dir(name@),
{
    assert(name@.subrange(0, name@.len() as int) =~= name@);
    match find_first(name, '/', name.len()) {
        Some(s) => string_range(name, 0, s),
        None => string_of(name.as_slice()),
    }
}

impl ManifestExtractor {
    pub fn new() -> (r: ManifestExtractor)
        ensures
            r@ == initial_extractor(),
    {
        ManifestExtractor {
            kind: EntryKind::Other,
            entry: String::new(),
            buffer: Vec::new(),
            pkgname: String::new(),
        }
    }

    /// Consumes one event.
    pub fn step(&mut self, ev: ArchiveEvent) -> (r: Extracted)
        ensures
            (final(self)@, r@) == extract_step(old(self)@, ev),
    {
        match ev {
            ArchiveEvent::EntryStart(name) => {
                let chars = chars_of(name.as_str());
                let desc: Vec<char> = vec!['/', 'd', 'e', 's', 'c'];
                let files: Vec<char> = vec!['/', 'f', 'i', 'l', 'e', 's'];
                assert(desc@ =~= seq!['/', 'd', 'e', 's', 'c']);
                assert(files@ =~= seq!['/', 'f', 'i', 'l', 'e', 's']);
                self.kind = if chars_end_with(&chars, &desc) {
                    EntryKind::Metadata
                } else if chars_end_with(&chars, &files) {
                    EntryKind::FileList
                } else {
                    EntryKind::Other
                };
                self.buffer = Vec::new();
                self.entry = name;
                Extracted::Pending
            },
            ArchiveEvent::DataChunk(data) => {
                if self.kind != EntryKind::Other {
                    let mut data = data;
                    self.buffer.append(&mut data);
                }
                Extracted::Pending
            },
            ArchiveEvent::EntryEnd => {
                let kind = self.kind;
                self.kind = EntryKind::Other;
                let mut data: Vec<u8> = Vec::new();
                std::mem::swap(&mut self.buffer, &mut data);
                match kind {
                    EntryKind::Other => Extracted::Pending,
                    EntryKind::Metadata => match utf8_string(data) {
                        None => Extracted::Failed(
                            ExtractError::NotUtf8 { entry: self.entry.clone() },
                        ),
                        Some(text) => match package_name(text.as_str()) {
                            Some(n) => {
                                self.pkgname = n;
                                Extracted::Pending
                            },
                            None => Extracted::Failed(
                                ExtractError::Malformed { entry: self.entry.clone() },
                            ),
                        },
                    },
                    EntryKind::FileList => {
                        let mut pkgname = String::new();
                        std::mem::swap(&mut self.pkgname, &mut pkgname);
                        match utf8_string(data) {
                            Some(files) => {
                                let dir = dir_of(&chars_of(self.entry.as_str()));
                                Extracted::Manifest { dir, pkgname, files }
                            },
                            None => Extracted::SkippedFiles { pkgname },
                        }
                    },
                }
            },
            ArchiveEvent::Error(cause) => Extracted::Failed(ExtractError::Archive { cause }),
        }
    }
}

} // verus!
