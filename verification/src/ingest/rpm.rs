//! Ingesting an RPM: its payload is turned into a tar stream by an external
//! extractor, and every regular file in it is fingerprinted and recorded
//! under the package it came with. Files that are archives themselves are
//! ingested in turn.
//!
//! Reading and hashing happen elsewhere; this module decides.

use crate::error::Error;
use crate::ingest::tar::{
    spec_tar_run, spec_tar_step, without_persist_nothing_is_kept, TarActionView, TarEventView,
    TarIngestView,
};
use crate::model::{ArtifactView, EntryKind, Ref, RefView};
use crate::store::{spec_finish_archive, spec_insert_ref};
use crate::text::{chars_end_with, starts_with, to_chars};
use vstd::prelude::*;

verus! {

/// How the bytes of an inner archive are packed.
#[derive(Clone, Copy, Debug, PartialEq, Eq, Structural)]
pub enum Compression {
    /// A bare tar stream.
    Plain,
    Gz,
    Xz,
    Bz2,
}

/// The program that turns a package payload into a tar stream.
pub fn extractor_program() -> (p: &'static str)
    ensures
        p@ == "bsdtar"@,
{
    "bsdtar"
}

/// The arguments of the extractor: write an archive to standard output,
/// with the members of the archive on standard input.
pub fn extractor_args() -> (a: [&'static str; 2])
    ensures
        a[0]@ == "-c"@,
        a[1]@ == "@-"@,
{
    ["-c", "@-"]
}

/// Whether `name` ends with `suffix`.
pub open spec fn has_suffix(name: Seq<char>, suffix: &str) -> bool {
    suffix@.is_suffix_of(name)
}

/// The packing that a file name announces, if it announces an archive:
/// `.tar.gz`, `.tgz` and `.crate` are gzip, `.tar.xz` is xz, `.tar.bz2` is
/// bzip2, `.tar` is a bare tar stream. Any other name is no archive.
pub open spec fn spec_classify(name: Seq<char>) -> Option<Compression> {
    if has_suffix(name, ".tar.gz") || has_suffix(name, ".tgz") || has_suffix(name, ".crate") {
        Some(Compression::Gz)
    } else if has_suffix(name, ".tar.xz") {
        Some(Compression::Xz)
    } else if has_suffix(name, ".tar.bz2") {
        Some(Compression::Bz2)
    } else if has_suffix(name, ".tar") {
        Some(Compression::Plain)
    } else {
        None
    }
}

/// Whether the contents of an archive of this name are left out of the
/// store: its digest is still taken and its reference still recorded.
pub open spec fn spec_denied(name: Seq<char>) -> bool {
    "chromium-"@.is_prefix_of(name)
}

fn name_ends_with(name: &Vec<char>, suffix: &str) -> (b: bool)
    ensures
        b == has_suffix(name@, suffix),
{
    let s = to_chars(suffix);
    chars_end_with(name, &s)
}

/// The packing that `filename` announces, if any.
pub fn classify(filename: &str) -> (c: Option<Compression>)
    ensures
        c == spec_classify(filename@),
{
    let name = to_chars(filename);
    if name_ends_with(&name, ".tar.gz") || name_ends_with(&name, ".tgz") || name_ends_with(
        &name,
        ".crate",
    ) {
        Some(Compression::Gz)
    } else if name_ends_with(&name, ".tar.xz") {
        Some(Compression::Xz)
    } else if name_ends_with(&name, ".tar.bz2") {
        Some(Compression::Bz2)
    } else if name_ends_with(&name, ".tar") {
        Some(Compression::Plain)
    } else {
        None
    }
}

/// Whether the contents of an archive named `filename` are left out of the
/// store.
pub fn denied(filename: &str) -> (b: bool)
    ensures
        b == spec_denied(filename@),
{
    starts_with(filename, "chromium-")
}

/// The package that is being ingested.
#[derive(Clone, Debug, PartialEq, Eq)]
pub struct Package {
    pub vendor: String,
    pub package: String,
    pub version: String,
}

/// Where the reader stands between two events.
#[derive(Clone, Debug, PartialEq, Eq)]
pub enum ReadState {
    /// Between entries.
    Idle,
    /// The body of the regular file of this name is being digested.
    Pending { filename: String },
}

/// What the stream or the digesting reported.
#[derive(Clone, Debug, PartialEq, Eq)]
pub enum ReadEvent {
    /// The header of the next entry: its kind, and the last component of
    /// its path where it has one that is text.
    Entry { kind: EntryKind, file_name: Option<String> },
    /// The sha256 of the pending body: of the inner tar stream where the
    /// file was ingested as an archive, of the file itself where not.
    Digest { sha256: String },
    /// The stream has ended.
    End,
}

/// What is to be done next.
#[derive(Clone, Debug, PartialEq, Eq)]
pub enum ReadAction {
    /// Pass over the entry and read the next one.
    Skip,
    /// Ingest the body as an archive packed this way; keep its contents in
    /// the store only where `persist` holds. Report the digest.
    Ingest { compression: Compression, persist: bool },
    /// Digest the body. Report the digest.
    Hash,
    /// Record the reference, then read the next entry.
    InsertRef(Ref),
    /// Nothing is left to do.
    Finish,
    /// The event cannot follow the state: the caller lost the sequence.
    Refuse,
}

/// The mathematical value of a [`ReadState`].
pub enum ReadStateView {
    Idle,
    Pending { filename: Seq<char> },
}

/// The mathematical value of a [`ReadEvent`].
pub enum ReadEventView {
    Entry { kind: EntryKind, file_name: Option<Seq<char>> },
    Digest { sha256: Seq<char> },
    End,
}

/// The mathematical value of a [`ReadAction`].
pub enum ReadActionView {
    Skip,
    Ingest { compression: Compression, persist: bool },
    Hash,
    InsertRef(RefView),
    Finish,
    Refuse,
}

/// The mathematical value of a [`Package`].
pub struct PackageView {
    pub vendor: Seq<char>,
    pub package: Seq<char>,
    pub version: Seq<char>,
}

impl View for Package {
    type V = PackageView;

    open spec fn view(&self) -> PackageView {
        PackageView { vendor: self.vendor@, package: self.package@, version: self.version@ }
    }
}

impl View for ReadState {
    type V = ReadStateView;

    open spec fn view(&self) -> ReadStateView {
        match self {
            ReadState::Idle => ReadStateView::Idle,
            ReadState::Pending { filename } => ReadStateView::Pending { filename: filename@ },
        }
    }
}

impl View for ReadEvent {
    type V = ReadEventView;

    open spec fn view(&self) -> ReadEventView {
        match self {
            ReadEvent::Entry { kind, file_name } => ReadEventView::Entry {
                kind: *kind,
                file_name: match file_name {
                    Some(f) => Some(f@),
                    None => None,
                },
            },
            ReadEvent::Digest { sha256 } => ReadEventView::Digest { sha256: sha256@ },
            ReadEvent::End => ReadEventView::End,
        }
    }
}

impl View for ReadAction {
    type V = ReadActionView;

    open spec fn view(&self) -> ReadActionView {
        match self {
            ReadAction::Skip => ReadActionView::Skip,
            ReadAction::Ingest { compression, persist } => ReadActionView::Ingest {
                compression: *compression,
                persist: *persist,
            },
            ReadAction::Hash => ReadActionView::Hash,
            ReadAction::InsertRef(r) => ReadActionView::InsertRef(r@),
            ReadAction::Finish => ReadActionView::Finish,
            ReadAction::Refuse => ReadActionView::Refuse,
        }
    }
}

/// The reference that records `sha256` as seen under `filename` in `pkg`.
pub open spec fn spec_entry_ref(pkg: PackageView, filename: Seq<char>, sha256: Seq<char>) -> RefView {
    RefView {
        chksum: sha256,
        vendor: pkg.vendor,
        package: pkg.package,
        version: pkg.version,
        filename: Some(filename),
    }
}

/// One step of reading a package.
///
/// Between entries: an entry that is no regular file, or has no file name,
/// is passed over. A regular file becomes pending; it is ingested as an
/// archive where its name announces one, and merely digested where not.
/// The end of the stream finishes the reading.
///
/// While a file is pending, its digest yields its reference, and the reader
/// is between entries again.
///
/// Any other event is refused and leaves the state as it was.
pub open spec fn spec_read_step(pkg: PackageView, state: ReadStateView, event: ReadEventView) -> (
    ReadStateView,
    ReadActionView,
) {
    match (state, event) {
        (ReadStateView::Idle, ReadEventView::Entry { kind, file_name }) => {
            if kind != EntryKind::Regular {
                (ReadStateView::Idle, ReadActionView::Skip)
            } else {
                match file_name {
                    None => (ReadStateView::Idle, ReadActionView::Skip),
                    Some(name) => (
                        ReadStateView::Pending { filename: name },
                        match spec_classify(name) {
                            Some(compression) => ReadActionView::Ingest {
                                compression,
                                persist: !spec_denied(name),
                            },
                            None => ReadActionView::Hash,
                        },
                    ),
                }
            }
        },
        (ReadStateView::Idle, ReadEventView::End) => (ReadStateView::Idle, ReadActionView::Finish),
        (ReadStateView::Pending { filename }, ReadEventView::Digest { sha256 }) => (
            ReadStateView::Idle,
            ReadActionView::InsertRef(spec_entry_ref(pkg, filename, sha256)),
        ),
        _ => (state, ReadActionView::Refuse),
    }
}

/// The last component of `path`, where it has one that is text.
///
/// Trusted: calls `std::path::Path::file_name`. Nothing is claimed of what
/// it gives.
#[verifier::external_body]
fn file_name(path: &str) -> (name: Option<String>) {
    std::path::Path::new(path).file_name().and_then(|n| n.to_str()).map(|n| n.to_owned())
}

/// The event that stands for the header of an entry of the kind `kind`
/// stored under `path`.
pub fn entry_event(kind: EntryKind, path: &str) -> (event: ReadEvent)
    ensures
        event matches ReadEvent::Entry { kind: k, .. } && k == kind,
{
    ReadEvent::Entry { kind, file_name: file_name(path) }
}

/// Decides what follows `event` in `state`, for the package `pkg`.
pub fn read_routine(pkg: &Package, state: ReadState, event: ReadEvent) -> (r: (
    ReadState,
    ReadAction,
))
    ensures
        (r.0@, r.1@) == spec_read_step(pkg@, state@, event@),
{
    match state {
        ReadState::Idle => match event {
            ReadEvent::Entry { kind, file_name } => {
                if kind != EntryKind::Regular {
                    return (ReadState::Idle, ReadAction::Skip);
                }
                match file_name {
                    None => (ReadState::Idle, ReadAction::Skip),
                    Some(name) => {
                        let action = match classify(name.as_str()) {
                            Some(compression) => ReadAction::Ingest {
                                compression,
                                persist: !denied(name.as_str()),
                            },
                            None => ReadAction::Hash,
                        };
                        (ReadState::Pending { filename: name }, action)
                    },
                }
            },
            ReadEvent::End => (ReadState::Idle, ReadAction::Finish),
            ReadEvent::Digest { sha256 } => (ReadState::Idle, ReadAction::Refuse),
        },
        ReadState::Pending { filename } => match event {
            ReadEvent::Digest { sha256 } => {
                let r = Ref {
                    chksum: sha256,
                    vendor: pkg.vendor.clone(),
                    package: pkg.package.clone(),
                    version: pkg.version.clone(),
                    filename: Some(filename),
                };
                (ReadState::Idle, ReadAction::InsertRef(r))
            },
            _ => (ReadState::Pending { filename }, ReadAction::Refuse),
        },
    }
}

/// A reference is asked for exactly when the digest of a pending file comes
/// in, and that ends the pending: no file is referenced twice.
pub proof fn one_ref_per_file(pkg: PackageView, state: ReadStateView, event: ReadEventView)
    ensures
        ({
            let (next, action) = spec_read_step(pkg, state, event);
            &&& action is InsertRef <==> state is Pending && event is Digest
            &&& action is InsertRef ==> next is Idle
        }),
{
}

/// An archive on the deny-list is digested and referenced, and its
/// contents are not kept: the reader asks for an ingest that keeps
/// nothing; such an ingest, whatever it reads, ends without asking for an
/// artifact, so that the artifacts stay as they were; and the digest it
/// reports is recorded as a reference under the archive's file name.
pub proof fn denied_archive_is_referenced_not_kept(
    pkg: PackageView,
    name: Seq<char>,
    events: Seq<TarEventView>,
    sha256: Seq<char>,
    artifacts: Seq<ArtifactView>,
    refs: Seq<RefView>,
    now: i64,
)
    requires
        spec_denied(name),
        spec_classify(name) is Some,
    ensures
        ({
            let opened = spec_read_step(
                pkg,
                ReadStateView::Idle,
                ReadEventView::Entry { kind: EntryKind::Regular, file_name: Some(name) },
            );
            let inner = spec_tar_run(
                TarIngestView { files: Seq::empty(), pending: None, persist: false },
                events,
            );
            let ended = spec_tar_step(inner, TarEventView::End { sha256 });
            let closed = spec_read_step(pkg, opened.0, ReadEventView::Digest { sha256 });
            let r = spec_entry_ref(pkg, name, sha256);
            &&& opened.1 == (ReadActionView::Ingest {
                compression: spec_classify(name)->0,
                persist: false,
            })
            &&& ended.1 matches TarActionView::Finish { summary, upsert } ==> !upsert
                && spec_finish_archive(artifacts, summary, upsert, now) == artifacts
            &&& closed.1 == ReadActionView::InsertRef(r)
            &&& spec_insert_ref(refs, r).contains(r)
        }),
{
    without_persist_nothing_is_kept(
        TarIngestView { files: Seq::empty(), pending: None, persist: false },
        events,
        TarEventView::End { sha256 },
    );
    let r = spec_entry_ref(pkg, name, sha256);
    if !refs.contains(r) {
        assert(refs.push(r)[refs.len() as int] == r);
    }
}

/// How the three parts of a decompression level ended: copying the source
/// into the extractor, the extractor itself, and the reading of what the
/// extractor wrote.
///
/// A failed copy comes first, then a failed wait. An extractor that ended
/// with anything but exit code 0 is reported as such whatever the reader
/// made of its output. Only then does the reader's own result count.
pub open spec fn spec_stream_outcome(
    written: Result<u64, Error>,
    exit: Result<Option<i32>, Error>,
    read: Result<(), Error>,
) -> Result<(), Error> {
    match written {
        Err(e) => Err(e),
        Ok(_) => match exit {
            Err(e) => Err(e),
            Ok(code) => if code != Some(0i32) {
                Err(Error::ChildExit(code))
            } else {
                read
            },
        },
    }
}

/// Joins the results of the three parts of a decompression level into the
/// result of the level.
pub fn stream_data(
    written: Result<u64, Error>,
    exit: Result<Option<i32>, Error>,
    read: Result<(), Error>,
) -> (r: Result<(), Error>)
    ensures
        r == spec_stream_outcome(written, exit, read),
{
    match written {
        Err(e) => Err(e),
        Ok(_) => match exit {
            Err(e) => Err(e),
            Ok(code) => {
                let success = match code {
                    Some(c) => c == 0,
                    None => false,
                };
                if !success {
                    Err(Error::ChildExit(code))
                } else {
                    read
                }
            },
        },
    }
}

} // verus!
