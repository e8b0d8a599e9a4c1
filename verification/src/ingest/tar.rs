//! Ingesting a tar stream: every member is recorded in the order it comes,
//! regular files with the digest of their body, links with their target.
//! At the end of the stream the list is handed over under the digest of
//! the whole stream.
//!
//! Reading and hashing happen elsewhere; this module decides.

use crate::error::Error;
use crate::ingest::rpm::Compression;
use crate::model::{
    entries_view, Entry, EntryKind, EntryView, LinkView, LinksTo, Summary, SummaryView,
};
use vstd::prelude::*;

verus! {

/// The program that unpacks a stream packed as `compression`: it reads the
/// packed bytes on standard input and writes the tar stream to standard
/// output. A bare tar stream needs none.
pub fn decompressor_program(compression: Compression) -> (p: Option<&'static str>)
    ensures
        match compression {
            Compression::Plain => p is None,
            Compression::Gz => p matches Some(s) && s@ == "gzip"@,
            Compression::Xz => p matches Some(s) && s@ == "xz"@,
            Compression::Bz2 => p matches Some(s) && s@ == "bzip2"@,
        },
{
    match compression {
        Compression::Plain => None,
        Compression::Gz => Some("gzip"),
        Compression::Xz => Some("xz"),
        Compression::Bz2 => Some("bzip2"),
    }
}

/// The arguments of every decompressor: unpack, to standard output.
pub fn decompressor_args() -> (a: [&'static str; 1])
    ensures
        a[0]@ == "-dc"@,
{
    ["-dc"]
}

/// The list that an ingest has gathered so far.
#[derive(Clone, Debug, PartialEq, Eq)]
pub struct TarIngest {
    /// The entries recorded, in archive order.
    pub files: Vec<Entry>,
    /// The path of the regular file whose body is being digested.
    pub pending: Option<String>,
    /// Whether the list is to be kept in the store at the end.
    pub persist: bool,
}

/// What the stream or the digesting reported.
#[derive(Clone, Debug, PartialEq, Eq)]
pub enum TarEvent {
    /// The header of the next member.
    Entry { kind: EntryKind, path: String, link_target: Option<String> },
    /// The digest of the pending body.
    Body { sha256: String },
    /// The stream has ended; this is the digest of all of it.
    End { sha256: String },
}

/// What is to be done next.
#[derive(Clone, Debug, PartialEq, Eq)]
pub enum TarAction {
    /// Read the next member.
    Next,
    /// Digest the body of the member. Report the digest.
    Hash,
    /// Hand the summary to the caller; before that, where `upsert` holds,
    /// record an artifact under the summary's digest with the summary's
    /// entries.
    Finish { summary: Summary, upsert: bool },
    /// Give up on the archive.
    Fail(Error),
    /// The event cannot follow the state: the caller lost the sequence.
    Refuse,
}

/// The mathematical value of a [`TarIngest`].
pub struct TarIngestView {
    pub files: Seq<EntryView>,
    pub pending: Option<Seq<char>>,
    pub persist: bool,
}

/// The mathematical value of a [`TarEvent`].
pub enum TarEventView {
    Entry { kind: EntryKind, path: Seq<char>, link_target: Option<Seq<char>> },
    Body { sha256: Seq<char> },
    End { sha256: Seq<char> },
}

/// The mathematical value of a [`TarAction`]. A failure is always that of
/// a malformed input, and names the path of the member that is at fault.
pub enum TarActionView {
    Next,
    Hash,
    Finish { summary: SummaryView, upsert: bool },
    Fail,
    Refuse,
}

impl View for TarIngest {
    type V = TarIngestView;

    open spec fn view(&self) -> TarIngestView {
        TarIngestView {
            files: entries_view(self.files@),
            pending: match self.pending {
                Some(p) => Some(p@),
                None => None,
            },
            persist: self.persist,
        }
    }
}

impl View for TarEvent {
    type V = TarEventView;

    open spec fn view(&self) -> TarEventView {
        match self {
            TarEvent::Entry { kind, path, link_target } => TarEventView::Entry {
                kind: *kind,
                path: path@,
                link_target: match link_target {
                    Some(t) => Some(t@),
                    None => None,
                },
            },
            TarEvent::Body { sha256 } => TarEventView::Body { sha256: sha256@ },
            TarEvent::End { sha256 } => TarEventView::End { sha256: sha256@ },
        }
    }
}

impl View for TarAction {
    type V = TarActionView;

    open spec fn view(&self) -> TarActionView {
        match self {
            TarAction::Next => TarActionView::Next,
            TarAction::Hash => TarActionView::Hash,
            TarAction::Finish { summary, upsert } => TarActionView::Finish {
                summary: summary@,
                upsert: *upsert,
            },
            TarAction::Fail(_) => TarActionView::Fail,
            TarAction::Refuse => TarActionView::Refuse,
        }
    }
}

/// The entry of a member that has no body to digest, if it gets one: a
/// directory is recorded bare, a link with its target. Other kinds are not
/// recorded, and neither is a link whose header names no target.
pub open spec fn spec_bodiless_entry(
    kind: EntryKind,
    path: Seq<char>,
    link_target: Option<Seq<char>>,
) -> Option<EntryView> {
    match kind {
        EntryKind::Directory => Some(EntryView { path, digest: None, links_to: None }),
        EntryKind::Symlink => match link_target {
            Some(t) => Some(EntryView { path, digest: None, links_to: Some(LinkView::Symbolic(t)) }),
            None => None,
        },
        EntryKind::Hardlink => match link_target {
            Some(t) => Some(EntryView { path, digest: None, links_to: Some(LinkView::Hard(t)) }),
            None => None,
        },
        _ => None,
    }
}

/// The entry of a regular file: its path and the digest of its body.
pub open spec fn spec_file_entry(path: Seq<char>, sha256: Seq<char>) -> EntryView {
    EntryView { path, digest: Some(sha256), links_to: None }
}

/// One step of ingesting a tar stream.
///
/// Between members: a regular file becomes pending and its body is to be
/// digested; a directory or a link is recorded at the end of the list; a
/// link without a target fails the archive; any other kind is passed over.
/// The end of the stream hands the list over under the stream's digest and
/// leaves an empty list behind.
///
/// While a file is pending, the digest of its body records the file at the
/// end of the list.
///
/// Any other event is refused and leaves the state as it was.
pub open spec fn spec_tar_step(state: TarIngestView, event: TarEventView) -> (
    TarIngestView,
    TarActionView,
) {
    match (state.pending, event) {
        (None, TarEventView::Entry { kind, path, link_target }) => {
            if kind == EntryKind::Regular {
                (
                    TarIngestView { files: state.files, pending: Some(path), persist: state.persist },
                    TarActionView::Hash,
                )
            } else if kind == EntryKind::Other {
                (state, TarActionView::Next)
            } else {
                match spec_bodiless_entry(kind, path, link_target) {
                    Some(e) => (
                        TarIngestView {
                            files: state.files.push(e),
                            pending: None,
                            persist: state.persist,
                        },
                        TarActionView::Next,
                    ),
                    None => (state, TarActionView::Fail),
                }
            }
        },
        (Some(path), TarEventView::Body { sha256 }) => (
            TarIngestView {
                files: state.files.push(spec_file_entry(path, sha256)),
                pending: None,
                persist: state.persist,
            },
            TarActionView::Next,
        ),
        (None, TarEventView::End { sha256 }) => (
            TarIngestView { files: Seq::empty(), pending: None, persist: state.persist },
            TarActionView::Finish {
                summary: SummaryView { sha256, files: state.files },
                upsert: state.persist,
            },
        ),
        _ => (state, TarActionView::Refuse),
    }
}

/// The state after a run of events.
pub open spec fn spec_tar_run(state: TarIngestView, events: Seq<TarEventView>) -> TarIngestView
    decreases events.len(),
{
    if events.len() == 0 {
        state
    } else {
        spec_tar_step(spec_tar_run(state, events.drop_last()), events.last()).0
    }
}

impl TarIngest {
    /// An ingest that has read nothing yet. With `persist`, the list is
    /// kept in the store at the end; without, the stream is only digested.
    pub fn new(persist: bool) -> (s: TarIngest)
        ensures
            s@ == (TarIngestView { files: Seq::empty(), pending: None, persist }),
    {
        let s = TarIngest { files: Vec::new(), pending: None, persist };
        assert(entries_view(s.files@) == Seq::<EntryView>::empty());
        s
    }

    fn record(self, e: Entry) -> (r: (TarIngest, TarAction))
        requires
            self.pending is None,
        ensures
            r.0@ == (TarIngestView {
                files: self@.files.push(e@),
                pending: None,
                persist: self.persist,
            }),
            r.1 == TarAction::Next,
    {
        let TarIngest { files, pending, persist } = self;
        let mut files = files;
        let ghost before = entries_view(files@);
        files.push(e);
        assert(entries_view(files@) == before.push(e@));
        (TarIngest { files, pending: None, persist }, TarAction::Next)
    }
}

/// Decides what follows `event` in `state`.
pub fn stream_data(state: TarIngest, event: TarEvent) -> (r: (TarIngest, TarAction))
    ensures
        (r.0@, r.1@) == spec_tar_step(state@, event@),
        r.1 matches TarAction::Fail(e) ==> e matches Error::InputMalformed(what)
            && event matches TarEvent::Entry { path, .. } && what@ == path@,
{
    if state.pending.is_some() {
        return match event {
            TarEvent::Body { sha256 } => {
                let TarIngest { files, pending, persist } = state;
                let path = pending.unwrap();
                let e = Entry { path, digest: Some(sha256), links_to: None };
                (TarIngest { files, pending: None, persist }).record(e)
            },
            _ => (state, TarAction::Refuse),
        };
    }
    match event {
        TarEvent::Entry { kind, path, link_target } => match kind {
            EntryKind::Regular => {
                let TarIngest { files, pending, persist } = state;
                (TarIngest { files, pending: Some(path), persist }, TarAction::Hash)
            },
            EntryKind::Directory => state.record(Entry { path, digest: None, links_to: None }),
            EntryKind::Symlink => match link_target {
                Some(t) => state.record(
                    Entry { path, digest: None, links_to: Some(LinksTo::Symbolic(t)) },
                ),
                None => (state, TarAction::Fail(Error::InputMalformed(path))),
            },
            EntryKind::Hardlink => match link_target {
                Some(t) => state.record(
                    Entry { path, digest: None, links_to: Some(LinksTo::Hard(t)) },
                ),
                None => (state, TarAction::Fail(Error::InputMalformed(path))),
            },
            EntryKind::Other => (state, TarAction::Next),
        },
        TarEvent::End { sha256 } => {
            let TarIngest { files, pending, persist } = state;
            let rest = TarIngest { files: Vec::new(), pending: None, persist };
            assert(entries_view(rest.files@) == Seq::<EntryView>::empty());
            (rest, TarAction::Finish { summary: Summary { sha256, files }, upsert: persist })
        },
        TarEvent::Body { sha256 } => (state, TarAction::Refuse),
    }
}

/// The digest under which an archive is handed over is the digest reported
/// for its stream, and the entries handed over are those gathered, as they
/// were gathered.
pub proof fn summary_is_of_the_stream(state: TarIngestView, sha256: Seq<char>)
    requires
        state.pending is None,
    ensures
        spec_tar_step(state, TarEventView::End { sha256 }).1 == (TarActionView::Finish {
            summary: SummaryView { sha256, files: state.files },
            upsert: state.persist,
        }),
{
}

/// A regular file is recorded with the digest reported for its body, under
/// the path of its header.
pub proof fn file_digest_is_of_the_body(
    state: TarIngestView,
    path: Seq<char>,
    link_target: Option<Seq<char>>,
    sha256: Seq<char>,
)
    requires
        state.pending is None,
    ensures
        ({
            let opened = spec_tar_step(
                state,
                TarEventView::Entry { kind: EntryKind::Regular, path, link_target },
            );
            let closed = spec_tar_step(opened.0, TarEventView::Body { sha256 });
            &&& opened.1 == TarActionView::Hash
            &&& closed.0.files == state.files.push(spec_file_entry(path, sha256))
            &&& closed.0.files.last().digest == Some(sha256)
        }),
{
}

/// Until the stream ends, a step leaves what was recorded where it was: it
/// adds at most one entry, at the end.
pub proof fn step_keeps_order(state: TarIngestView, event: TarEventView)
    requires
        !(event is End),
    ensures
        ({
            let next = spec_tar_step(state, event).0;
            next.files == state.files || (next.files.len() == state.files.len() + 1
                && next.files.drop_last() == state.files)
        }),
{
    let next = spec_tar_step(state, event).0;
    if next.files != state.files {
        assert(next.files.drop_last() == state.files);
    }
}

/// Over any run of events before the end of the stream, what was recorded
/// first stays first: the list at the start is the beginning of the list
/// after the run.
pub proof fn run_keeps_order(state: TarIngestView, events: Seq<TarEventView>)
    requires
        forall|i: int| 0 <= i < events.len() ==> !((#[trigger] events[i]) is End),
    ensures
        state.files.is_prefix_of(spec_tar_run(state, events).files),
    decreases events.len(),
{
    if events.len() == 0 {
        assert(state.files.is_prefix_of(state.files));
    } else {
        let before = events.drop_last();
        assert forall|i: int| 0 <= i < before.len() implies !((#[trigger] before[i]) is End) by {
            assert(before[i] == events[i]);
        }
        run_keeps_order(state, before);
        let mid = spec_tar_run(state, before);
        step_keeps_order(mid, events.last());
        let after = spec_tar_run(state, events);
        assert(after == spec_tar_step(mid, events.last()).0);
        if after.files != mid.files {
            assert(after.files.drop_last() == mid.files);
            assert(state.files.is_prefix_of(after.files)) by {
                assert(after.files.subrange(0, state.files.len() as int) == mid.files.subrange(
                    0,
                    state.files.len() as int,
                ));
            }
        }
    }
}

/// An ingest that is not to keep its list never asks for an artifact to be
/// recorded, whatever it reads.
pub proof fn without_persist_nothing_is_kept(
    state: TarIngestView,
    events: Seq<TarEventView>,
    last: TarEventView,
)
    requires
        !state.persist,
    ensures
        !spec_tar_run(state, events).persist,
        spec_tar_step(spec_tar_run(state, events), last).1 matches TarActionView::Finish {
            upsert,
            ..
        } ==> !upsert,
    decreases events.len(),
{
    if events.len() > 0 {
        without_persist_nothing_is_kept(state, events.drop_last(), events.last());
    }
}

/// Every entry that a step records is a file with a digest, a link with a
/// target, or a bare directory: never a digest and a link at once.
pub proof fn recorded_entries_are_well_formed(state: TarIngestView, event: TarEventView)
    requires
        forall|i: int| 0 <= i < state.files.len() ==> (#[trigger] state.files[i]).wf(),
    ensures
        ({
            let next = spec_tar_step(state, event).0;
            forall|i: int| 0 <= i < next.files.len() ==> (#[trigger] next.files[i]).wf()
        }),
{
}

} // verus!
