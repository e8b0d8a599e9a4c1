//! The records kept about archives: entries, artifacts, references, aliases.

use vstd::prelude::*;

verus! {

/// The kind of an archive member, as its header declares it.
#[derive(Clone, Copy, Debug, PartialEq, Eq, Structural)]
pub enum EntryKind {
    Regular,
    Directory,
    Symlink,
    Hardlink,
    /// Devices, fifos, extension headers and whatever else a header may name.
    Other,
}

/// What a link entry points at.
#[derive(Clone, Debug, PartialEq, Eq)]
pub enum LinksTo {
    /// A symbolic link and its target as stored in the archive.
    Symbolic(String),
    /// A hard link and the archive path it names.
    Hard(String),
}

/// The mathematical value of a [`LinksTo`].
pub enum LinkView {
    Symbolic(Seq<char>),
    Hard(Seq<char>),
}

impl View for LinksTo {
    type V = LinkView;

    open spec fn view(&self) -> LinkView {
        match self {
            LinksTo::Symbolic(t) => LinkView::Symbolic(t@),
            LinksTo::Hard(t) => LinkView::Hard(t@),
        }
    }
}

impl LinksTo {
    /// A copy with the same target.
    pub fn duplicate(&self) -> (r: LinksTo)
        ensures
            r@ == self@,
    {
        match self {
            LinksTo::Symbolic(t) => LinksTo::Symbolic(t.clone()),
            LinksTo::Hard(t) => LinksTo::Hard(t.clone()),
        }
    }
}

/// One member of an archive.
///
/// A regular file carries a digest and no link; a directory carries neither;
/// a link carries its target and no digest.
#[derive(Clone, Debug, PartialEq, Eq)]
pub struct Entry {
    /// The path exactly as the archive stores it.
    pub path: String,
    /// `sha256:` and the lowercase hex digest of the body, for regular files.
    pub digest: Option<String>,
    /// The link target, for link entries.
    pub links_to: Option<LinksTo>,
}

/// The mathematical value of an [`Entry`].
pub struct EntryView {
    pub path: Seq<char>,
    pub digest: Option<Seq<char>>,
    pub links_to: Option<LinkView>,
}

impl View for Entry {
    type V = EntryView;

    open spec fn view(&self) -> EntryView {
        EntryView {
            path: self.path@,
            digest: match self.digest {
                Some(d) => Some(d@),
                None => None,
            },
            links_to: match self.links_to {
                Some(l) => Some(l@),
                None => None,
            },
        }
    }
}

impl EntryView {
    /// No entry is both a file with a digest and a link.
    pub open spec fn wf(self) -> bool {
        !(self.digest is Some && self.links_to is Some)
    }
}

impl Entry {
    /// A copy with the same path, digest and link.
    pub fn duplicate(&self) -> (r: Entry)
        ensures
            r@ == self@,
    {
        Entry {
            path: self.path.clone(),
            digest: match &self.digest {
                Some(d) => Some(d.clone()),
                None => None,
            },
            links_to: match &self.links_to {
                Some(l) => Some(l.duplicate()),
                None => None,
            },
        }
    }
}

/// The values of a list of entries, in order.
pub open spec fn entries_view(files: Seq<Entry>) -> Seq<EntryView> {
    files.map_values(|e: Entry| e@)
}

/// A copy of `files` with the same entries in the same order.
pub fn duplicate_entries(files: &Vec<Entry>) -> (r: Vec<Entry>)
    ensures
        entries_view(r@) == entries_view(files@),
{
    let mut r: Vec<Entry> = Vec::new();
    let mut i: usize = 0;
    while i < files.len()
        invariant
            i <= files.len(),
            entries_view(r@) == entries_view(files@).take(i as int),
        decreases files.len() - i,
    {
        let ghost before = entries_view(r@);
        r.push(files[i].duplicate());
        assert(entries_view(r@) == before.push(files@[i as int]@));
        assert(entries_view(files@).take(i + 1) == entries_view(files@).take(i as int).push(
            files@[i as int]@,
        ));
        i += 1;
    }
    assert(entries_view(files@).take(files@.len() as int) == entries_view(files@));
    r
}

/// The record of one decompressed archive stream, named by its digest.
#[derive(Clone, Debug, PartialEq, Eq)]
pub struct Artifact {
    /// Lowercase hex sha256 of the decompressed stream.
    pub chksum: String,
    /// When the stream was first recorded, in seconds since the epoch.
    pub first_seen: i64,
    /// When the stream was last recorded, in seconds since the epoch.
    pub last_imported: i64,
    /// The members of the archive in archive order, where they were kept.
    pub files: Option<Vec<Entry>>,
}

/// The mathematical value of an [`Artifact`].
pub struct ArtifactView {
    pub chksum: Seq<char>,
    pub first_seen: i64,
    pub last_imported: i64,
    pub files: Option<Seq<EntryView>>,
}

impl View for Artifact {
    type V = ArtifactView;

    open spec fn view(&self) -> ArtifactView {
        ArtifactView {
            chksum: self.chksum@,
            first_seen: self.first_seen,
            last_imported: self.last_imported,
            files: match self.files {
                Some(files) => Some(entries_view(files@)),
                None => None,
            },
        }
    }
}

impl Artifact {
    /// A copy with the same digest, times and entries.
    pub fn duplicate(&self) -> (r: Artifact)
        ensures
            r@ == self@,
    {
        let files = match &self.files {
            Some(list) => Some(duplicate_entries(list)),
            None => None,
        };
        Artifact {
            chksum: self.chksum.clone(),
            first_seen: self.first_seen,
            last_imported: self.last_imported,
            files,
        }
    }

    /// The values of the entries; empty where none were kept.
    pub open spec fn files_view(&self) -> Seq<EntryView> {
        match self.files {
            Some(files) => entries_view(files@),
            None => Seq::empty(),
        }
    }
}

/// What ingesting one archive stream gave: the digest of the stream and the
/// entries read from it, in archive order.
#[derive(Clone, Debug, PartialEq, Eq)]
pub struct Summary {
    /// The sha256 of the decompressed stream.
    pub sha256: String,
    pub files: Vec<Entry>,
}

/// The mathematical value of a [`Summary`].
pub struct SummaryView {
    pub sha256: Seq<char>,
    pub files: Seq<EntryView>,
}

impl View for Summary {
    type V = SummaryView;

    open spec fn view(&self) -> SummaryView {
        SummaryView { sha256: self.sha256@, files: entries_view(self.files@) }
    }
}

/// An observation: a digest seen under a file name in one version of a
/// vendor's package.
#[derive(Clone, Debug, PartialEq, Eq)]
pub struct Ref {
    pub chksum: String,
    pub vendor: String,
    pub package: String,
    pub version: String,
    pub filename: Option<String>,
}

/// The mathematical value of a [`Ref`].
pub struct RefView {
    pub chksum: Seq<char>,
    pub vendor: Seq<char>,
    pub package: Seq<char>,
    pub version: Seq<char>,
    pub filename: Option<Seq<char>>,
}

impl View for Ref {
    type V = RefView;

    open spec fn view(&self) -> RefView {
        RefView {
            chksum: self.chksum@,
            vendor: self.vendor@,
            package: self.package@,
            version: self.version@,
            filename: match self.filename {
                Some(f) => Some(f@),
                None => None,
            },
        }
    }
}

impl Ref {
    /// A copy with the same fields.
    pub fn duplicate(&self) -> (r: Ref)
        ensures
            r@ == self@,
    {
        Ref {
            chksum: self.chksum.clone(),
            vendor: self.vendor.clone(),
            package: self.package.clone(),
            version: self.version.clone(),
            filename: match &self.filename {
                Some(f) => Some(f.clone()),
                None => None,
            },
        }
    }
}

/// A redirection from one digest to the artifact recorded under another.
#[derive(Clone, Debug, PartialEq, Eq)]
pub struct Alias {
    pub chksum: String,
    pub alias_to: String,
}

/// The mathematical value of an [`Alias`].
pub struct AliasView {
    pub chksum: Seq<char>,
    pub alias_to: Seq<char>,
}

impl View for Alias {
    type V = AliasView;

    open spec fn view(&self) -> AliasView {
        AliasView { chksum: self.chksum@, alias_to: self.alias_to@ }
    }
}

} // verus!
