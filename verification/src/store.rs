//! The record keeper: references, artifacts and aliases, each kept once
//! under its natural key, and the lookups of the read side.
//!
//! [`Store`] keeps everything in memory, in the order it was first
//! recorded. Its contracts say what any keeper of these records owes.

pub mod replay;

use crate::model::{
    duplicate_entries, entries_view, Alias, AliasView, Artifact, ArtifactView, Entry, EntryView,
    Ref, RefView, Summary, SummaryView,
};
use crate::text::{chars_start_with, to_chars};
use crate::web::search::{search_pattern, spec_search_pattern};
use vstd::prelude::*;

verus! {

/// The mathematical value of a [`Store`].
pub struct StoreView {
    pub refs: Seq<RefView>,
    pub artifacts: Seq<ArtifactView>,
    pub aliases: Seq<AliasView>,
}

/// The records kept.
#[derive(Clone, Debug, PartialEq, Eq)]
pub struct Store {
    pub refs: Vec<Ref>,
    pub artifacts: Vec<Artifact>,
    pub aliases: Vec<Alias>,
}

/// The values of a list of references.
pub open spec fn refs_view(refs: Seq<Ref>) -> Seq<RefView> {
    refs.map_values(|r: Ref| r@)
}

/// The values of a list of artifacts.
pub open spec fn artifacts_view(artifacts: Seq<Artifact>) -> Seq<ArtifactView> {
    artifacts.map_values(|a: Artifact| a@)
}

/// The values of a list of aliases.
pub open spec fn aliases_view(aliases: Seq<Alias>) -> Seq<AliasView> {
    aliases.map_values(|a: Alias| a@)
}

impl View for Store {
    type V = StoreView;

    open spec fn view(&self) -> StoreView {
        StoreView {
            refs: refs_view(self.refs@),
            artifacts: artifacts_view(self.artifacts@),
            aliases: aliases_view(self.aliases@),
        }
    }
}

/// The place of the first artifact at or after `from` that is recorded
/// under `chksum`.
pub open spec fn artifact_index_from(artifacts: Seq<ArtifactView>, chksum: Seq<char>, from: int) -> Option<
    int,
>
    decreases artifacts.len() - from,
{
    if from < 0 || from >= artifacts.len() {
        None
    } else if artifacts[from].chksum == chksum {
        Some(from)
    } else {
        artifact_index_from(artifacts, chksum, from + 1)
    }
}

/// The place of the artifact recorded under `chksum`, if there is one.
pub open spec fn artifact_index(artifacts: Seq<ArtifactView>, chksum: Seq<char>) -> Option<int> {
    artifact_index_from(artifacts, chksum, 0)
}

/// The place of the first alias at or after `from` that is recorded for
/// `chksum`.
pub open spec fn alias_index_from(aliases: Seq<AliasView>, chksum: Seq<char>, from: int) -> Option<
    int,
>
    decreases aliases.len() - from,
{
    if from < 0 || from >= aliases.len() {
        None
    } else if aliases[from].chksum == chksum {
        Some(from)
    } else {
        alias_index_from(aliases, chksum, from + 1)
    }
}

/// The place of the alias recorded for `chksum`, if there is one.
pub open spec fn alias_index(aliases: Seq<AliasView>, chksum: Seq<char>) -> Option<int> {
    alias_index_from(aliases, chksum, 0)
}

/// The references after recording `r`: a reference that is there already
/// is not recorded again.
pub open spec fn spec_insert_ref(refs: Seq<RefView>, r: RefView) -> Seq<RefView> {
    if refs.contains(r) {
        refs
    } else {
        refs.push(r)
    }
}

/// The artifacts after recording `files` under `chksum` at the time `now`.
/// A new artifact was first seen now; a known one keeps the time it was
/// first seen. Either way it was last imported now, and its entries are
/// `files`.
pub open spec fn spec_upsert_artifact(
    artifacts: Seq<ArtifactView>,
    chksum: Seq<char>,
    files: Seq<EntryView>,
    now: i64,
) -> Seq<ArtifactView> {
    match artifact_index(artifacts, chksum) {
        Some(i) => artifacts.update(
            i,
            ArtifactView {
                chksum,
                first_seen: artifacts[i].first_seen,
                last_imported: now,
                files: Some(files),
            },
        ),
        None => artifacts.push(
            ArtifactView { chksum, first_seen: now, last_imported: now, files: Some(files) },
        ),
    }
}

/// The aliases after pointing `chksum` at `alias_to`.
pub open spec fn spec_upsert_alias(aliases: Seq<AliasView>, chksum: Seq<char>, alias_to: Seq<char>) -> Seq<
    AliasView,
> {
    match alias_index(aliases, chksum) {
        Some(i) => aliases.update(i, AliasView { chksum, alias_to }),
        None => aliases.push(AliasView { chksum, alias_to }),
    }
}

/// The artifact recorded under `chksum`.
pub open spec fn spec_get_artifact(artifacts: Seq<ArtifactView>, chksum: Seq<char>) -> Option<
    ArtifactView,
> {
    match artifact_index(artifacts, chksum) {
        Some(i) => Some(artifacts[i]),
        None => None,
    }
}

/// The alias recorded for `chksum`.
pub open spec fn spec_get_alias(aliases: Seq<AliasView>, chksum: Seq<char>) -> Option<AliasView> {
    match alias_index(aliases, chksum) {
        Some(i) => Some(aliases[i]),
        None => None,
    }
}

/// The artifact that `chksum` stands for: the one that its alias points
/// to where it has an alias, the one recorded under it where not. One
/// alias is followed, never a second.
pub open spec fn spec_resolve(store: StoreView, chksum: Seq<char>) -> Option<ArtifactView> {
    match spec_get_alias(store.aliases, chksum) {
        Some(a) => spec_get_artifact(store.artifacts, a.alias_to),
        None => spec_get_artifact(store.artifacts, chksum),
    }
}

/// The artifacts after an archive was ingested: its entries are recorded
/// under the digest of its stream where `upsert` holds, and nothing is
/// recorded where not.
pub open spec fn spec_finish_archive(
    artifacts: Seq<ArtifactView>,
    summary: SummaryView,
    upsert: bool,
    now: i64,
) -> Seq<ArtifactView> {
    if upsert {
        spec_upsert_artifact(artifacts, summary.sha256, summary.files, now)
    } else {
        artifacts
    }
}

/// The test for pointing at `chksum`.
pub open spec fn points_at(chksum: Seq<char>) -> spec_fn(RefView) -> bool {
    |r: RefView| r.chksum == chksum
}

/// The references that point at `chksum`, in the order they were recorded.
pub open spec fn spec_refs_for(refs: Seq<RefView>, chksum: Seq<char>) -> Seq<RefView> {
    refs.filter(points_at(chksum))
}

/// The test for a package name that begins with `prefix`.
pub open spec fn package_begins(prefix: Seq<char>) -> spec_fn(RefView) -> bool {
    |r: RefView| prefix.is_prefix_of(r.package)
}

/// The first `limit` of `found`.
pub open spec fn up_to(found: Seq<RefView>, limit: nat) -> Seq<RefView> {
    if found.len() <= limit {
        found
    } else {
        found.take(limit as int)
    }
}

/// The references whose package name matches `pattern`, a text that ends
/// in the wildcard `%`: those whose name begins with the text before it,
/// in the order they were recorded, `limit` at most.
pub open spec fn spec_search(refs: Seq<RefView>, pattern: Seq<char>, limit: nat) -> Seq<RefView> {
    up_to(refs.filter(package_begins(pattern.drop_last())), limit)
}

fn same_option(a: &Option<String>, b: &Option<String>) -> (r: bool)
    ensures
        r == (match (*a, *b) {
            (Some(x), Some(y)) => x@ == y@,
            (None, None) => true,
            _ => false,
        }),
{
    match (a, b) {
        (Some(x), Some(y)) => *x == *y,
        (None, None) => true,
        _ => false,
    }
}

fn same_ref(a: &Ref, b: &Ref) -> (r: bool)
    ensures
        r == (a@ == b@),
{
    a.chksum == b.chksum && a.vendor == b.vendor && a.package == b.package && a.version
        == b.version && same_option(&a.filename, &b.filename)
}

impl Store {
    /// A store without records.
    pub fn new() -> (s: Store)
        ensures
            s@ == (StoreView { refs: Seq::empty(), artifacts: Seq::empty(), aliases: Seq::empty() }),
    {
        let s = Store { refs: Vec::new(), artifacts: Vec::new(), aliases: Vec::new() };
        assert(s@.refs == Seq::<RefView>::empty());
        assert(s@.artifacts == Seq::<ArtifactView>::empty());
        assert(s@.aliases == Seq::<AliasView>::empty());
        s
    }

    /// Records `r`, unless it is recorded already.
    pub fn insert_ref(&mut self, r: Ref)
        ensures
            final(self)@.refs == spec_insert_ref(old(self)@.refs, r@),
            final(self)@.artifacts == old(self)@.artifacts,
            final(self)@.aliases == old(self)@.aliases,
    {
        let ghost before = refs_view(self.refs@);
        let mut i: usize = 0;
        while i < self.refs.len()
            invariant
                i <= self.refs.len(),
                *self == *old(self),
                before == refs_view(self.refs@),
                forall|k: int| 0 <= k < i ==> before[k] != r@,
            decreases self.refs.len() - i,
        {
            if same_ref(&self.refs[i], &r) {
                assert(before[i as int] == r@);
                return ;
            }
            i += 1;
        }
        assert(!before.contains(r@));
        self.refs.push(r);
        assert(refs_view(self.refs@) == before.push(r@));
    }

    fn find_artifact(&self, chksum: &str) -> (found: Option<usize>)
        ensures
            match found {
                Some(i) => artifact_index(self@.artifacts, chksum@) == Some(i as int) && i
                    < self.artifacts@.len(),
                None => artifact_index(self@.artifacts, chksum@) is None,
            },
    {
        let ghost arts = artifacts_view(self.artifacts@);
        let wanted = to_chars(chksum);
        let mut i: usize = 0;
        while i < self.artifacts.len()
            invariant
                i <= self.artifacts.len(),
                arts == artifacts_view(self.artifacts@),
                wanted@ == chksum@,
                artifact_index(arts, chksum@) == artifact_index_from(arts, chksum@, i as int),
            decreases self.artifacts.len() - i,
        {
            assert(arts[i as int].chksum == self.artifacts@[i as int].chksum@);
            if crate::text::spells(&wanted, self.artifacts[i].chksum.as_str()) {
                return Some(i);
            }
            i += 1;
        }
        None
    }

    fn find_alias(&self, chksum: &str) -> (found: Option<usize>)
        ensures
            match found {
                Some(i) => alias_index(self@.aliases, chksum@) == Some(i as int) && i
                    < self.aliases@.len(),
                None => alias_index(self@.aliases, chksum@) is None,
            },
    {
        let ghost all = aliases_view(self.aliases@);
        let wanted = to_chars(chksum);
        let mut i: usize = 0;
        while i < self.aliases.len()
            invariant
                i <= self.aliases.len(),
                all == aliases_view(self.aliases@),
                wanted@ == chksum@,
                alias_index(all, chksum@) == alias_index_from(all, chksum@, i as int),
            decreases self.aliases.len() - i,
        {
            assert(all[i as int].chksum == self.aliases@[i as int].chksum@);
            if crate::text::spells(&wanted, self.aliases[i].chksum.as_str()) {
                return Some(i);
            }
            i += 1;
        }
        None
    }

    /// Records `files` as the entries of the artifact `chksum`, seen at
    /// the time `now`.
    pub fn upsert_artifact(&mut self, chksum: &str, files: Vec<Entry>, now: i64)
        ensures
            final(self)@.artifacts == spec_upsert_artifact(
                old(self)@.artifacts,
                chksum@,
                entries_view(files@),
                now,
            ),
            final(self)@.refs == old(self)@.refs,
            final(self)@.aliases == old(self)@.aliases,
    {
        let ghost before = artifacts_view(self.artifacts@);
        match self.find_artifact(chksum) {
            Some(i) => {
                let first_seen = self.artifacts[i].first_seen;
                let a = Artifact {
                    chksum: chksum.to_owned(),
                    first_seen,
                    last_imported: now,
                    files: Some(files),
                };
                self.artifacts.set(i, a);
                assert(artifacts_view(self.artifacts@) == before.update(i as int, a@));
            },
            None => {
                let a = Artifact {
                    chksum: chksum.to_owned(),
                    first_seen: now,
                    last_imported: now,
                    files: Some(files),
                };
                self.artifacts.push(a);
                assert(artifacts_view(self.artifacts@) == before.push(a@));
            },
        }
    }

    /// Takes in what the ingest of an archive ended with, at the time
    /// `now`.
    pub fn finish_archive(&mut self, summary: &Summary, upsert: bool, now: i64)
        ensures
            final(self)@.artifacts == spec_finish_archive(
                old(self)@.artifacts,
                summary@,
                upsert,
                now,
            ),
            final(self)@.refs == old(self)@.refs,
            final(self)@.aliases == old(self)@.aliases,
    {
        if upsert {
            let files = duplicate_entries(&summary.files);
            self.upsert_artifact(summary.sha256.as_str(), files, now);
        }
    }

    /// Points the digest `chksum` at the artifact recorded under
    /// `alias_to`.
    pub fn upsert_alias(&mut self, chksum: &str, alias_to: &str)
        ensures
            final(self)@.aliases == spec_upsert_alias(old(self)@.aliases, chksum@, alias_to@),
            final(self)@.refs == old(self)@.refs,
            final(self)@.artifacts == old(self)@.artifacts,
    {
        let ghost before = aliases_view(self.aliases@);
        let a = Alias { chksum: chksum.to_owned(), alias_to: alias_to.to_owned() };
        match self.find_alias(chksum) {
            Some(i) => {
                self.aliases.set(i, a);
                assert(aliases_view(self.aliases@) == before.update(i as int, a@));
            },
            None => {
                self.aliases.push(a);
                assert(aliases_view(self.aliases@) == before.push(a@));
            },
        }
    }

    /// The artifact recorded under `chksum`.
    pub fn get_artifact(&self, chksum: &str) -> (found: Option<Artifact>)
        ensures
            match found {
                Some(a) => spec_get_artifact(self@.artifacts, chksum@) == Some(a@),
                None => spec_get_artifact(self@.artifacts, chksum@) is None,
            },
    {
        match self.find_artifact(chksum) {
            Some(i) => Some(self.artifacts[i].duplicate()),
            None => None,
        }
    }

    /// The alias recorded for `chksum`.
    pub fn get_artifact_alias(&self, chksum: &str) -> (found: Option<Alias>)
        ensures
            match found {
                Some(a) => spec_get_alias(self@.aliases, chksum@) == Some(a@),
                None => spec_get_alias(self@.aliases, chksum@) is None,
            },
    {
        match self.find_alias(chksum) {
            Some(i) => Some(
                Alias {
                    chksum: self.aliases[i].chksum.clone(),
                    alias_to: self.aliases[i].alias_to.clone(),
                },
            ),
            None => None,
        }
    }

    /// The artifact that `chksum` stands for, through its alias where it
    /// has one.
    pub fn resolve_artifact(&self, chksum: &str) -> (found: Option<Artifact>)
        ensures
            match found {
                Some(a) => spec_resolve(self@, chksum@) == Some(a@),
                None => spec_resolve(self@, chksum@) is None,
            },
    {
        match self.get_artifact_alias(chksum) {
            Some(alias) => self.get_artifact(alias.alias_to.as_str()),
            None => self.get_artifact(chksum),
        }
    }

    /// The references that point at `chksum`.
    pub fn get_all_refs_for(&self, chksum: &str) -> (found: Vec<Ref>)
        ensures
            refs_view(found@) == spec_refs_for(self@.refs, chksum@),
    {
        let ghost all = refs_view(self.refs@);
        let wanted = to_chars(chksum);
        let mut found: Vec<Ref> = Vec::new();
        let mut i: usize = 0;
        proof {
            assert(all.take(0) == Seq::<RefView>::empty());
            all.take(0).lemma_filter_len(points_at(chksum@));
        }
        while i < self.refs.len()
            invariant
                i <= self.refs.len(),
                all == refs_view(self.refs@),
                wanted@ == chksum@,
                refs_view(found@) == all.take(i as int).filter(points_at(chksum@)),
            decreases self.refs.len() - i,
        {
            let ghost before = refs_view(found@);
            proof {
                all.take(i as int).lemma_filter_push(all[i as int], points_at(chksum@));
                assert(all.take(i + 1) == all.take(i as int).push(all[i as int]));
            }
            if crate::text::spells(&wanted, self.refs[i].chksum.as_str()) {
                found.push(self.refs[i].duplicate());
                assert(refs_view(found@) == before.push(all[i as int]));
            }
            i += 1;
        }
        assert(all.take(self.refs@.len() as int) == all);
        found
    }

    /// The references whose package name begins with what the visitor
    /// typed, wildcards in it left aside: `limit` at most, the earliest
    /// recorded first.
    pub fn search(&self, q: &str, limit: usize) -> (found: Vec<Ref>)
        ensures
            refs_view(found@) == spec_search(self@.refs, spec_search_pattern(q@), limit as nat),
    {
        let ghost all = refs_view(self.refs@);
        let pattern = search_pattern(q);
        let pchars = to_chars(pattern.as_str());
        let mut prefix: Vec<char> = Vec::new();
        let mut k: usize = 0;
        while k + 1 < pchars.len()
            invariant
                k < pchars.len(),
                prefix@ == pchars@.take(k as int),
            decreases pchars.len() - k,
        {
            prefix.push(pchars[k]);
            assert(pchars@.take(k + 1) == pchars@.take(k as int).push(pchars@[k as int]));
            k += 1;
        }
        assert(pchars@.take(pchars@.len() - 1) == pchars@.drop_last());
        let ghost test = package_begins(prefix@);
        let mut found: Vec<Ref> = Vec::new();
        let mut i: usize = 0;
        proof {
            assert(all.take(0) == Seq::<RefView>::empty());
            all.take(0).lemma_filter_len(test);
        }
        while i < self.refs.len() && found.len() < limit
            invariant
                i <= self.refs.len(),
                all == refs_view(self.refs@),
                test == package_begins(prefix@),
                found@.len() <= limit,
                refs_view(found@) == all.take(i as int).filter(test),
            decreases self.refs.len() - i,
        {
            let ghost before = refs_view(found@);
            proof {
                all.take(i as int).lemma_filter_push(all[i as int], test);
                assert(all.take(i + 1) == all.take(i as int).push(all[i as int]));
            }
            let name = to_chars(self.refs[i].package.as_str());
            if chars_start_with(&name, &prefix) {
                found.push(self.refs[i].duplicate());
                assert(refs_view(found@) == before.push(all[i as int]));
            }
            i += 1;
        }
        proof {
            let whole = all.filter(test);
            let part = all.take(i as int).filter(test);
            assert(all == all.take(i as int) + all.skip(i as int));
            Seq::filter_distributes_over_add(all.take(i as int), all.skip(i as int), test);
            assert(whole == part + all.skip(i as int).filter(test));
            if i as int == all.len() {
                assert(all.take(i as int) == all);
            } else {
                assert(part.len() == limit);
                assert(whole.take(limit as int) == part);
            }
        }
        found
    }
}

} // verus!
