//! What recording the same things again does to the records: nothing but
//! moving the time of the last import.

use crate::model::{ArtifactView, EntryView, RefView};
use crate::store::{
    artifact_index, artifact_index_from, spec_insert_ref, spec_upsert_artifact, StoreView,
};
use vstd::prelude::*;

verus! {

/// One thing that an ingest hands to the record keeper.
pub enum Record {
    /// A reference to record.
    Ref(RefView),
    /// The entries of the archive stream with the digest `chksum`.
    Artifact { chksum: Seq<char>, files: Seq<EntryView> },
}

/// The records after taking in `rec` at the time `now`.
pub open spec fn spec_record(store: StoreView, rec: Record, now: i64) -> StoreView {
    match rec {
        Record::Ref(r) => StoreView {
            refs: spec_insert_ref(store.refs, r),
            artifacts: store.artifacts,
            aliases: store.aliases,
        },
        Record::Artifact { chksum, files } => StoreView {
            refs: store.refs,
            artifacts: spec_upsert_artifact(store.artifacts, chksum, files, now),
            aliases: store.aliases,
        },
    }
}

/// The records after taking in all of `recs`, in order, at the time `now`.
pub open spec fn spec_record_all(store: StoreView, recs: Seq<Record>, now: i64) -> StoreView
    decreases recs.len(),
{
    if recs.len() == 0 {
        store
    } else {
        spec_record(spec_record_all(store, recs.drop_last(), now), recs.last(), now)
    }
}

/// Whether two lists of artifacts differ in nothing but the times of the
/// last import.
pub open spec fn same_but_for_import_time(a: Seq<ArtifactView>, b: Seq<ArtifactView>) -> bool {
    &&& a.len() == b.len()
    &&& forall|i: int|
        0 <= i < a.len() ==> {
            &&& (#[trigger] a[i]).chksum == b[i].chksum
            &&& a[i].first_seen == b[i].first_seen
            &&& a[i].files == b[i].files
        }
}

/// The entries that the last artifact of `recs` under `chksum` carries, if
/// `recs` holds an artifact under that digest.
pub open spec fn last_files(recs: Seq<Record>, chksum: Seq<char>) -> Option<Seq<EntryView>>
    decreases recs.len(),
{
    if recs.len() == 0 {
        None
    } else {
        match recs.last() {
            Record::Artifact { chksum: c, files } => if c == chksum {
                Some(files)
            } else {
                last_files(recs.drop_last(), chksum)
            },
            Record::Ref(_) => last_files(recs.drop_last(), chksum),
        }
    }
}

/// Recording a reference a second time changes nothing.
pub proof fn insert_ref_is_idempotent(refs: Seq<RefView>, r: RefView)
    ensures
        spec_insert_ref(spec_insert_ref(refs, r), r) == spec_insert_ref(refs, r),
{
    if !refs.contains(r) {
        assert(refs.push(r)[refs.len() as int] == r);
    }
}

/// What is found under a digest is recorded under that digest, and nothing
/// before it is.
pub proof fn index_is_first_match(artifacts: Seq<ArtifactView>, chksum: Seq<char>, from: int)
    requires
        0 <= from,
    ensures
        match artifact_index_from(artifacts, chksum, from) {
            Some(i) => from <= i < artifacts.len() && artifacts[i].chksum == chksum && forall|k: int|
                from <= k < i ==> (#[trigger] artifacts[k]).chksum != chksum,
            None => forall|k: int|
                from <= k < artifacts.len() ==> (#[trigger] artifacts[k]).chksum != chksum,
        },
    decreases artifacts.len() - from,
{
    if from < artifacts.len() && artifacts[from].chksum != chksum {
        index_is_first_match(artifacts, chksum, from + 1);
    }
}

/// Where an artifact is found depends on the digests alone.
pub proof fn index_follows_digests(
    a: Seq<ArtifactView>,
    b: Seq<ArtifactView>,
    chksum: Seq<char>,
    from: int,
)
    requires
        0 <= from,
        a.len() == b.len(),
        forall|i: int| 0 <= i < a.len() ==> (#[trigger] a[i]).chksum == b[i].chksum,
    ensures
        artifact_index_from(a, chksum, from) == artifact_index_from(b, chksum, from),
    decreases a.len() - from,
{
    if from < a.len() {
        assert(a[from].chksum == b[from].chksum);
        if a[from].chksum != chksum {
            index_follows_digests(a, b, chksum, from + 1);
        }
    }
}

/// After its entries were recorded, an artifact is found, with those
/// entries.
pub proof fn upsert_is_found(
    artifacts: Seq<ArtifactView>,
    chksum: Seq<char>,
    files: Seq<EntryView>,
    now: i64,
)
    ensures
        ({
            let after = spec_upsert_artifact(artifacts, chksum, files, now);
            &&& artifact_index(after, chksum) matches Some(k)
            &&& 0 <= k < after.len()
            &&& after[k].files == Some(files)
            &&& after[k].last_imported == now
        }),
{
    let after = spec_upsert_artifact(artifacts, chksum, files, now);
    index_is_first_match(artifacts, chksum, 0);
    index_is_first_match(after, chksum, 0);
    match artifact_index(artifacts, chksum) {
        Some(i) => {
            assert(after[i].chksum == chksum);
            assert forall|k: int| 0 <= k < i implies (#[trigger] after[k]).chksum != chksum by {
                assert(after[k] == artifacts[k]);
            }
        },
        None => {
            let n = artifacts.len() as int;
            assert(after[n].chksum == chksum);
            assert forall|k: int| 0 <= k < n implies (#[trigger] after[k]).chksum != chksum by {
                assert(after[k] == artifacts[k]);
            }
        },
    }
}

/// Recording entries under one digest leaves the artifact of any other
/// digest where and as it was.
pub proof fn upsert_leaves_others(
    artifacts: Seq<ArtifactView>,
    chksum: Seq<char>,
    files: Seq<EntryView>,
    now: i64,
    other: Seq<char>,
)
    requires
        other != chksum,
        artifact_index(artifacts, other) is Some,
    ensures
        ({
            let after = spec_upsert_artifact(artifacts, chksum, files, now);
            let k = artifact_index(artifacts, other)->0;
            &&& artifact_index(after, other) == Some(k)
            &&& 0 <= k < artifacts.len() <= after.len()
            &&& after[k] == artifacts[k]
        }),
{
    let after = spec_upsert_artifact(artifacts, chksum, files, now);
    let k = artifact_index(artifacts, other)->0;
    index_is_first_match(artifacts, other, 0);
    index_is_first_match(artifacts, chksum, 0);
    index_is_first_match(after, other, 0);
    assert(after[k] == artifacts[k]);
    assert(forall|i: int| 0 <= i < k ==> (#[trigger] after[i]).chksum == artifacts[i].chksum);
}

/// Recording entries that are recorded already, under the same digest,
/// changes nothing but the artifact's time of last import.
pub proof fn upsert_again_changes_time_only(
    artifacts: Seq<ArtifactView>,
    chksum: Seq<char>,
    files: Seq<EntryView>,
    now: i64,
)
    requires
        artifact_index(artifacts, chksum) matches Some(k) && artifacts[k].files == Some(files),
    ensures
        same_but_for_import_time(artifacts, spec_upsert_artifact(artifacts, chksum, files, now)),
{
    index_is_first_match(artifacts, chksum, 0);
}

/// After a run of records, every reference of the run is recorded, and
/// every artifact of the run is found, with the entries that the run
/// recorded last under its digest.
pub proof fn run_is_recorded(store: StoreView, recs: Seq<Record>, now: i64, i: int)
    requires
        0 <= i < recs.len(),
    ensures
        ({
            let after = spec_record_all(store, recs, now);
            match recs[i] {
                Record::Ref(r) => after.refs.contains(r),
                Record::Artifact { chksum, files } => {
                    &&& artifact_index(after.artifacts, chksum) matches Some(k)
                    &&& 0 <= k < after.artifacts.len()
                    &&& last_files(recs, chksum) is Some
                    &&& after.artifacts[k].files == last_files(recs, chksum)
                },
            }
        }),
    decreases recs.len(),
{
    let init = recs.drop_last();
    let mid = spec_record_all(store, init, now);
    let after = spec_record_all(store, recs, now);
    let last = recs.last();
    assert(after == spec_record(mid, last, now));
    if i == recs.len() - 1 {
        assert(recs[i] == last);
        match last {
            Record::Ref(r) => {
                if !mid.refs.contains(r) {
                    assert(mid.refs.push(r)[mid.refs.len() as int] == r);
                }
                assert(after.refs.contains(r));
            },
            Record::Artifact { chksum, files } => {
                upsert_is_found(mid.artifacts, chksum, files, now);
            },
        }
    } else {
        assert(init[i] == recs[i]);
        run_is_recorded(store, init, now, i);
        match recs[i] {
            Record::Ref(r) => {
                assert(mid.refs.contains(r));
                if let Record::Ref(r2) = last {
                    if !mid.refs.contains(r2) {
                        let k = choose|k: int| 0 <= k < mid.refs.len() && mid.refs[k] == r;
                        assert(mid.refs.push(r2)[k] == r);
                    }
                } else {
                    assert(after.refs == mid.refs);
                }
                assert(after.refs.contains(r));
            },
            Record::Artifact { chksum, files } => {
                if let Record::Artifact { chksum: c2, files: f2 } = last {
                    if c2 == chksum {
                        upsert_is_found(mid.artifacts, c2, f2, now);
                    } else {
                        upsert_leaves_others(mid.artifacts, c2, f2, now, chksum);
                    }
                } else {
                    assert(after.artifacts == mid.artifacts);
                }
            },
        }
    }
}

/// Whether every reference of `recs` is recorded in `store` and every
/// artifact of `recs` is found there.
pub open spec fn is_covered(store: StoreView, recs: Seq<Record>) -> bool {
    forall|i: int|
        0 <= i < recs.len() ==> match #[trigger] recs[i] {
            Record::Ref(r) => store.refs.contains(r),
            Record::Artifact { chksum, files } => artifact_index(store.artifacts, chksum) is Some,
        }
}

/// The entries of the artifact at the place `k` after `recs` were taken in
/// by a store that covered them: those recorded last under its digest,
/// where it is the artifact found under that digest and `recs` holds one;
/// those it had, where not.
pub open spec fn files_after(artifacts: Seq<ArtifactView>, recs: Seq<Record>, k: int) -> Option<
    Seq<EntryView>,
> {
    if artifact_index(artifacts, artifacts[k].chksum) == Some(k) {
        match last_files(recs, artifacts[k].chksum) {
            Some(files) => Some(files),
            None => artifacts[k].files,
        }
    } else {
        artifacts[k].files
    }
}

/// Taking in what a store covers adds no reference and no artifact, and
/// leaves every artifact its digest and the time it was first seen; the
/// entries of an artifact become those recorded last under its digest.
pub proof fn covered_run_adds_nothing(once: StoreView, recs: Seq<Record>, n: int, now: i64)
    requires
        0 <= n <= recs.len(),
        is_covered(once, recs),
    ensures
        ({
            let again = spec_record_all(once, recs.take(n), now);
            &&& again.refs == once.refs
            &&& again.aliases == once.aliases
            &&& again.artifacts.len() == once.artifacts.len()
            &&& forall|k: int|
                0 <= k < once.artifacts.len() ==> {
                    &&& (#[trigger] again.artifacts[k]).chksum == once.artifacts[k].chksum
                    &&& again.artifacts[k].first_seen == once.artifacts[k].first_seen
                    &&& again.artifacts[k].files == files_after(once.artifacts, recs.take(n), k)
                }
        }),
    decreases n,
{
    let part = recs.take(n);
    let again = spec_record_all(once, part, now);
    if n > 0 {
        let init = recs.take(n - 1);
        assert(part.drop_last() == init);
        assert(part.last() == recs[n - 1]);
        covered_run_adds_nothing(once, recs, n - 1, now);
        let mid = spec_record_all(once, init, now);
        assert(again == spec_record(mid, recs[n - 1], now));
        match recs[n - 1] {
            Record::Ref(r) => {
                assert forall|k: int| 0 <= k < once.artifacts.len() implies files_after(
                    once.artifacts,
                    part,
                    k,
                ) == files_after(once.artifacts, init, k) by {}
            },
            Record::Artifact { chksum, files } => {
                index_follows_digests(once.artifacts, mid.artifacts, chksum, 0);
                index_is_first_match(once.artifacts, chksum, 0);
                let at = artifact_index(once.artifacts, chksum)->0;
                assert forall|k: int| 0 <= k < once.artifacts.len() implies {
                    &&& (#[trigger] again.artifacts[k]).chksum == once.artifacts[k].chksum
                    &&& again.artifacts[k].first_seen == once.artifacts[k].first_seen
                    &&& again.artifacts[k].files == files_after(once.artifacts, part, k)
                } by {
                    assert(mid.artifacts[k].chksum == once.artifacts[k].chksum);
                    if k != at {
                        assert(again.artifacts[k] == mid.artifacts[k]);
                        if once.artifacts[k].chksum == chksum {
                            index_is_first_match(once.artifacts, once.artifacts[k].chksum, 0);
                        }
                    }
                }
            },
        }
    } else {
        assert(part.len() == 0);
        assert forall|k: int| 0 <= k < once.artifacts.len() implies (
        #[trigger] again.artifacts[k]).files == files_after(once.artifacts, part, k) by {}
    }
}

/// Ingesting the same thing again records no new reference and leaves the
/// digest, the entries and the time first seen of every artifact as they
/// were: only times of last import move.
pub proof fn replay_changes_time_only(store: StoreView, recs: Seq<Record>, first: i64, second: i64)
    ensures
        ({
            let once = spec_record_all(store, recs, first);
            let twice = spec_record_all(once, recs, second);
            &&& twice.refs == once.refs
            &&& twice.aliases == once.aliases
            &&& same_but_for_import_time(once.artifacts, twice.artifacts)
        }),
{
    let once = spec_record_all(store, recs, first);
    let twice = spec_record_all(once, recs, second);
    assert(is_covered(once, recs)) by {
        assert forall|i: int| 0 <= i < recs.len() implies match #[trigger] recs[i] {
            Record::Ref(r) => once.refs.contains(r),
            Record::Artifact { chksum, files } => artifact_index(once.artifacts, chksum) is Some,
        } by {
            run_is_recorded(store, recs, first, i);
        }
    }
    covered_run_adds_nothing(once, recs, recs.len() as int, second);
    assert(recs.take(recs.len() as int) == recs);
    assert forall|k: int| 0 <= k < once.artifacts.len() implies (#[trigger] once.artifacts[k]).files
        == twice.artifacts[k].files by {
        let c = once.artifacts[k].chksum;
        if artifact_index(once.artifacts, c) == Some(k) && last_files(recs, c) is Some {
            last_files_is_in(recs, c);
            let i = choose|i: int| 0 <= i < recs.len() && is_artifact_of(#[trigger] recs[i], c);
            run_is_recorded(store, recs, first, i);
        }
    }
}

/// Whether `rec` is an artifact under `chksum`.
spec fn is_artifact_of(rec: Record, chksum: Seq<char>) -> bool {
    rec matches Record::Artifact { chksum: found, .. } && found == chksum
}

/// Where `recs` holds entries under a digest, it holds an artifact under
/// that digest.
proof fn last_files_is_in(recs: Seq<Record>, chksum: Seq<char>)
    requires
        last_files(recs, chksum) is Some,
    ensures
        exists|i: int| 0 <= i < recs.len() && is_artifact_of(#[trigger] recs[i], chksum),
    decreases recs.len(),
{
    let n = recs.len() - 1;
    if is_artifact_of(recs[n], chksum) {
    } else {
        let init = recs.drop_last();
        last_files_is_in(init, chksum);
        let i = choose|i: int| 0 <= i < init.len() && is_artifact_of(#[trigger] init[i], chksum);
        assert(recs[i] == init[i]);
    }
}

} // verus!
