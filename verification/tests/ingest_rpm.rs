use archive_ledger::digest::digest_bytes;
use archive_ledger::error::Error;
use archive_ledger::ingest::rpm::{
    classify, denied, entry_event, extractor_args, extractor_program, read_routine, stream_data,
    Compression, Package, ReadAction, ReadEvent, ReadState,
};
use archive_ledger::ingest::tar::{stream_data as tar_step, TarAction, TarEvent, TarIngest};
use archive_ledger::model::{Entry, EntryKind, Ref};
use archive_ledger::store::Store;

fn pkg() -> Package {
    Package {
        vendor: "fedora".to_string(),
        package: "cmatrix".to_string(),
        version: "2.0-1".to_string(),
    }
}

fn entry(kind: EntryKind, name: Option<&str>) -> ReadEvent {
    ReadEvent::Entry { kind, file_name: name.map(|n| n.to_string()) }
}

#[test]
fn classify_follows_the_suffix_table() {
    assert_eq!(classify("cmatrix-2.0.tar.gz"), Some(Compression::Gz));
    assert_eq!(classify("cmatrix-2.0.tgz"), Some(Compression::Gz));
    assert_eq!(classify("serde-1.0.0.crate"), Some(Compression::Gz));
    assert_eq!(classify("linux-6.1.tar.xz"), Some(Compression::Xz));
    assert_eq!(classify("bzip2-1.0.8.tar.bz2"), Some(Compression::Bz2));
    assert_eq!(classify("plain.tar"), Some(Compression::Plain));
    assert_eq!(classify("cmatrix.spec"), None);
    assert_eq!(classify("fix.patch"), None);
    assert_eq!(classify(""), None);
}

#[test]
fn classify_reads_the_end_of_the_name_only() {
    assert_eq!(classify("a.tar.gz.sig"), None);
    assert_eq!(classify(".tar.gz"), Some(Compression::Gz));
    assert_eq!(classify("tar.gz"), None);
    assert_eq!(classify("x.TAR.GZ"), None);
    assert_eq!(classify("x.tar.xz.tar"), Some(Compression::Plain));
}

#[test]
fn deny_list_goes_by_prefix() {
    assert!(denied("chromium-120.0.tar.xz"));
    assert!(denied("chromium-"));
    assert!(!denied("chromium"));
    assert!(!denied("ungoogled-chromium-1.tar.xz"));
    assert!(!denied(""));
}

#[test]
fn extractor_is_bsdtar_reading_names_from_stdin() {
    assert_eq!(extractor_program(), "bsdtar");
    assert_eq!(extractor_args(), ["-c", "@-"]);
}

#[test]
fn entry_event_takes_the_last_component() {
    assert_eq!(
        entry_event(EntryKind::Regular, "./SOURCES/cmatrix-2.0.tar.gz"),
        ReadEvent::Entry {
            kind: EntryKind::Regular,
            file_name: Some("cmatrix-2.0.tar.gz".to_string()),
        }
    );
    assert_eq!(
        entry_event(EntryKind::Directory, "dir/.."),
        ReadEvent::Entry { kind: EntryKind::Directory, file_name: None }
    );
}

#[test]
fn reader_passes_over_what_is_no_regular_file() {
    for kind in [EntryKind::Directory, EntryKind::Symlink, EntryKind::Hardlink, EntryKind::Other] {
        let (state, action) = read_routine(&pkg(), ReadState::Idle, entry(kind, Some("x.tar.gz")));
        assert_eq!(state, ReadState::Idle);
        assert_eq!(action, ReadAction::Skip);
    }
}

#[test]
fn reader_passes_over_an_entry_without_a_name() {
    let (state, action) = read_routine(&pkg(), ReadState::Idle, entry(EntryKind::Regular, None));
    assert_eq!(state, ReadState::Idle);
    assert_eq!(action, ReadAction::Skip);
}

#[test]
fn reader_ingests_an_archive_and_records_its_reference() {
    let (state, action) =
        read_routine(&pkg(), ReadState::Idle, entry(EntryKind::Regular, Some("cmatrix-2.0.tar.gz")));
    assert_eq!(state, ReadState::Pending { filename: "cmatrix-2.0.tar.gz".to_string() });
    assert_eq!(action, ReadAction::Ingest { compression: Compression::Gz, persist: true });

    let (state, action) =
        read_routine(&pkg(), state, ReadEvent::Digest { sha256: "sha256:aa".to_string() });
    assert_eq!(state, ReadState::Idle);
    assert_eq!(
        action,
        ReadAction::InsertRef(Ref {
            chksum: "sha256:aa".to_string(),
            vendor: "fedora".to_string(),
            package: "cmatrix".to_string(),
            version: "2.0-1".to_string(),
            filename: Some("cmatrix-2.0.tar.gz".to_string()),
        })
    );
}

#[test]
fn reader_hashes_a_file_that_is_no_archive() {
    let (state, action) =
        read_routine(&pkg(), ReadState::Idle, entry(EntryKind::Regular, Some("cmatrix.spec")));
    assert_eq!(state, ReadState::Pending { filename: "cmatrix.spec".to_string() });
    assert_eq!(action, ReadAction::Hash);
}

#[test]
fn reader_finishes_at_the_end_of_the_stream() {
    let (state, action) = read_routine(&pkg(), ReadState::Idle, ReadEvent::End);
    assert_eq!(state, ReadState::Idle);
    assert_eq!(action, ReadAction::Finish);
}

#[test]
fn reader_refuses_events_out_of_sequence() {
    let (state, action) =
        read_routine(&pkg(), ReadState::Idle, ReadEvent::Digest { sha256: "x".to_string() });
    assert_eq!(state, ReadState::Idle);
    assert_eq!(action, ReadAction::Refuse);

    let pending = ReadState::Pending { filename: "a.tar".to_string() };
    let (state, action) = read_routine(&pkg(), pending.clone(), ReadEvent::End);
    assert_eq!(state, pending);
    assert_eq!(action, ReadAction::Refuse);

    let (state, action) =
        read_routine(&pkg(), pending.clone(), entry(EntryKind::Regular, Some("b.tar")));
    assert_eq!(state, pending);
    assert_eq!(action, ReadAction::Refuse);
}

#[test]
fn subprocess_failure_is_child_exit() {
    assert_eq!(stream_data(Ok(512), Ok(Some(2)), Ok(())), Err(Error::ChildExit(Some(2))));
}

#[test]
fn level_succeeds_when_all_three_parts_do() {
    assert_eq!(stream_data(Ok(0), Ok(Some(0)), Ok(())), Ok(()));
}

#[test]
fn level_reports_failures_in_their_order() {
    let copy = Error::Io("broken pipe".to_string());
    let wait = Error::Io("wait failed".to_string());
    let read = Error::InputMalformed("bad header".to_string());
    assert_eq!(
        stream_data(Err(copy.clone()), Err(wait.clone()), Err(read.clone())),
        Err(copy.clone())
    );
    assert_eq!(stream_data(Err(copy.clone()), Ok(Some(1)), Ok(())), Err(copy));
    assert_eq!(stream_data(Ok(1), Err(wait.clone()), Err(read.clone())), Err(wait));
    assert_eq!(stream_data(Ok(1), Ok(Some(1)), Err(read.clone())), Err(Error::ChildExit(Some(1))));
    assert_eq!(stream_data(Ok(1), Ok(None), Ok(())), Err(Error::ChildExit(None)));
    assert_eq!(stream_data(Ok(1), Ok(Some(0)), Err(read.clone())), Err(read));
    assert_eq!(stream_data(Ok(1), Ok(Some(-1)), Ok(())), Err(Error::ChildExit(Some(-1))));
}

#[test]
fn reader_failure_of_any_kind_is_the_level_failure() {
    let kinds = [
        Error::InputMalformed("truncated".to_string()),
        Error::ChildExit(Some(3)),
        Error::Io("reset".to_string()),
        Error::Task("cancelled".to_string()),
        Error::Db("deadlock".to_string()),
        Error::NotFound,
        Error::TemplateRender("missing".to_string()),
        Error::SerdeDecode("eof".to_string()),
    ];
    for kind in kinds {
        assert_eq!(stream_data(Ok(7), Ok(Some(0)), Err(kind.clone())), Err(kind));
    }
}

/// Runs the inner archive `members` through a tar ingest and hands back
/// what it ended with.
fn ingest_inner(persist: bool, members: &[(&str, &[u8])], stream: &[u8]) -> TarAction {
    let mut state = TarIngest::new(persist);
    for (path, body) in members {
        let (next, action) = tar_step(
            state,
            TarEvent::Entry { kind: EntryKind::Regular, path: path.to_string(), link_target: None },
        );
        assert_eq!(action, TarAction::Hash);
        let (next, action) = tar_step(next, TarEvent::Body { sha256: digest_bytes(body).sha256 });
        assert_eq!(action, TarAction::Next);
        state = next;
    }
    let (_, action) = tar_step(state, TarEvent::End { sha256: digest_bytes(stream).sha256 });
    action
}

/// Ingests a package that holds the one archive `name`, and hands back the
/// store.
fn ingest_package(store: &mut Store, name: &str, now: i64) {
    let zeros = [0u8; 10];
    let ones = [0xffu8; 10];
    let (state, action) = read_routine(&pkg(), ReadState::Idle, entry(EntryKind::Regular, Some(name)));
    let ReadAction::Ingest { persist, .. } = action else {
        panic!("an archive is to be ingested, got {action:?}");
    };
    let ended = ingest_inner(persist, &[("a", &zeros), ("b", &ones)], b"inner tar stream");
    let TarAction::Finish { summary, upsert } = ended else {
        panic!("the inner ingest is to finish, got {ended:?}");
    };
    store.finish_archive(&summary, upsert, now);
    let (state, action) = read_routine(&pkg(), state, ReadEvent::Digest { sha256: summary.sha256 });
    let ReadAction::InsertRef(r) = action else {
        panic!("a reference is to be recorded, got {action:?}");
    };
    store.insert_ref(r);
    let (_, action) = read_routine(&pkg(), state, ReadEvent::End);
    assert_eq!(action, ReadAction::Finish);
}

const INNER: &str = "sha256:8e98b06849e9312c2eef7e35fa59208d780ec31aa63e057dd3fde386933507a0";

#[test]
fn package_with_one_archive_gives_one_artifact_and_one_ref() {
    let mut store = Store::new();
    ingest_package(&mut store, "x.tar.gz", 100);

    assert_eq!(store.artifacts.len(), 1);
    assert_eq!(store.artifacts[0].chksum, INNER);
    assert_eq!(store.artifacts[0].first_seen, 100);
    assert_eq!(store.artifacts[0].last_imported, 100);
    assert_eq!(
        store.artifacts[0].files,
        Some(vec![
            Entry {
                path: "a".to_string(),
                digest: Some(
                    "sha256:01d448afd928065458cf670b60f5a594d735af0172c8d67f22a81680132681ca"
                        .to_string()
                ),
                links_to: None,
            },
            Entry {
                path: "b".to_string(),
                digest: Some(
                    "sha256:0083af118d18a63c6bb552f21d0c4ee78741f988ecd319d3cd06cb6c85a68a63"
                        .to_string()
                ),
                links_to: None,
            },
        ])
    );
    assert_eq!(
        store.refs,
        vec![Ref {
            chksum: INNER.to_string(),
            vendor: "fedora".to_string(),
            package: "cmatrix".to_string(),
            version: "2.0-1".to_string(),
            filename: Some("x.tar.gz".to_string()),
        }]
    );
}

#[test]
fn chromium_archive_gets_a_ref_and_no_artifact() {
    let (_, action) =
        read_routine(&pkg(), ReadState::Idle, entry(EntryKind::Regular, Some("chromium-foo.tar.xz")));
    assert_eq!(action, ReadAction::Ingest { compression: Compression::Xz, persist: false });

    let mut store = Store::new();
    ingest_package(&mut store, "chromium-foo.tar.xz", 100);
    assert!(store.artifacts.is_empty());
    assert_eq!(store.get_artifact(INNER), None);
    assert_eq!(store.refs.len(), 1);
    assert_eq!(store.refs[0].chksum, INNER);
    assert_eq!(store.refs[0].filename, Some("chromium-foo.tar.xz".to_string()));
}

#[test]
fn ingesting_again_moves_the_import_time_only() {
    let mut store = Store::new();
    ingest_package(&mut store, "x.tar.gz", 100);
    let once = store.clone();
    ingest_package(&mut store, "x.tar.gz", 250);

    assert_eq!(store.refs, once.refs);
    assert_eq!(store.artifacts.len(), 1);
    assert_eq!(store.artifacts[0].chksum, once.artifacts[0].chksum);
    assert_eq!(store.artifacts[0].files, once.artifacts[0].files);
    assert_eq!(store.artifacts[0].first_seen, 100);
    assert_eq!(store.artifacts[0].last_imported, 250);
}
