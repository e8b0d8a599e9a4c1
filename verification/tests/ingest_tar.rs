use archive_ledger::error::Error;
use archive_ledger::ingest::rpm::Compression;
use archive_ledger::ingest::tar::{
    decompressor_args, decompressor_program, stream_data, TarAction, TarEvent, TarIngest,
};
use archive_ledger::model::{Entry, EntryKind, LinksTo, Summary};

fn header(kind: EntryKind, path: &str, target: Option<&str>) -> TarEvent {
    TarEvent::Entry { kind, path: path.to_string(), link_target: target.map(|t| t.to_string()) }
}

#[test]
fn decompressor_goes_by_compression() {
    assert_eq!(decompressor_program(Compression::Gz), Some("gzip"));
    assert_eq!(decompressor_program(Compression::Xz), Some("xz"));
    assert_eq!(decompressor_program(Compression::Bz2), Some("bzip2"));
    assert_eq!(decompressor_program(Compression::Plain), None);
    assert_eq!(decompressor_args(), ["-dc"]);
}

#[test]
fn new_ingest_is_empty() {
    let state = TarIngest::new(true);
    assert!(state.files.is_empty());
    assert_eq!(state.pending, None);
    assert!(state.persist);
    assert!(!TarIngest::new(false).persist);
}

#[test]
fn regular_file_is_recorded_with_the_digest_of_its_body() {
    let (state, action) =
        stream_data(TarIngest::new(true), header(EntryKind::Regular, "foo-1.0/original_file", None));
    assert_eq!(action, TarAction::Hash);
    assert_eq!(state.pending, Some("foo-1.0/original_file".to_string()));
    assert!(state.files.is_empty());

    let (state, action) = stream_data(state, TarEvent::Body { sha256: "sha256:56d9".to_string() });
    assert_eq!(action, TarAction::Next);
    assert_eq!(state.pending, None);
    assert_eq!(
        state.files,
        vec![Entry {
            path: "foo-1.0/original_file".to_string(),
            digest: Some("sha256:56d9".to_string()),
            links_to: None,
        }]
    );
}

#[test]
fn directory_is_recorded_bare_with_its_trailing_slash() {
    let (state, action) =
        stream_data(TarIngest::new(true), header(EntryKind::Directory, "foo-1.0/", None));
    assert_eq!(action, TarAction::Next);
    assert_eq!(
        state.files,
        vec![Entry { path: "foo-1.0/".to_string(), digest: None, links_to: None }]
    );
}

#[test]
fn links_are_recorded_with_their_targets() {
    let (state, action) = stream_data(
        TarIngest::new(true),
        header(EntryKind::Symlink, "foo-1.0/symlink_file", Some("original_file")),
    );
    assert_eq!(action, TarAction::Next);
    let (state, action) = stream_data(
        state,
        header(EntryKind::Hardlink, "foo-1.0/hardlink_file", Some("foo-1.0/original_file")),
    );
    assert_eq!(action, TarAction::Next);
    assert_eq!(
        state.files,
        vec![
            Entry {
                path: "foo-1.0/symlink_file".to_string(),
                digest: None,
                links_to: Some(LinksTo::Symbolic("original_file".to_string())),
            },
            Entry {
                path: "foo-1.0/hardlink_file".to_string(),
                digest: None,
                links_to: Some(LinksTo::Hard("foo-1.0/original_file".to_string())),
            },
        ]
    );
}

#[test]
fn link_without_target_fails_the_archive() {
    for kind in [EntryKind::Symlink, EntryKind::Hardlink] {
        let (state, action) = stream_data(TarIngest::new(true), header(kind, "dangling", None));
        assert_eq!(action, TarAction::Fail(Error::InputMalformed("dangling".to_string())));
        assert!(state.files.is_empty());
    }
}

#[test]
fn other_kinds_are_passed_over() {
    let (state, action) =
        stream_data(TarIngest::new(true), header(EntryKind::Other, "pax_global_header", None));
    assert_eq!(action, TarAction::Next);
    assert!(state.files.is_empty());
    assert_eq!(state.pending, None);
}

#[test]
fn files_keep_archive_order() {
    let mut state = TarIngest::new(true);
    let paths = ["z/", "z/b", "z/a", "m", "z/c/"];
    for path in paths {
        let kind = if path.ends_with('/') { EntryKind::Directory } else { EntryKind::Regular };
        let (next, action) = stream_data(state, header(kind, path, None));
        state = next;
        if action == TarAction::Hash {
            let (next, _) = stream_data(state, TarEvent::Body { sha256: format!("sha256:{path}") });
            state = next;
        }
    }
    let seen: Vec<&str> = state.files.iter().map(|e| e.path.as_str()).collect();
    assert_eq!(seen, paths);
}

#[test]
fn end_hands_over_the_list_under_the_stream_digest() {
    let (state, _) = stream_data(TarIngest::new(true), header(EntryKind::Directory, "d/", None));
    let (state, action) = stream_data(state, TarEvent::End { sha256: "sha256:outer".to_string() });
    assert_eq!(
        action,
        TarAction::Finish {
            summary: Summary {
                sha256: "sha256:outer".to_string(),
                files: vec![Entry { path: "d/".to_string(), digest: None, links_to: None }],
            },
            upsert: true,
        }
    );
    assert!(state.files.is_empty());
}

#[test]
fn end_without_persistence_asks_for_no_artifact() {
    let (state, _) = stream_data(TarIngest::new(false), header(EntryKind::Directory, "d/", None));
    let (_, action) = stream_data(state, TarEvent::End { sha256: "sha256:outer".to_string() });
    let TarAction::Finish { summary, upsert } = action else {
        panic!("the ingest is to finish");
    };
    assert!(!upsert);
    assert_eq!(summary.sha256, "sha256:outer");
    assert_eq!(summary.files.len(), 1);
}

#[test]
fn empty_archive_finishes_with_an_empty_list() {
    let (_, action) =
        stream_data(TarIngest::new(true), TarEvent::End { sha256: "sha256:e3b0".to_string() });
    assert_eq!(
        action,
        TarAction::Finish {
            summary: Summary { sha256: "sha256:e3b0".to_string(), files: vec![] },
            upsert: true,
        }
    );
}

#[test]
fn tar_ingest_refuses_events_out_of_sequence() {
    let (state, action) =
        stream_data(TarIngest::new(true), TarEvent::Body { sha256: "sha256:00".to_string() });
    assert_eq!(action, TarAction::Refuse);
    assert_eq!(state, TarIngest::new(true));

    let (pending, _) = stream_data(TarIngest::new(true), header(EntryKind::Regular, "f", None));
    let (state, action) = stream_data(pending.clone(), header(EntryKind::Regular, "g", None));
    assert_eq!(action, TarAction::Refuse);
    assert_eq!(state, pending);
    let (state, action) = stream_data(pending.clone(), TarEvent::End { sha256: "x".to_string() });
    assert_eq!(action, TarAction::Refuse);
    assert_eq!(state, pending);
}
