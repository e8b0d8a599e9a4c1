use archive_ledger::model::{Artifact, Entry, LinksTo};
use archive_ledger::web::diff::diff;
use archive_ledger::web::listing::{process_files_list, trim_path};
use archive_ledger::web::render::{render_archive, render_files};

const PAD: &str = "                                                                         ";

fn dir(path: &str) -> Entry {
    Entry { path: path.to_string(), digest: None, links_to: None }
}

fn file(path: &str, digest: &str) -> Entry {
    Entry { path: path.to_string(), digest: Some(digest.to_string()), links_to: None }
}

fn artifact(files: Option<Vec<Entry>>) -> Artifact {
    Artifact { chksum: "abcd".to_string(), first_seen: 0, last_imported: 0, files }
}

fn paths(list: &[Entry]) -> Vec<&str> {
    list.iter().map(|e| e.path.as_str()).collect()
}

#[test]
fn padding_is_73_spaces() {
    assert_eq!(PAD.len(), 73);
}

#[test]
fn listing_of_nothing_is_empty() {
    assert_eq!(render_archive(&artifact(None)), "");
    assert_eq!(render_archive(&artifact(Some(vec![]))), "");
    assert_eq!(render_files(&vec![]), "");
}

#[test]
fn digest_column_is_padded_to_its_width() {
    assert_eq!(render_files(&vec![file("p", "sha256:ab")]), format!("sha256:ab{}p\n", &PAD[9..]));
    let wide = "d".repeat(73);
    assert_eq!(render_files(&vec![file("p", &wide)]), format!("{wide}p\n"));
    let wider = "d".repeat(80);
    assert_eq!(render_files(&vec![file("p", &wider)]), format!("{wider}p\n"));
}

#[test]
fn digest_column_counts_characters() {
    assert_eq!(render_files(&vec![file("p", "é")]), format!("é{}p\n", &PAD[1..]));
}

#[test]
fn listing_keeps_the_order_given() {
    let out = render_files(&vec![dir("b/"), dir("a/"), dir("c/")]);
    assert_eq!(out, format!("{PAD}b/\n{PAD}a/\n{PAD}c/\n"));
}

#[test]
fn link_with_a_digest_shows_both() {
    let odd = Entry {
        path: "l".to_string(),
        digest: Some("sha256:ab".to_string()),
        links_to: Some(LinksTo::Symbolic("t".to_string())),
    };
    assert_eq!(render_files(&vec![odd]), format!("sha256:ab{}l -> t\n", &PAD[9..]));
}

#[test]
fn trim_path_drops_the_leading_component() {
    assert_eq!(trim_path("cmatrix-2.0/data/img/x.png"), "data/img/x.png");
    assert_eq!(trim_path("cmatrix-2.0/"), "");
    assert_eq!(trim_path("cmatrix-2.0"), "cmatrix-2.0");
    assert_eq!(trim_path("/abs/path"), "abs/path");
    assert_eq!(trim_path("a//b"), "/b");
    assert_eq!(trim_path(""), "");
    assert_eq!(trim_path("é/ü"), "ü");
}

#[test]
fn process_sorts_by_path() {
    let out = process_files_list(vec![dir("b"), dir("a/c"), dir("a"), dir("a/b"), dir("B")], false);
    assert_eq!(paths(&out), vec!["B", "a", "a/b", "a/c", "b"]);
}

#[test]
fn process_orders_by_code_point() {
    let out = process_files_list(vec![dir("é"), dir("z"), dir("a-"), dir("a"), dir("a/"), dir("Z")], false);
    assert_eq!(paths(&out), vec!["Z", "a", "a-", "a/", "z", "é"]);
}

#[test]
fn process_keeps_equal_paths_in_their_order() {
    let out = process_files_list(
        vec![file("x", "3"), file("a", "4"), file("x", "1"), file("x", "2")],
        false,
    );
    assert_eq!(out, vec![file("a", "4"), file("x", "3"), file("x", "1"), file("x", "2")]);
}

#[test]
fn process_trims_before_sorting() {
    let out = process_files_list(
        vec![
            file("pkg-1.0/src/b.c", "sha256:1"),
            dir("pkg-1.0/"),
            file("pkg-1.0/Makefile", "sha256:2"),
            file("top", "sha256:3"),
        ],
        true,
    );
    assert_eq!(
        out,
        vec![dir(""), file("Makefile", "sha256:2"), file("src/b.c", "sha256:1"), file("top", "sha256:3")]
    );
}

#[test]
fn process_leaves_paths_alone_without_trimming() {
    let out = process_files_list(vec![dir("pkg-1.0/b"), dir("pkg-1.0/a")], false);
    assert_eq!(paths(&out), vec!["pkg-1.0/a", "pkg-1.0/b"]);
}

#[test]
fn process_handles_short_and_long_lists() {
    assert_eq!(process_files_list(vec![], true), vec![]);
    assert_eq!(process_files_list(vec![dir("only")], false), vec![dir("only")]);
    let list: Vec<Entry> = (0..257).rev().map(|i| dir(&format!("{i:04}"))).collect();
    let out = process_files_list(list, false);
    let want: Vec<String> = (0..257).map(|i| format!("{i:04}")).collect();
    assert_eq!(paths(&out), want);
}

#[test]
fn diff_of_an_artifact_with_itself_has_no_hunk() {
    let files = vec![dir("foo-1.0/"), file("foo-1.0/b", "sha256:1"), file("foo-1.0/a", "sha256:2")];
    for (sorted, trimmed) in [(false, false), (true, false), (true, true), (false, true)] {
        let patch = diff(
            artifact(Some(files.clone())),
            artifact(Some(files.clone())),
            "sha256:from",
            "sha256:to",
            sorted,
            trimmed,
        );
        assert_eq!(patch, "--- sha256:from\n+++ sha256:to\n");
    }
}

#[test]
fn diff_of_artifacts_without_entries_has_no_hunk() {
    assert_eq!(diff(artifact(None), artifact(None), "a", "b", true, true), "--- a\n+++ b\n");
    assert_eq!(diff(artifact(None), artifact(Some(vec![])), "a", "b", false, false), "--- a\n+++ b\n");
}

#[test]
fn diff_header_quotes_names_that_need_it() {
    let patch = diff(artifact(None), artifact(None), "a\tb", "c\"d\\e", false, false);
    assert_eq!(patch, "--- \"a\\\tb\"\n+++ \"c\\\"d\\\\e\"\n");
}

#[test]
fn diff_shows_what_changed() {
    let patch = diff(
        artifact(Some(vec![dir("a"), dir("b")])),
        artifact(Some(vec![dir("a"), dir("c")])),
        "one",
        "two",
        false,
        false,
    );
    assert_eq!(
        patch,
        format!("--- one\n+++ two\n@@ -1,2 +1,2 @@\n {PAD}a\n-{PAD}b\n+{PAD}c\n")
    );
}

#[test]
fn sorted_diff_ignores_the_order_of_entries() {
    let one = vec![dir("b"), dir("a")];
    let two = vec![dir("a"), dir("b")];
    let plain = diff(artifact(Some(one.clone())), artifact(Some(two.clone())), "1", "2", false, false);
    assert_ne!(plain, "--- 1\n+++ 2\n");
    let sorted = diff(artifact(Some(one)), artifact(Some(two)), "1", "2", true, false);
    assert_eq!(sorted, "--- 1\n+++ 2\n");
}

#[test]
fn trimmed_diff_ignores_the_leading_component() {
    let one = vec![dir("foo-1.0/"), file("foo-1.0/x", "sha256:1")];
    let two = vec![dir("foo-1.1/"), file("foo-1.1/x", "sha256:1")];
    let sorted = diff(artifact(Some(one.clone())), artifact(Some(two.clone())), "1", "2", true, false);
    assert_ne!(sorted, "--- 1\n+++ 2\n");
    let trimmed = diff(artifact(Some(one.clone())), artifact(Some(two.clone())), "1", "2", true, true);
    assert_eq!(trimmed, "--- 1\n+++ 2\n");
    let unsorted = diff(artifact(Some(one)), artifact(Some(two)), "1", "2", false, true);
    assert_ne!(unsorted, "--- 1\n+++ 2\n");
}
