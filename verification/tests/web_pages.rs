use archive_ledger::error::Error;
use archive_ledger::model::{Alias, Artifact, Entry};
use archive_ledger::text::{pad_left, pad_right, starts_with, str_le};
use archive_ledger::web::autotools::detect_autotools;
use archive_ledger::web::page::{
    artifact, resolved_chksum, sbom, sbom_text_type, split_extension, ArtifactAction,
    ArtifactEvent, ArtifactState, SbomAction, SbomEvent, SbomState,
};
use archive_ledger::web::render::format_num;
use archive_ledger::web::route::Rejection;
use archive_ledger::web::search::{search, search_pattern, SearchPlan, SEARCH_LIMIT};
use archive_ledger::web::stats::{total, StatsData, StatsKey};

fn dir(path: &str) -> Entry {
    Entry { path: path.to_string(), digest: None, links_to: None }
}

fn row(label: &str, count: i64) -> (String, i64) {
    (label.to_string(), count)
}

#[test]
fn search_strips_wildcards_and_appends_one() {
    assert_eq!(search_pattern("foo%bar_"), "foobar%");
    assert_eq!(search_pattern(""), "%");
    assert_eq!(search_pattern("%_%_"), "%");
    assert_eq!(search_pattern("lib ssl"), "lib ssl%");
    assert_eq!(search_pattern("a\\%b"), "a\\b%");
    assert_eq!(search_pattern("é_ü"), "éü%");
}

#[test]
fn search_asks_for_150_at_most() {
    assert_eq!(SEARCH_LIMIT, 150);
    assert_eq!(search("foo%bar_"), SearchPlan { query: "foobar%".to_string(), limit: 150 });
}

#[test]
fn autotools_is_suspected_with_both_files_in_one_folder() {
    assert!(detect_autotools(&vec![dir("p/configure"), dir("p/configure.ac")]));
    assert!(detect_autotools(&vec![dir("p/configure.ac"), dir("x"), dir("p/configure")]));
    assert!(detect_autotools(&vec![dir("/configure"), dir("/configure.ac")]));
    assert!(detect_autotools(&vec![dir("a/b/configure.ac"), dir("a/configure"), dir("a/b/configure")]));
}

#[test]
fn autotools_is_not_suspected_otherwise() {
    assert!(!detect_autotools(&vec![]));
    assert!(!detect_autotools(&vec![dir("p/configure")]));
    assert!(!detect_autotools(&vec![dir("p/configure.ac")]));
    assert!(!detect_autotools(&vec![dir("p/configure"), dir("q/configure.ac")]));
    assert!(!detect_autotools(&vec![dir("configure"), dir("configure.ac")]));
    assert!(!detect_autotools(&vec![dir("p/configure"), dir("p/configure.ac.in")]));
    assert!(!detect_autotools(&vec![dir("p/xconfigure"), dir("p/xconfigure.ac")]));
}

#[test]
fn total_adds_up_the_counts() {
    assert_eq!(total(&vec![]), Some(0));
    assert_eq!(total(&vec![row("2024-01-01", 3), row("2024-01-02", 4)]), Some(7));
    assert_eq!(total(&vec![row("a", -5), row("b", 2)]), Some(-3));
    assert_eq!(total(&vec![row("a", i64::MAX)]), Some(i64::MAX));
}

#[test]
fn total_is_absent_where_the_sum_leaves_the_range() {
    assert_eq!(total(&vec![row("a", i64::MAX), row("b", 1)]), None);
    assert_eq!(total(&vec![row("a", i64::MAX), row("b", 1), row("c", -1)]), None);
    assert_eq!(total(&vec![row("a", i64::MIN), row("b", -1)]), None);
    assert_eq!(total(&vec![row("a", i64::MAX), row("b", -1), row("c", 1)]), Some(i64::MAX));
}

#[test]
fn stats_tables_come_in_as_the_queries_answer() {
    let data = StatsData::new();
    assert_eq!(
        data,
        StatsData { import_dates: None, pending_tasks: None, total_artifacts: None }
    );
    let data = data.record(StatsKey::PendingTasks, Ok(vec![row("fetch", 2)])).unwrap();
    assert_eq!(data.pending_tasks, Some(vec![row("fetch", 2)]));
    assert_eq!(data.import_dates, None);
    assert_eq!(data.total_artifacts, None);
    let data = data
        .record(StatsKey::ImportDates, Ok(vec![row("2024-01-01", 3), row("2024-01-02", 4)]))
        .unwrap();
    assert_eq!(data.import_dates, Some(vec![row("2024-01-01", 3), row("2024-01-02", 4)]));
    assert_eq!(data.total_artifacts, Some(7));
    assert_eq!(data.pending_tasks, Some(vec![row("fetch", 2)]));
}

#[test]
fn stats_fail_with_the_query_that_failed() {
    let err = Error::Db("connection closed".to_string());
    assert_eq!(StatsData::new().record(StatsKey::ImportDates, Err(err.clone())), Err(err));
}

#[test]
fn format_num_groups_by_three() {
    assert_eq!(format_num(0, 0), "0");
    assert_eq!(format_num(7, 0), "7");
    assert_eq!(format_num(42, 0), "42");
    assert_eq!(format_num(999, 0), "999");
    assert_eq!(format_num(1000, 0), "1,000");
    assert_eq!(format_num(1_234_567, 0), "1,234,567");
    assert_eq!(format_num(1_000_007, 0), "1,000,007");
    assert_eq!(format_num(-1, 0), "-1");
    assert_eq!(format_num(-1000, 0), "-1,000");
    assert_eq!(format_num(i64::MAX, 0), "9,223,372,036,854,775,807");
    assert_eq!(format_num(i64::MIN, 0), "-9,223,372,036,854,775,808");
}

#[test]
fn format_num_aligns_to_the_right() {
    assert_eq!(format_num(1000, 8), "   1,000");
    assert_eq!(format_num(-12, 5), "  -12");
    assert_eq!(format_num(1000, 5), "1,000");
    assert_eq!(format_num(1000, 3), "1,000");
}

#[test]
fn padding_fills_up_to_the_width() {
    assert_eq!(pad_right("ab", 5), "ab   ");
    assert_eq!(pad_right("ab", 2), "ab");
    assert_eq!(pad_right("abc", 2), "abc");
    assert_eq!(pad_right("", 3), "   ");
    assert_eq!(pad_right("é", 3), "é  ");
    assert_eq!(pad_left("ab", 5), "   ab");
    assert_eq!(pad_left("abc", 2), "abc");
    assert_eq!(pad_left("", 0), "");
}

#[test]
fn prefix_test_matches_the_whole_prefix() {
    assert!(starts_with("chromium-1", "chromium-"));
    assert!(starts_with("chromium-", "chromium-"));
    assert!(starts_with("a", ""));
    assert!(!starts_with("chrom", "chromium-"));
    assert!(!starts_with("xchromium-", "chromium-"));
}

#[test]
fn strings_are_ordered_by_code_point() {
    assert!(str_le("", ""));
    assert!(str_le("", "a"));
    assert!(!str_le("a", ""));
    assert!(str_le("a", "a"));
    assert!(str_le("a", "ab"));
    assert!(!str_le("ab", "a"));
    assert!(str_le("Z", "a"));
    assert!(!str_le("b", "a"));
    assert!(str_le("z", "é"));
    assert!(str_le("\u{ffff}", "\u{10000}"));
    for (a, b) in [("a", "b"), ("é", "z"), ("a/", "a-"), ("x", "x")] {
        assert_eq!(str_le(a, b), a <= b);
        assert_eq!(str_le(b, a), b <= a);
    }
}

#[test]
fn extension_is_cut_off_the_parameter() {
    assert_eq!(split_extension("sha256:ab.json", ".json"), ("sha256:ab".to_string(), true));
    assert_eq!(split_extension("sha256:ab", ".json"), ("sha256:ab".to_string(), false));
    assert_eq!(split_extension(".json", ".json"), (String::new(), true));
    assert_eq!(split_extension("a.json.json", ".json"), ("a.json".to_string(), true));
    assert_eq!(split_extension("a.txt", ".json"), ("a.txt".to_string(), false));
}

#[test]
fn alias_redirects_once() {
    let alias = Alias { chksum: "sha256:gz".to_string(), alias_to: "sha256:tar".to_string() };
    assert_eq!(resolved_chksum("sha256:gz", &Some(alias)), "sha256:tar");
    assert_eq!(resolved_chksum("sha256:gz", &None), "sha256:gz");
}

fn stored(chksum: &str) -> Artifact {
    Artifact {
        chksum: chksum.to_string(),
        first_seen: 1,
        last_imported: 2,
        files: Some(vec![dir("p/configure"), dir("p/configure.ac")]),
    }
}

#[test]
fn artifact_page_is_answered_step_by_step() {
    let (state, action) =
        artifact(ArtifactState::Start, ArtifactEvent::Request { param: "sha256:gz".to_string() });
    assert_eq!(action, ArtifactAction::GetAlias { chksum: "sha256:gz".to_string() });

    let alias = Alias { chksum: "sha256:gz".to_string(), alias_to: "sha256:tar".to_string() };
    let (state, action) = artifact(state, ArtifactEvent::Alias(Some(alias)));
    assert_eq!(action, ArtifactAction::GetArtifact { chksum: "sha256:tar".to_string() });

    let (state, action) = artifact(state, ArtifactEvent::Artifact(Some(stored("sha256:tar"))));
    assert_eq!(action, ArtifactAction::GetSbomRefs { chksum: "sha256:tar".to_string() });

    let (state, action) = artifact(state, ArtifactEvent::SbomRefs);
    assert_eq!(action, ArtifactAction::GetRefs { chksum: "sha256:tar".to_string() });

    let (state, action) = artifact(state, ArtifactEvent::Refs);
    assert_eq!(state, ArtifactState::Done);
    let pad = " ".repeat(73);
    assert_eq!(
        action,
        ArtifactAction::ReplyHtml {
            chksum: "sha256:gz".to_string(),
            artifact: stored("sha256:tar"),
            files: format!("{pad}p/configure\n{pad}p/configure.ac\n"),
            suspecting_autotools: true,
        }
    );
}

#[test]
fn artifact_json_is_answered_after_the_sbom_refs() {
    let (state, action) =
        artifact(ArtifactState::Start, ArtifactEvent::Request { param: "sha256:a.json".to_string() });
    assert_eq!(action, ArtifactAction::GetAlias { chksum: "sha256:a".to_string() });
    let (state, action) = artifact(state, ArtifactEvent::Alias(None));
    assert_eq!(action, ArtifactAction::GetArtifact { chksum: "sha256:a".to_string() });
    let (state, _) = artifact(state, ArtifactEvent::Artifact(Some(stored("sha256:a"))));
    let (state, action) = artifact(state, ArtifactEvent::SbomRefs);
    assert_eq!(state, ArtifactState::Done);
    assert_eq!(action, ArtifactAction::ReplyJson { artifact: stored("sha256:a") });
}

#[test]
fn artifact_that_is_not_recorded_is_not_found() {
    let (state, _) =
        artifact(ArtifactState::Start, ArtifactEvent::Request { param: "sha256:a".to_string() });
    let (state, _) = artifact(state, ArtifactEvent::Alias(None));
    let (state, action) = artifact(state, ArtifactEvent::Artifact(None));
    assert_eq!(state, ArtifactState::Done);
    assert_eq!(action, ArtifactAction::Reject(Rejection::NotFound));
}

#[test]
fn artifact_page_refuses_events_out_of_sequence() {
    let (state, action) = artifact(ArtifactState::Start, ArtifactEvent::Refs);
    assert_eq!((state, action), (ArtifactState::Start, ArtifactAction::Refuse));
    let (state, action) = artifact(ArtifactState::Done, ArtifactEvent::Refs);
    assert_eq!((state, action), (ArtifactState::Done, ArtifactAction::Refuse));
    let waiting = ArtifactState::AwaitAlias { chksum: "c".to_string(), json: false };
    let (state, action) = artifact(waiting.clone(), ArtifactEvent::Artifact(None));
    assert_eq!((state, action), (waiting, ArtifactAction::Refuse));
}

#[test]
fn sbom_text_is_sent_as_stored() {
    assert_eq!(sbom_text_type(), "text/plain; charset=utf-8");
    let (state, action) =
        sbom(SbomState::Start, SbomEvent::Request { param: "sha256:s.txt".to_string() });
    assert_eq!(action, SbomAction::GetSbom { chksum: "sha256:s".to_string() });
    let (state, action) = sbom(state, SbomEvent::Sbom { found: true });
    assert_eq!(action, SbomAction::GetRefs);
    let (state, action) = sbom(state, SbomEvent::Refs);
    assert_eq!((state, action), (SbomState::Done, SbomAction::ReplyText));
}

#[test]
fn sbom_page_lists_packages_where_they_can_be_read() {
    for parsed in [true, false] {
        let (state, action) =
            sbom(SbomState::Start, SbomEvent::Request { param: "sha256:s".to_string() });
        assert_eq!(action, SbomAction::GetSbom { chksum: "sha256:s".to_string() });
        let (state, _) = sbom(state, SbomEvent::Sbom { found: true });
        let (state, action) = sbom(state, SbomEvent::Refs);
        assert_eq!(action, SbomAction::ParsePackages);
        let (state, action) = sbom(state, SbomEvent::Packages { parsed });
        assert_eq!(state, SbomState::Done);
        assert_eq!(
            action,
            SbomAction::ReplyHtml { chksum: "sha256:s".to_string(), with_packages: parsed }
        );
    }
}

#[test]
fn sbom_that_is_not_stored_is_not_found() {
    let (state, _) = sbom(SbomState::Start, SbomEvent::Request { param: "sha256:s".to_string() });
    let (state, action) = sbom(state, SbomEvent::Sbom { found: false });
    assert_eq!((state, action), (SbomState::Done, SbomAction::Reject(Rejection::NotFound)));
    let (state, action) = sbom(SbomState::Start, SbomEvent::Refs);
    assert_eq!((state, action), (SbomState::Start, SbomAction::Refuse));
}
