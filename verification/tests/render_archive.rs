use archive_ledger::model::{Artifact, Entry, LinksTo};
use archive_ledger::web::render::render_archive;

fn artifact(files: Vec<Entry>) -> Artifact {
    Artifact {
        chksum: "abcd".to_string(),
        first_seen: 1_700_000_000,
        last_imported: 1_700_000_000,
        files: Some(files),
    }
}

#[test]
fn test_render_archive() {
    let out = render_archive(&artifact(vec![
        Entry {
            digest: None,
            path: "cmatrix-2.0/".to_string(),
            links_to: None,
        },
        Entry {
            digest: Some("sha256:45705163f227f0b5c20dc79e3d3e41b4837cb968d1c3af60cc6301b577038984".to_string()),
            path: "cmatrix-2.0/.gitignore".to_string(),
            links_to: None,
        },
        Entry {
            digest: None,
            path: "cmatrix-2.0/data/".to_string(),
            links_to: None,
        },
        Entry {
            digest: None,
            path: "cmatrix-2.0/data/img/".to_string(),
            links_to: None,
        },
        Entry {
            digest: Some("sha256:ffa566a67628191d5450b7209d6f08c8867c12380d3ebc9e808dc4012e3aca58".to_string()),
            path: "cmatrix-2.0/data/img/capture_bold_font.png".to_string(),
            links_to: None,
        },
    ]));
    assert_eq!(out, "                                                                         cmatrix-2.0/
sha256:45705163f227f0b5c20dc79e3d3e41b4837cb968d1c3af60cc6301b577038984  cmatrix-2.0/.gitignore
                                                                         cmatrix-2.0/data/
                                                                         cmatrix-2.0/data/img/
sha256:ffa566a67628191d5450b7209d6f08c8867c12380d3ebc9e808dc4012e3aca58  cmatrix-2.0/data/img/capture_bold_font.png
");
}

#[test]
fn test_render_archive_symlink() {
    let out = render_archive(&artifact(vec![
        Entry {
            digest: None,
            path: "foo-1.0/".to_string(),
            links_to: None,
        },
        Entry {
            digest: Some("sha256:56d9fc4585da4f39bbc5c8ec953fb7962188fa5ed70b2dd5a19dc82df997ba5e".to_string()),
            path: "foo-1.0/original_file".to_string(),
            links_to: None,
        },
        Entry {
            digest: None,
            path: "foo-1.0/symlink_file".to_string(),
            links_to: Some(LinksTo::Symbolic("original_file".to_string())),
        },
    ]));
    assert_eq!(
        out,
        "                                                                         foo-1.0/
sha256:56d9fc4585da4f39bbc5c8ec953fb7962188fa5ed70b2dd5a19dc82df997ba5e  foo-1.0/original_file
                                                                         foo-1.0/symlink_file -> original_file
"
    );
}

#[test]
fn test_render_archive_hardlink() {
    let out = render_archive(&artifact(vec![
        Entry {
            digest: None,
            path: "foo-1.0/".to_string(),
            links_to: None,
        },
        Entry {
            digest: Some("sha256:56d9fc4585da4f39bbc5c8ec953fb7962188fa5ed70b2dd5a19dc82df997ba5e".to_string()),
            path: "foo-1.0/original_file".to_string(),
            links_to: None,
        },
        Entry {
            digest: None,
            path: "foo-1.0/hardlink_file".to_string(),
            links_to: Some(LinksTo::Hard("foo-1.0/original_file".to_string())),
        },
    ]));
    assert_eq!(
        out,
        "                                                                         foo-1.0/
sha256:56d9fc4585da4f39bbc5c8ec953fb7962188fa5ed70b2dd5a19dc82df997ba5e  foo-1.0/original_file
                                                                         foo-1.0/hardlink_file link to foo-1.0/original_file
"
    );
}
