//! The pages of one artifact and of one SBOM: what to look up, in which
//! order, and what to reply. Looking up and sending happen elsewhere; the
//! functions here say what comes next.

use crate::model::{Alias, Artifact};
use crate::text::{chars_end_with, from_chars, to_chars};
use crate::web::autotools::{detect_autotools, spec_detect_autotools};
use crate::web::render::{render_archive, spec_render_files};
use crate::web::route::Rejection;
use vstd::prelude::*;

verus! {

/// A path parameter cut into the digest and whether it ended in `ext`:
/// `abc.json` asks for `abc` in the other format, `abc` for `abc` itself.
pub open spec fn spec_split_extension(param: Seq<char>, ext: Seq<char>) -> (Seq<char>, bool) {
    if ext.is_suffix_of(param) {
        (param.take(param.len() - ext.len()), true)
    } else {
        (param, false)
    }
}

/// Cuts `ext` off the end of `param`, and says whether it was there.
pub fn split_extension(param: &str, ext: &str) -> (r: (String, bool))
    ensures
        (r.0@, r.1) == spec_split_extension(param@, ext@),
{
    let p = to_chars(param);
    let e = to_chars(ext);
    if chars_end_with(&p, &e) {
        let stem = from_chars(&p, 0, p.len() - e.len());
        (stem, true)
    } else {
        (param.to_owned(), false)
    }
}

/// The digest under which to look for the artifact: where an alias is
/// recorded for the digest asked for, the digest it points to, and that is
/// final; an alias of an alias is not followed.
pub open spec fn spec_resolved(chksum: Seq<char>, alias: Option<Alias>) -> Seq<char> {
    match alias {
        Some(a) => a.alias_to@,
        None => chksum,
    }
}

/// The digest under which to look for the artifact asked for as `chksum`.
pub fn resolved_chksum(chksum: &str, alias: &Option<Alias>) -> (resolved: String)
    ensures
        resolved@ == spec_resolved(chksum@, *alias),
{
    match alias {
        Some(a) => a.alias_to.clone(),
        None => chksum.to_owned(),
    }
}

/// How far the answer to a request for an artifact has come.
#[derive(Clone, Debug, PartialEq, Eq)]
pub enum ArtifactState {
    Start,
    /// Waiting for the alias of the digest asked for.
    AwaitAlias { chksum: String, json: bool },
    /// Waiting for the artifact under the resolved digest.
    AwaitArtifact { chksum: String, json: bool, resolved: String },
    /// Waiting for the SBOMs that name the artifact.
    AwaitSbomRefs { chksum: String, json: bool, artifact: Artifact },
    /// Waiting for the references to the artifact.
    AwaitRefs { chksum: String, artifact: Artifact },
    Done,
}

/// What came back.
#[derive(Clone, Debug, PartialEq, Eq)]
pub enum ArtifactEvent {
    /// The request, with the path parameter as written.
    Request { param: String },
    Alias(Option<Alias>),
    Artifact(Option<Artifact>),
    /// The SBOM references were loaded.
    SbomRefs,
    /// The references were loaded.
    Refs,
}

/// What to do next.
#[derive(Clone, Debug, PartialEq, Eq)]
pub enum ArtifactAction {
    GetAlias { chksum: String },
    GetArtifact { chksum: String },
    GetSbomRefs { chksum: String },
    GetRefs { chksum: String },
    /// Reply with the artifact's entries and the SBOM references as JSON.
    ReplyJson { artifact: Artifact },
    /// Reply with the page: the digest asked for, the artifact, its
    /// listing, and whether it looks like it ships generated build files.
    ReplyHtml { chksum: String, artifact: Artifact, files: String, suspecting_autotools: bool },
    Reject(Rejection),
    /// The event cannot follow the state.
    Refuse,
}

/// One step of answering a request for an artifact.
///
/// The parameter is cut into digest and format. The alias of the digest is
/// looked up, then the artifact under the resolved digest; without one the
/// request is rejected as not found. Then the SBOM references are loaded
/// for the resolved digest. The JSON format is answered at that point; the
/// page needs the references to the artifact as well, by the artifact's own
/// digest, and is answered once they are there.
pub open spec fn is_artifact_step(
    state: ArtifactState,
    event: ArtifactEvent,
    next: ArtifactState,
    action: ArtifactAction,
) -> bool {
    match (state, event) {
        (ArtifactState::Start, ArtifactEvent::Request { param }) => {
            &&& next matches ArtifactState::AwaitAlias { chksum, json }
            &&& (chksum@, json) == spec_split_extension(param@, ".json"@)
            &&& action matches ArtifactAction::GetAlias { chksum: asked }
            &&& asked@ == chksum@
        },
        (ArtifactState::AwaitAlias { chksum, json }, ArtifactEvent::Alias(alias)) => {
            &&& next matches ArtifactState::AwaitArtifact { chksum: c, json: j, resolved }
            &&& c@ == chksum@
            &&& j == json
            &&& resolved@ == spec_resolved(chksum@, alias)
            &&& action matches ArtifactAction::GetArtifact { chksum: asked }
            &&& asked@ == resolved@
        },
        (
            ArtifactState::AwaitArtifact { chksum, json, resolved },
            ArtifactEvent::Artifact(found),
        ) => match found {
            None => next == ArtifactState::Done && action == ArtifactAction::Reject(
                Rejection::NotFound,
            ),
            Some(artifact) => {
                &&& next matches ArtifactState::AwaitSbomRefs { chksum: c, json: j, artifact: a }
                &&& c@ == chksum@
                &&& j == json
                &&& a == artifact
                &&& action matches ArtifactAction::GetSbomRefs { chksum: asked }
                &&& asked@ == resolved@
            },
        },
        (ArtifactState::AwaitSbomRefs { chksum, json, artifact }, ArtifactEvent::SbomRefs) => {
            if json {
                next == ArtifactState::Done && action == (ArtifactAction::ReplyJson { artifact })
            } else {
                &&& next matches ArtifactState::AwaitRefs { chksum: c, artifact: a }
                &&& c@ == chksum@
                &&& a == artifact
                &&& action matches ArtifactAction::GetRefs { chksum: asked }
                &&& asked@ == artifact.chksum@
            }
        },
        (ArtifactState::AwaitRefs { chksum, artifact }, ArtifactEvent::Refs) => {
            &&& next == ArtifactState::Done
            &&& action matches ArtifactAction::ReplyHtml {
                chksum: c,
                artifact: a,
                files,
                suspecting_autotools,
            }
            &&& c@ == chksum@
            &&& a == artifact
            &&& files@ == spec_render_files(artifact.files_view())
            &&& suspecting_autotools == spec_detect_autotools(artifact.files_view())
        },
        _ => next == state && action == ArtifactAction::Refuse,
    }
}

/// Decides what follows `event` in `state`.
pub fn artifact(state: ArtifactState, event: ArtifactEvent) -> (r: (ArtifactState, ArtifactAction))
    ensures
        is_artifact_step(state, event, r.0, r.1),
{
    match state {
        ArtifactState::Start => match event {
            ArtifactEvent::Request { param } => {
                let (chksum, json) = split_extension(param.as_str(), ".json");
                let asked = chksum.clone();
                (ArtifactState::AwaitAlias { chksum, json }, ArtifactAction::GetAlias { chksum: asked })
            },
            _ => (ArtifactState::Start, ArtifactAction::Refuse),
        },
        ArtifactState::AwaitAlias { chksum, json } => match event {
            ArtifactEvent::Alias(alias) => {
                let resolved = resolved_chksum(chksum.as_str(), &alias);
                let asked = resolved.clone();
                (
                    ArtifactState::AwaitArtifact { chksum, json, resolved },
                    ArtifactAction::GetArtifact { chksum: asked },
                )
            },
            _ => (ArtifactState::AwaitAlias { chksum, json }, ArtifactAction::Refuse),
        },
        ArtifactState::AwaitArtifact { chksum, json, resolved } => match event {
            ArtifactEvent::Artifact(found) => match found {
                None => (ArtifactState::Done, ArtifactAction::Reject(Rejection::NotFound)),
                Some(artifact) => (
                    ArtifactState::AwaitSbomRefs { chksum, json, artifact },
                    ArtifactAction::GetSbomRefs { chksum: resolved },
                ),
            },
            _ => (ArtifactState::AwaitArtifact { chksum, json, resolved }, ArtifactAction::Refuse),
        },
        ArtifactState::AwaitSbomRefs { chksum, json, artifact } => match event {
            ArtifactEvent::SbomRefs => {
                if json {
                    (ArtifactState::Done, ArtifactAction::ReplyJson { artifact })
                } else {
                    let asked = artifact.chksum.clone();
                    (
                        ArtifactState::AwaitRefs { chksum, artifact },
                        ArtifactAction::GetRefs { chksum: asked },
                    )
                }
            },
            _ => (ArtifactState::AwaitSbomRefs { chksum, json, artifact }, ArtifactAction::Refuse),
        },
        ArtifactState::AwaitRefs { chksum, artifact } => match event {
            ArtifactEvent::Refs => {
                let files = render_archive(&artifact);
                let suspecting_autotools = match &artifact.files {
                    Some(list) => detect_autotools(list),
                    None => {
                        assert(!spec_detect_autotools(artifact.files_view()));
                        false
                    },
                };
                (
                    ArtifactState::Done,
                    ArtifactAction::ReplyHtml { chksum, artifact, files, suspecting_autotools },
                )
            },
            _ => (ArtifactState::AwaitRefs { chksum, artifact }, ArtifactAction::Refuse),
        },
        ArtifactState::Done => (ArtifactState::Done, ArtifactAction::Refuse),
    }
}

/// The media type of an SBOM sent as it was stored.
pub fn sbom_text_type() -> (t: &'static str)
    ensures
        t@ == "text/plain; charset=utf-8"@,
{
    "text/plain; charset=utf-8"
}

/// How far the answer to a request for an SBOM has come.
#[derive(Clone, Debug, PartialEq, Eq)]
pub enum SbomState {
    Start,
    /// Waiting for the SBOM under the digest.
    AwaitSbom { chksum: String, txt: bool },
    /// Waiting for the references to the SBOM.
    AwaitRefs { chksum: String, txt: bool },
    /// Waiting for the packages that the SBOM lists.
    AwaitPackages { chksum: String },
    Done,
}

/// What came back.
#[derive(Clone, Debug, PartialEq, Eq)]
pub enum SbomEvent {
    /// The request, with the path parameter as written.
    Request { param: String },
    /// Whether an SBOM is stored under the digest.
    Sbom { found: bool },
    /// The references were loaded.
    Refs,
    /// Whether the SBOM could be read as a list of packages.
    Packages { parsed: bool },
}

/// What to do next.
#[derive(Clone, Debug, PartialEq, Eq)]
pub enum SbomAction {
    GetSbom { chksum: String },
    GetRefs,
    /// Reply with the SBOM as it was stored, under the plain-text type.
    ReplyText,
    ParsePackages,
    /// Reply with the page, listing the packages where `with_packages`
    /// holds and none where the SBOM could not be read.
    ReplyHtml { chksum: String, with_packages: bool },
    Reject(Rejection),
    /// The event cannot follow the state.
    Refuse,
}

/// One step of answering a request for an SBOM.
///
/// The parameter is cut into digest and format. Without an SBOM under the
/// digest the request is rejected as not found. With one, its references
/// are loaded; then the text format is answered with the SBOM as stored,
/// and the page after an attempt to read the SBOM's packages, which may
/// fail without failing the page.
pub open spec fn is_sbom_step(state: SbomState, event: SbomEvent, next: SbomState, action: SbomAction) -> bool {
    match (state, event) {
        (SbomState::Start, SbomEvent::Request { param }) => {
            &&& next matches SbomState::AwaitSbom { chksum, txt }
            &&& (chksum@, txt) == spec_split_extension(param@, ".txt"@)
            &&& action matches SbomAction::GetSbom { chksum: asked }
            &&& asked@ == chksum@
        },
        (SbomState::AwaitSbom { chksum, txt }, SbomEvent::Sbom { found }) => {
            if found {
                &&& next matches SbomState::AwaitRefs { chksum: c, txt: t }
                &&& c@ == chksum@
                &&& t == txt
                &&& action == SbomAction::GetRefs
            } else {
                next == SbomState::Done && action == SbomAction::Reject(Rejection::NotFound)
            }
        },
        (SbomState::AwaitRefs { chksum, txt }, SbomEvent::Refs) => {
            if txt {
                next == SbomState::Done && action == SbomAction::ReplyText
            } else {
                &&& next matches SbomState::AwaitPackages { chksum: c }
                &&& c@ == chksum@
                &&& action == SbomAction::ParsePackages
            }
        },
        (SbomState::AwaitPackages { chksum }, SbomEvent::Packages { parsed }) => {
            &&& next == SbomState::Done
            &&& action matches SbomAction::ReplyHtml { chksum: c, with_packages }
            &&& c@ == chksum@
            &&& with_packages == parsed
        },
        _ => next == state && action == SbomAction::Refuse,
    }
}

/// Decides what follows `event` in `state`.
pub fn sbom(state: SbomState, event: SbomEvent) -> (r: (SbomState, SbomAction))
    ensures
        is_sbom_step(state, event, r.0, r.1),
{
    match state {
        SbomState::Start => match event {
            SbomEvent::Request { param } => {
                let (chksum, txt) = split_extension(param.as_str(), ".txt");
                let asked = chksum.clone();
                (SbomState::AwaitSbom { chksum, txt }, SbomAction::GetSbom { chksum: asked })
            },
            _ => (SbomState::Start, SbomAction::Refuse),
        },
        SbomState::AwaitSbom { chksum, txt } => match event {
            SbomEvent::Sbom { found } => {
                if found {
                    (SbomState::AwaitRefs { chksum, txt }, SbomAction::GetRefs)
                } else {
                    (SbomState::Done, SbomAction::Reject(Rejection::NotFound))
                }
            },
            _ => (SbomState::AwaitSbom { chksum, txt }, SbomAction::Refuse),
        },
        SbomState::AwaitRefs { chksum, txt } => match event {
            SbomEvent::Refs => {
                if txt {
                    (SbomState::Done, SbomAction::ReplyText)
                } else {
                    (SbomState::AwaitPackages { chksum }, SbomAction::ParsePackages)
                }
            },
            _ => (SbomState::AwaitRefs { chksum, txt }, SbomAction::Refuse),
        },
        SbomState::AwaitPackages { chksum } => match event {
            SbomEvent::Packages { parsed } => (
                SbomState::Done,
                SbomAction::ReplyHtml { chksum, with_packages: parsed },
            ),
            _ => (SbomState::AwaitPackages { chksum }, SbomAction::Refuse),
        },
        SbomState::Done => (SbomState::Done, SbomAction::Refuse),
    }
}

} // verus!
