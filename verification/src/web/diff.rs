//! The difference between two recorded archives, as a unified patch between
//! their listings.

use crate::model::{Artifact, EntryView};
use crate::web::listing::{process_files_list, spec_processed};
use crate::web::render::{render_archive, spec_render_files};
use vstd::prelude::*;

verus! {

/// The unified patch that turns the text `original` into the text
/// `modified`, under the two file names: a header of two lines, then the
/// hunks, with three lines of context.
pub uninterp spec fn unified_patch(
    original: Seq<char>,
    modified: Seq<char>,
    original_name: Seq<char>,
    modified_name: Seq<char>,
) -> Seq<char>;

/// The characters that make a file name quoted in a patch header.
pub open spec fn needs_escape(c: char) -> bool {
    c == '\n' || c == '\t' || c == '\0' || c == '\r' || c == '"' || c == '\\'
}

/// `name` with a backslash before each character that needs one.
pub open spec fn spec_escaped(name: Seq<char>) -> Seq<char>
    decreases name.len(),
{
    if name.len() == 0 {
        Seq::empty()
    } else if needs_escape(name.last()) {
        spec_escaped(name.drop_last()).push('\\').push(name.last())
    } else {
        spec_escaped(name.drop_last()).push(name.last())
    }
}

/// A file name as a patch header shows it: as it is, or between double
/// quotes and escaped where it holds a character that needs escaping.
pub open spec fn spec_patch_name(name: Seq<char>) -> Seq<char> {
    if exists|i: int| 0 <= i < name.len() && needs_escape(#[trigger] name[i]) {
        "\""@ + spec_escaped(name) + "\""@
    } else {
        name
    }
}

/// The header of a patch: the line that names the first text, then the
/// line that names the second.
pub open spec fn spec_patch_header(original_name: Seq<char>, modified_name: Seq<char>) -> Seq<
    char,
> {
    "--- "@ + spec_patch_name(original_name) + "\n"@ + "+++ "@ + spec_patch_name(modified_name)
        + "\n"@
}

/// The patch between two texts. Between equal texts it is the header alone:
/// there is no hunk.
pub open spec fn spec_patch(
    original: Seq<char>,
    modified: Seq<char>,
    original_name: Seq<char>,
    modified_name: Seq<char>,
) -> Seq<char> {
    if original == modified {
        spec_patch_header(original_name, modified_name)
    } else {
        unified_patch(original, modified, original_name, modified_name)
    }
}

/// The entries of a listing as they are compared: as recorded, or trimmed
/// and sorted. Paths are trimmed only where the listing is sorted too.
pub open spec fn spec_compared(files: Seq<EntryView>, sorted: bool, trimmed: bool) -> Seq<
    EntryView,
> {
    if sorted {
        spec_processed(files, trimmed)
    } else {
        files
    }
}

/// The patch between the listings of two sets of entries.
pub open spec fn spec_diff(
    files1: Seq<EntryView>,
    files2: Seq<EntryView>,
    diff_from: Seq<char>,
    diff_to: Seq<char>,
    sorted: bool,
    trimmed: bool,
) -> Seq<char> {
    spec_patch(
        spec_render_files(spec_compared(files1, sorted, trimmed)),
        spec_render_files(spec_compared(files2, sorted, trimmed)),
        diff_from,
        diff_to,
    )
}

/// The unified patch between two texts.
///
/// Trusted: calls `diffy_fork_filenames::create_file_patch` and takes the
/// patch's text. The claims: the text depends on the four arguments alone;
/// and between equal texts the patch has no hunk, so that its text is the
/// header, in which a name that holds a newline, tab, NUL, carriage return,
/// double quote or backslash stands quoted and escaped.
#[verifier::external_body]
fn file_patch(original: &str, modified: &str, original_name: &str, modified_name: &str) -> (patch:
    String)
    ensures
        patch@ == unified_patch(original@, modified@, original_name@, modified_name@),
        original@ == modified@ ==> patch@ == spec_patch_header(original_name@, modified_name@),
{
    diffy_fork_filenames::create_file_patch(original, modified, original_name, modified_name)
        .to_string()
}

/// The listing of `artifact` as it is compared.
fn compared_listing(artifact: Artifact, sorted: bool, trimmed: bool) -> (text: String)
    ensures
        text@ == spec_render_files(spec_compared(artifact.files_view(), sorted, trimmed)),
{
    if !sorted {
        return render_archive(&artifact);
    }
    let Artifact { chksum, first_seen, last_imported, files } = artifact;
    let files = match files {
        Some(list) => Some(process_files_list(list, trimmed)),
        None => {
            proof {
                let none = Seq::<EntryView>::empty();
                assert(crate::web::listing::spec_trimmed(none) == none);
                crate::web::listing::sorted_list_is_kept(none);
                crate::web::listing::stable_sort_is_unique(
                    none,
                    crate::web::listing::spec_sorted(none),
                    none,
                );
            }
            None
        },
    };
    let processed = Artifact { chksum, first_seen, last_imported, files };
    render_archive(&processed)
}

/// The patch that turns the listing of `artifact1` into that of
/// `artifact2`, headed by the names `diff_from` and `diff_to`. With
/// `sorted`, both listings are sorted by path first; with `trimmed` as
/// well, every path loses its leading component before that.
pub fn diff(
    artifact1: Artifact,
    artifact2: Artifact,
    diff_from: &str,
    diff_to: &str,
    sorted: bool,
    trimmed: bool,
) -> (patch: String)
    ensures
        patch@ == spec_diff(
            artifact1.files_view(),
            artifact2.files_view(),
            diff_from@,
            diff_to@,
            sorted,
            trimmed,
        ),
{
    let text1 = compared_listing(artifact1, sorted, trimmed);
    let text2 = compared_listing(artifact2, sorted, trimmed);
    file_patch(text1.as_str(), text2.as_str(), diff_from, diff_to)
}

/// Comparing a set of entries with itself gives a patch without hunks,
/// whatever the names and however the listings are prepared.
pub proof fn diff_of_same_is_empty(
    files: Seq<EntryView>,
    diff_from: Seq<char>,
    diff_to: Seq<char>,
    sorted: bool,
    trimmed: bool,
)
    ensures
        spec_diff(files, files, diff_from, diff_to, sorted, trimmed) == spec_patch_header(
            diff_from,
            diff_to,
        ),
{
}

} // verus!
