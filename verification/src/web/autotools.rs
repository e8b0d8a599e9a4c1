//! A hint for readers of a listing: does the archive ship a generated
//! `configure` script next to the `configure.ac` it was generated from?

use crate::model::{entries_view, Entry, EntryView};
use crate::text::{chars_end_with, spells, to_chars};
use vstd::prelude::*;

verus! {

/// Whether `files` holds the pair at `i` and `j`: a path that ends in
/// `/configure`, and the same path with `.ac` after it.
pub open spec fn is_autotools_pair(files: Seq<EntryView>, i: int, j: int) -> bool {
    &&& 0 <= i < files.len()
    &&& 0 <= j < files.len()
    &&& "/configure"@.is_suffix_of(files[i].path)
    &&& files[j].path == files[i].path + ".ac"@
}

/// Whether some folder of `files` holds both `configure` and
/// `configure.ac`, in whichever order the two are listed.
pub open spec fn spec_detect_autotools(files: Seq<EntryView>) -> bool {
    exists|i: int, j: int| is_autotools_pair(files, i, j)
}

/// Whether some entry of `files` has the path that `wanted` spells.
fn holds_path(files: &Vec<Entry>, wanted: &Vec<char>) -> (found: bool)
    ensures
        found == exists|j: int| 0 <= j < files@.len() && (#[trigger] files@[j]).path@ == wanted@,
{
    let mut j: usize = 0;
    while j < files.len()
        invariant
            j <= files.len(),
            forall|k: int| 0 <= k < j ==> (#[trigger] files@[k]).path@ != wanted@,
        decreases files.len() - j,
    {
        if spells(wanted, files[j].path.as_str()) {
            return true;
        }
        j += 1;
    }
    false
}

/// Whether the archive looks like it ships a generated `configure` script
/// together with its source.
pub fn detect_autotools(files: &Vec<Entry>) -> (found: bool)
    ensures
        found == spec_detect_autotools(entries_view(files@)),
{
    let ghost fv = entries_view(files@);
    let suffix = to_chars("/configure");
    let ac = to_chars(".ac");
    let mut i: usize = 0;
    while i < files.len()
        invariant
            i <= files.len(),
            fv == entries_view(files@),
            suffix@ == "/configure"@,
            ac@ == ".ac"@,
            forall|a: int, b: int| 0 <= a < i ==> !is_autotools_pair(fv, a, b),
        decreases files.len() - i,
    {
        let mut wanted = to_chars(files[i].path.as_str());
        if chars_end_with(&wanted, &suffix) {
            let mut k: usize = 0;
            while k < ac.len()
                invariant
                    k <= ac.len(),
                    wanted@ == files@[i as int].path@ + ac@.take(k as int),
                decreases ac.len() - k,
            {
                wanted.push(ac[k]);
                assert(ac@.take(k + 1) == ac@.take(k as int).push(ac@[k as int]));
                k += 1;
            }
            assert(ac@.take(ac@.len() as int) == ac@);
            if holds_path(files, &wanted) {
                let ghost j = choose|j: int|
                    0 <= j < files@.len() && (#[trigger] files@[j]).path@ == wanted@;
                assert(is_autotools_pair(fv, i as int, j));
                return true;
            }
            assert forall|b: int| !is_autotools_pair(fv, i as int, b) by {
                if is_autotools_pair(fv, i as int, b) {
                    assert(files@[b].path@ == wanted@);
                }
            }
        }
        i += 1;
    }
    false
}

} // verus!
