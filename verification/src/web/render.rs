//! The text forms of what is shown: the listing of an archive, and the
//! helpers that lay out its columns.

use crate::model::{Artifact, Entry, EntryView, LinkView, LinksTo};
use crate::text::{pad_left, push_spaces, spec_pad_left, spec_pad_right};
use num_format::{Locale, ToFormattedString};
use vstd::prelude::*;
use vstd::string::{StrSliceExecFns, StringExecFns};

verus! {

/// The width of the digest column of a listing.
pub const DIGEST_COLUMN: usize = 73;

/// What follows the path of a link entry: ` -> ` and the target of a
/// symbolic link, ` link to ` and the target of a hard link.
pub open spec fn spec_link_suffix(links_to: Option<LinkView>) -> Seq<char> {
    match links_to {
        Some(LinkView::Symbolic(target)) => " -> "@ + target,
        Some(LinkView::Hard(target)) => " link to "@ + target,
        None => Seq::empty(),
    }
}

/// The digest column of an entry: its digest padded with spaces to the
/// column's width, or that many spaces where it has none.
pub open spec fn spec_digest_column(digest: Option<Seq<char>>) -> Seq<char> {
    spec_pad_right(
        match digest {
            Some(d) => d,
            None => Seq::empty(),
        },
        DIGEST_COLUMN as nat,
    )
}

/// The line of one entry: the digest column, the path, the link suffix and
/// a newline.
pub open spec fn spec_render_entry(e: EntryView) -> Seq<char> {
    spec_digest_column(e.digest) + e.path + spec_link_suffix(e.links_to) + "\n"@
}

/// The listing of `files`: the lines of the entries, in order.
pub open spec fn spec_render_files(files: Seq<EntryView>) -> Seq<char>
    decreases files.len(),
{
    if files.len() == 0 {
        Seq::empty()
    } else {
        spec_render_files(files.drop_last()) + spec_render_entry(files.last())
    }
}

/// Appends the line of `e` to `out`.
fn push_entry(out: &mut String, e: &Entry)
    ensures
        final(out)@ == old(out)@ + spec_render_entry(e@),
{
    let ghost before = out@;
    let width: usize = match &e.digest {
        Some(d) => {
            out.append(d.as_str());
            d.as_str().unicode_len()
        },
        None => 0,
    };
    if width < DIGEST_COLUMN {
        push_spaces(out, DIGEST_COLUMN - width);
    }
    assert(out@ == before + spec_digest_column(e@.digest));
    out.append(e.path.as_str());
    match &e.links_to {
        Some(LinksTo::Symbolic(target)) => {
            out.append(" -> ");
            out.append(target.as_str());
        },
        Some(LinksTo::Hard(target)) => {
            out.append(" link to ");
            out.append(target.as_str());
        },
        None => {},
    }
    assert(out@ == before + spec_digest_column(e@.digest) + e@.path + spec_link_suffix(
        e@.links_to,
    ));
    out.append("\n");
    assert(out@ == before + spec_render_entry(e@));
}

/// The listing of `files`, one line per entry.
pub fn render_files(files: &Vec<Entry>) -> (out: String)
    ensures
        out@ == spec_render_files(crate::model::entries_view(files@)),
{
    let ghost all = crate::model::entries_view(files@);
    let mut out = String::new();
    let mut i: usize = 0;
    while i < files.len()
        invariant
            i <= files.len(),
            all == crate::model::entries_view(files@),
            out@ == spec_render_files(all.take(i as int)),
        decreases files.len() - i,
    {
        proof {
            let next = all.take(i + 1);
            assert(next.drop_last() == all.take(i as int));
            assert(next.last() == files@[i as int]@);
        }
        push_entry(&mut out, &files[i]);
        i += 1;
    }
    assert(all.take(files@.len() as int) == all);
    out
}

/// The listing of an artifact as fixed-width text: a digest column of 73
/// characters, then the path, then the link target for links. Each entry
/// takes one line. An artifact whose entries were not kept lists nothing.
pub fn render_archive(artifact: &Artifact) -> (out: String)
    ensures
        out@ == spec_render_files(artifact.files_view()),
{
    match &artifact.files {
        Some(files) => render_files(files),
        None => String::new(),
    }
}

/// The digit for `d`.
pub open spec fn digit(d: int) -> char
    recommends
        0 <= d < 10,
{
    (('0' as u8) + d) as u8 as char
}

/// The three digits of `n`, zeros included.
pub open spec fn three_digits(n: int) -> Seq<char>
    recommends
        0 <= n < 1000,
{
    seq![digit(n / 100), digit((n / 10) % 10), digit(n % 10)]
}

/// The decimal digits of `n` in groups of three, a comma between groups.
pub open spec fn spec_grouped_nat(n: int) -> Seq<char>
    recommends
        0 <= n,
    decreases n,
{
    if n < 10 {
        seq![digit(n)]
    } else if n < 100 {
        seq![digit(n / 10), digit(n % 10)]
    } else if n < 1000 {
        three_digits(n)
    } else {
        spec_grouped_nat(n / 1000) + seq![','] + three_digits(n % 1000)
    }
}

/// `v` in decimal with a comma between groups of three digits, and a minus
/// sign in front where it is negative.
pub open spec fn spec_grouped(v: int) -> Seq<char> {
    if v < 0 {
        seq!['-'] + spec_grouped_nat(-v)
    } else {
        spec_grouped_nat(v)
    }
}

/// `v` with thousands separators.
///
/// Trusted: calls `num_format::ToFormattedString::to_formatted_string` with
/// `Locale::en`. That locale's separator is a comma, its grouping is by
/// three digits and its minus sign is `-`; the claim is that the result is
/// the decimal form of `v` laid out that way.
#[verifier::external_body]
fn group_thousands(v: i64) -> (s: String)
    ensures
        s@ == spec_grouped(v as int),
{
    v.to_formatted_string(&Locale::en)
}

/// `v` with thousands separators, right-aligned in `width` characters.
pub fn format_num(v: i64, width: usize) -> (out: String)
    ensures
        out@ == spec_pad_left(spec_grouped(v as int), width as nat),
{
    let digits = group_thousands(v);
    pad_left(digits.as_str(), width)
}

/// In a listing, the path of an entry begins right after the digest column
/// whenever the digest fits the column.
pub proof fn digest_column_is_fixed(digest: Option<Seq<char>>)
    requires
        digest matches Some(d) ==> d.len() <= DIGEST_COLUMN,
    ensures
        spec_digest_column(digest).len() == DIGEST_COLUMN,
{
}

/// The listing of a list followed by another is the two listings one after
/// the other: every entry's line depends on that entry alone.
pub proof fn render_files_concat(a: Seq<EntryView>, b: Seq<EntryView>)
    ensures
        spec_render_files(a + b) == spec_render_files(a) + spec_render_files(b),
    decreases b.len(),
{
    if b.len() == 0 {
        assert(a + b == a);
    } else {
        render_files_concat(a, b.drop_last());
        assert((a + b).drop_last() == a + b.drop_last());
        assert((a + b).last() == b.last());
    }
}

} // verus!
