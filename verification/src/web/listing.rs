//! Preparing two listings for comparison: paths may lose their leading
//! component, and entries are put in the order of their paths.

use crate::model::{entries_view, Entry, EntryView};
use crate::text::{
    from_chars, lex_le, lex_le_antisymmetric, lex_le_reflexive, lex_le_total, lex_le_transitive,
    str_le, to_chars,
};
use vstd::prelude::*;

verus! {

/// What follows the first `/` of `p`, if `p` has one.
pub open spec fn after_first_slash(p: Seq<char>) -> Option<Seq<char>>
    decreases p.len(),
{
    if p.len() == 0 {
        None
    } else if p[0] == '/' {
        Some(p.drop_first())
    } else {
        after_first_slash(p.drop_first())
    }
}

/// `p` without its leading component: what follows its first `/`, or all
/// of `p` where it has none.
pub open spec fn spec_trim_path(p: Seq<char>) -> Seq<char> {
    match after_first_slash(p) {
        Some(rest) => rest,
        None => p,
    }
}

/// `e` with its path trimmed.
pub open spec fn spec_trim_entry(e: EntryView) -> EntryView {
    EntryView { path: spec_trim_path(e.path), digest: e.digest, links_to: e.links_to }
}

/// `files` with every path trimmed.
pub open spec fn spec_trimmed(files: Seq<EntryView>) -> Seq<EntryView> {
    files.map_values(|e: EntryView| spec_trim_entry(e))
}

/// Whether the paths of `s` never go down.
pub open spec fn sorted_by_path(s: Seq<EntryView>) -> bool {
    forall|i: int, j: int| 0 <= i < j < s.len() ==> lex_le(#[trigger] s[i].path, #[trigger] s[j].path)
}

/// The test for having the path `p`.
pub open spec fn path_is(p: Seq<char>) -> spec_fn(EntryView) -> bool {
    |e: EntryView| e.path == p
}

/// The entries of `s` whose path is `p`, in the order they have in `s`.
pub open spec fn with_path(s: Seq<EntryView>, p: Seq<char>) -> Seq<EntryView> {
    s.filter(path_is(p))
}

/// Whether `out` is `input` sorted by path with entries of equal path left
/// in the order they had: the paths of `out` never go down, and for every
/// path, `out` holds the same entries under it as `input`, in the same
/// order. There is exactly one such `out` for each `input`.
pub open spec fn is_stable_sort_of(out: Seq<EntryView>, input: Seq<EntryView>) -> bool {
    &&& sorted_by_path(out)
    &&& forall|p: Seq<char>| #[trigger] with_path(out, p) == with_path(input, p)
}

/// `input` sorted by path, entries of equal path left in their order.
pub open spec fn spec_sorted(input: Seq<EntryView>) -> Seq<EntryView> {
    choose|out: Seq<EntryView>| is_stable_sort_of(out, input)
}

/// `input` as it is compared: paths trimmed where asked, then sorted.
pub open spec fn spec_processed(input: Seq<EntryView>, trimmed: bool) -> Seq<EntryView> {
    spec_sorted(
        if trimmed {
            spec_trimmed(input)
        } else {
            input
        },
    )
}

/// `path` without its leading component.
pub fn trim_path(path: &str) -> (out: String)
    ensures
        out@ == spec_trim_path(path@),
{
    let chars = to_chars(path);
    let n = chars.len();
    let mut i: usize = 0;
    assert(chars@.skip(0) == chars@);
    while i < n
        invariant
            i <= n,
            n == chars@.len(),
            chars@ == path@,
            after_first_slash(chars@) == after_first_slash(chars@.skip(i as int)),
        decreases n - i,
    {
        let ghost rest = chars@.skip(i as int);
        assert(rest.len() > 0);
        assert(rest[0] == chars@[i as int]);
        assert(rest.drop_first() == chars@.skip(i + 1));
        if chars[i] == '/' {
            let out = from_chars(&chars, i + 1, n);
            assert(chars@.subrange(i + 1, n as int) == chars@.skip(i + 1));
            assert(after_first_slash(rest) == Some(rest.drop_first()));
            return out;
        }
        i += 1;
    }
    assert(chars@.skip(n as int).len() == 0);
    path.to_owned()
}

/// The two lists merged: at each step the smaller head is taken, the head
/// of `a` where the two are equal.
pub open spec fn spec_merge(a: Seq<EntryView>, b: Seq<EntryView>) -> Seq<EntryView>
    decreases a.len() + b.len(),
{
    if a.len() == 0 {
        b
    } else if b.len() == 0 {
        a
    } else if lex_le(a[0].path, b[0].path) {
        seq![a[0]] + spec_merge(a.drop_first(), b)
    } else {
        seq![b[0]] + spec_merge(a, b.drop_first())
    }
}

/// Whether `x` comes before or equals every path of `s`.
spec fn below_all(x: Seq<char>, s: Seq<EntryView>) -> bool {
    forall|i: int| 0 <= i < s.len() ==> lex_le(x, #[trigger] s[i].path)
}

proof fn merge_keeps_bound(a: Seq<EntryView>, b: Seq<EntryView>, x: Seq<char>)
    requires
        below_all(x, a),
        below_all(x, b),
    ensures
        below_all(x, spec_merge(a, b)),
        spec_merge(a, b).len() == a.len() + b.len(),
    decreases a.len() + b.len(),
{
    if a.len() == 0 || b.len() == 0 {
    } else if lex_le(a[0].path, b[0].path) {
        let rest = a.drop_first();
        assert forall|i: int| 0 <= i < rest.len() implies lex_le(x, #[trigger] rest[i].path) by {
            assert(rest[i] == a[i + 1]);
        }
        merge_keeps_bound(rest, b, x);
        let m = spec_merge(rest, b);
        assert forall|i: int| 0 <= i < spec_merge(a, b).len() implies lex_le(
            x,
            #[trigger] spec_merge(a, b)[i].path,
        ) by {
            if i > 0 {
                assert(spec_merge(a, b)[i] == m[i - 1]);
            }
        }
    } else {
        let rest = b.drop_first();
        assert forall|i: int| 0 <= i < rest.len() implies lex_le(x, #[trigger] rest[i].path) by {
            assert(rest[i] == b[i + 1]);
        }
        merge_keeps_bound(a, rest, x);
        let m = spec_merge(a, rest);
        assert forall|i: int| 0 <= i < spec_merge(a, b).len() implies lex_le(
            x,
            #[trigger] spec_merge(a, b)[i].path,
        ) by {
            if i > 0 {
                assert(spec_merge(a, b)[i] == m[i - 1]);
            }
        }
    }
}

proof fn sorted_tail(s: Seq<EntryView>)
    requires
        sorted_by_path(s),
        s.len() > 0,
    ensures
        sorted_by_path(s.drop_first()),
        below_all(s[0].path, s),
{
    let t = s.drop_first();
    assert forall|i: int, j: int| 0 <= i < j < t.len() implies lex_le(
        #[trigger] t[i].path,
        #[trigger] t[j].path,
    ) by {
        assert(t[i] == s[i + 1]);
        assert(t[j] == s[j + 1]);
    }
    assert forall|i: int| 0 <= i < s.len() implies lex_le(s[0].path, #[trigger] s[i].path) by {
        if i == 0 {
            lex_le_reflexive(s[0].path);
        }
    }
}

proof fn bound_passes_on(x: Seq<char>, y: Seq<char>, s: Seq<EntryView>)
    requires
        lex_le(x, y),
        below_all(y, s),
    ensures
        below_all(x, s),
{
    assert forall|i: int| 0 <= i < s.len() implies lex_le(x, #[trigger] s[i].path) by {
        lex_le_transitive(x, y, s[i].path);
    }
}

proof fn sorted_with_head(h: EntryView, t: Seq<EntryView>)
    requires
        sorted_by_path(t),
        below_all(h.path, t),
    ensures
        sorted_by_path(seq![h] + t),
{
    let s = seq![h] + t;
    assert forall|i: int, j: int| 0 <= i < j < s.len() implies lex_le(
        #[trigger] s[i].path,
        #[trigger] s[j].path,
    ) by {
        assert(s[j] == t[j - 1]);
        if i > 0 {
            assert(s[i] == t[i - 1]);
        }
    }
}

/// Merging two sorted lists gives a sorted list.
pub proof fn merge_is_sorted(a: Seq<EntryView>, b: Seq<EntryView>)
    requires
        sorted_by_path(a),
        sorted_by_path(b),
    ensures
        sorted_by_path(spec_merge(a, b)),
    decreases a.len() + b.len(),
{
    if a.len() == 0 || b.len() == 0 {
    } else {
        sorted_tail(a);
        sorted_tail(b);
        if lex_le(a[0].path, b[0].path) {
            let rest = a.drop_first();
            merge_is_sorted(rest, b);
            assert(below_all(a[0].path, rest)) by {
                assert forall|i: int| 0 <= i < rest.len() implies lex_le(
                    a[0].path,
                    #[trigger] rest[i].path,
                ) by {
                    assert(rest[i] == a[i + 1]);
                }
            }
            bound_passes_on(a[0].path, b[0].path, b);
            merge_keeps_bound(rest, b, a[0].path);
            sorted_with_head(a[0], spec_merge(rest, b));
        } else {
            let rest = b.drop_first();
            merge_is_sorted(a, rest);
            lex_le_total(a[0].path, b[0].path);
            assert(below_all(b[0].path, rest)) by {
                assert forall|i: int| 0 <= i < rest.len() implies lex_le(
                    b[0].path,
                    #[trigger] rest[i].path,
                ) by {
                    assert(rest[i] == b[i + 1]);
                }
            }
            bound_passes_on(b[0].path, a[0].path, a);
            merge_keeps_bound(a, rest, b[0].path);
            sorted_with_head(b[0], spec_merge(a, rest));
        }
    }
}

proof fn with_path_of_none(s: Seq<EntryView>, p: Seq<char>)
    requires
        forall|i: int| 0 <= i < s.len() ==> (#[trigger] s[i]).path != p,
    ensures
        with_path(s, p) == Seq::<EntryView>::empty(),
{
    let f = with_path(s, p);
    if f.len() > 0 {
        s.lemma_filter_pred(path_is(p), 0);
        assert(f.contains(f[0]));
        s.lemma_filter_contains_rev(path_is(p), f[0]);
        let i = choose|i: int| 0 <= i < s.len() && s[i] == f[0];
        assert(s[i].path == p);
    }
    assert(f =~= Seq::<EntryView>::empty());
}

proof fn with_path_of_head(h: EntryView, t: Seq<EntryView>, p: Seq<char>)
    ensures
        with_path(seq![h] + t, p) == (if h.path == p {
            seq![h]
        } else {
            Seq::<EntryView>::empty()
        }) + with_path(t, p),
{
    t.lemma_filter_prepend(h, path_is(p));
}

/// Merging keeps, under every path, the entries of the first list followed
/// by those of the second.
pub proof fn merge_keeps_paths(a: Seq<EntryView>, b: Seq<EntryView>, p: Seq<char>)
    requires
        sorted_by_path(a),
        sorted_by_path(b),
    ensures
        with_path(spec_merge(a, b), p) == with_path(a, p) + with_path(b, p),
    decreases a.len() + b.len(),
{
    if a.len() == 0 {
        with_path_of_none(a, p);
    } else if b.len() == 0 {
        with_path_of_none(b, p);
    } else {
        sorted_tail(a);
        sorted_tail(b);
        if lex_le(a[0].path, b[0].path) {
            let rest = a.drop_first();
            merge_keeps_paths(rest, b, p);
            with_path_of_head(a[0], spec_merge(rest, b), p);
            with_path_of_head(a[0], rest, p);
            assert(a == seq![a[0]] + rest);
        } else {
            let rest = b.drop_first();
            merge_keeps_paths(a, rest, p);
            with_path_of_head(b[0], spec_merge(a, rest), p);
            with_path_of_head(b[0], rest, p);
            assert(b == seq![b[0]] + rest);
            if b[0].path == p {
                assert forall|i: int| 0 <= i < a.len() implies (#[trigger] a[i]).path != p by {
                    if a[i].path == p {
                        assert(lex_le(a[0].path, a[i].path));
                    }
                }
                with_path_of_none(a, p);
            }
        }
    }
}

proof fn with_path_of_last(s: Seq<EntryView>, p: Seq<char>)
    requires
        s.len() > 0,
    ensures
        with_path(s, p) == (if s.last().path == p {
            with_path(s.drop_last(), p).push(s.last())
        } else {
            with_path(s.drop_last(), p)
        }),
{
    s.drop_last().lemma_filter_push(s.last(), path_is(p));
    assert(s.drop_last().push(s.last()) == s);
}

proof fn holds_its_paths(s: Seq<EntryView>, i: int)
    requires
        0 <= i < s.len(),
    ensures
        with_path(s, s[i].path).contains(s[i]),
{
    s.lemma_filter_contains(path_is(s[i].path), i);
}

proof fn last_is_greatest(s: Seq<EntryView>, x: EntryView)
    requires
        sorted_by_path(s),
        s.len() > 0,
        s.contains(x),
    ensures
        lex_le(x.path, s.last().path),
{
    let j = choose|j: int| 0 <= j < s.len() && s[j] == x;
    if j == s.len() - 1 {
        lex_le_reflexive(x.path);
    } else {
        assert(lex_le(s[j].path, s[s.len() - 1].path));
    }
}

proof fn sorted_front(s: Seq<EntryView>)
    requires
        sorted_by_path(s),
        s.len() > 0,
    ensures
        sorted_by_path(s.drop_last()),
{
    let t = s.drop_last();
    assert forall|i: int, j: int| 0 <= i < j < t.len() implies lex_le(
        #[trigger] t[i].path,
        #[trigger] t[j].path,
    ) by {
        assert(t[i] == s[i]);
        assert(t[j] == s[j]);
    }
}

/// Two sorted lists that hold the same entries under every path, in the
/// same order, are the same list.
pub proof fn sorted_lists_agree(a: Seq<EntryView>, b: Seq<EntryView>)
    requires
        sorted_by_path(a),
        sorted_by_path(b),
        forall|p: Seq<char>| #[trigger] with_path(a, p) == with_path(b, p),
    ensures
        a == b,
    decreases a.len(),
{
    if a.len() == 0 || b.len() == 0 {
        if a.len() > 0 {
            holds_its_paths(a, 0);
            with_path_of_none(b, a[0].path);
            assert(with_path(a, a[0].path) == with_path(b, a[0].path));
        }
        if b.len() > 0 {
            holds_its_paths(b, 0);
            with_path_of_none(a, b[0].path);
            assert(with_path(a, b[0].path) == with_path(b, b[0].path));
        }
        assert(a =~= b);
    } else {
        let x = a.last();
        let y = b.last();
        holds_its_paths(a, a.len() - 1);
        assert(with_path(a, x.path) == with_path(b, x.path));
        b.lemma_filter_contains_rev(path_is(x.path), x);
        last_is_greatest(b, x);
        holds_its_paths(b, b.len() - 1);
        assert(with_path(a, y.path) == with_path(b, y.path));
        a.lemma_filter_contains_rev(path_is(y.path), y);
        last_is_greatest(a, y);
        lex_le_antisymmetric(x.path, y.path);
        let fa = a.drop_last();
        let fb = b.drop_last();
        sorted_front(a);
        sorted_front(b);
        assert forall|p: Seq<char>| #[trigger] with_path(fa, p) == with_path(fb, p) by {
            with_path_of_last(a, p);
            with_path_of_last(b, p);
            assert(with_path(a, p) == with_path(b, p));
            if x.path == p {
                let wa = with_path(fa, p).push(x);
                let wb = with_path(fb, p).push(y);
                assert(wa == wb);
                assert(wa.drop_last() == with_path(fa, p));
                assert(wb.drop_last() == with_path(fb, p));
            }
        }
        sorted_lists_agree(fa, fb);
        with_path_of_last(a, x.path);
        with_path_of_last(b, x.path);
        assert(with_path(a, x.path) == with_path(b, x.path));
        assert(with_path(fa, x.path).push(x).last() == x);
        assert(with_path(fb, x.path).push(y).last() == y);
        assert(x == y);
        assert(a == fa.push(x));
        assert(b == fb.push(y));
    }
}

/// A list has only one sorted form that keeps entries of equal path in
/// their order.
pub proof fn stable_sort_is_unique(a: Seq<EntryView>, b: Seq<EntryView>, input: Seq<EntryView>)
    requires
        is_stable_sort_of(a, input),
        is_stable_sort_of(b, input),
    ensures
        a == b,
{
    assert forall|p: Seq<char>| #[trigger] with_path(a, p) == with_path(b, p) by {
        assert(with_path(a, p) == with_path(input, p));
        assert(with_path(b, p) == with_path(input, p));
    }
    sorted_lists_agree(a, b);
}

/// A list that is sorted already is its own sorted form.
pub proof fn sorted_list_is_kept(s: Seq<EntryView>)
    requires
        sorted_by_path(s),
    ensures
        is_stable_sort_of(s, s),
{
}

/// The entries of `fv` at the indices `idx`, in the order of `idx`.
spec fn pick(fv: Seq<EntryView>, idx: Seq<usize>) -> Seq<EntryView> {
    idx.map_values(|k: usize| fv[k as int])
}

spec fn all_below(idx: Seq<usize>, n: nat) -> bool {
    forall|i: int| 0 <= i < idx.len() ==> #[trigger] idx[i] < n
}

/// Merges two runs of indices into `files`, by the paths they point at.
fn merge(files: &Vec<Entry>, a: &Vec<usize>, b: &Vec<usize>) -> (out: Vec<usize>)
    requires
        all_below(a@, files@.len()),
        all_below(b@, files@.len()),
        a@.len() + b@.len() <= usize::MAX,
    ensures
        all_below(out@, files@.len()),
        pick(entries_view(files@), out@) == spec_merge(
            pick(entries_view(files@), a@),
            pick(entries_view(files@), b@),
        ),
{
    let ghost fv = entries_view(files@);
    let ghost pa = pick(fv, a@);
    let ghost pb = pick(fv, b@);
    let mut out: Vec<usize> = Vec::new();
    let mut i: usize = 0;
    let mut j: usize = 0;
    assert(pa.skip(0) == pa);
    assert(pb.skip(0) == pb);
    assert(pick(fv, out@) == Seq::<EntryView>::empty());
    while i < a.len() || j < b.len()
        invariant
            i <= a.len(),
            j <= b.len(),
            a@.len() + b@.len() <= usize::MAX,
            fv == entries_view(files@),
            pa == pick(fv, a@),
            pb == pick(fv, b@),
            all_below(a@, files@.len()),
            all_below(b@, files@.len()),
            all_below(out@, files@.len()),
            pick(fv, out@) + spec_merge(pa.skip(i as int), pb.skip(j as int)) == spec_merge(pa, pb),
        decreases a.len() - i + (b.len() - j),
    {
        let ghost ra = pa.skip(i as int);
        let ghost rb = pb.skip(j as int);
        let ghost before = pick(fv, out@);
        let take_a = if i >= a.len() {
            false
        } else if j >= b.len() {
            true
        } else {
            assert(ra[0] == fv[a@[i as int] as int]);
            assert(rb[0] == fv[b@[j as int] as int]);
            str_le(files[a[i]].path.as_str(), files[b[j]].path.as_str())
        };
        if take_a {
            let k = a[i];
            assert(ra[0] == fv[k as int]);
            assert(ra.drop_first() == pa.skip(i + 1));
            assert(spec_merge(ra, rb) == seq![ra[0]] + spec_merge(pa.skip(i + 1), rb)) by {
                if rb.len() == 0 {
                    assert(ra == seq![ra[0]] + ra.drop_first());
                }
            }
            out.push(k);
            i += 1;
            assert(pick(fv, out@) == before.push(fv[k as int]));
            assert(before.push(fv[k as int]) + spec_merge(pa.skip(i as int), rb) == before + (
            seq![fv[k as int]] + spec_merge(pa.skip(i as int), rb)));
        } else {
            let k = b[j];
            assert(rb[0] == fv[k as int]);
            assert(rb.drop_first() == pb.skip(j + 1));
            assert(spec_merge(ra, rb) == seq![rb[0]] + spec_merge(ra, pb.skip(j + 1))) by {
                if ra.len() == 0 {
                    assert(rb == seq![rb[0]] + rb.drop_first());
                }
            }
            out.push(k);
            j += 1;
            assert(pick(fv, out@) == before.push(fv[k as int]));
            assert(before.push(fv[k as int]) + spec_merge(ra, pb.skip(j as int)) == before + (
            seq![fv[k as int]] + spec_merge(ra, pb.skip(j as int))));
        }
    }
    assert(pa.skip(i as int).len() == 0);
    assert(pick(fv, out@) + pb.skip(j as int) == pick(fv, out@));
    out
}

/// The indices `lo..hi` in the order of the paths they point at, indices of
/// equal path in rising order.
fn sort_range(files: &Vec<Entry>, lo: usize, hi: usize) -> (out: Vec<usize>)
    requires
        lo <= hi <= files@.len(),
    ensures
        all_below(out@, files@.len()),
        out@.len() == hi - lo,
        is_stable_sort_of(
            pick(entries_view(files@), out@),
            entries_view(files@).subrange(lo as int, hi as int),
        ),
    decreases hi - lo,
{
    let ghost fv = entries_view(files@);
    let ghost input = fv.subrange(lo as int, hi as int);
    if hi - lo <= 1 {
        let mut out: Vec<usize> = Vec::new();
        if hi - lo == 1 {
            out.push(lo);
        }
        assert(pick(fv, out@) == input);
        return out;
    }
    let mid = lo + (hi - lo) / 2;
    let left = sort_range(files, lo, mid);
    let right = sort_range(files, mid, hi);
    let out = merge(files, &left, &right);
    proof {
        let pl = pick(fv, left@);
        let pr = pick(fv, right@);
        let il = fv.subrange(lo as int, mid as int);
        let ir = fv.subrange(mid as int, hi as int);
        merge_is_sorted(pl, pr);
        merge_keeps_bound(pl, pr, Seq::<char>::empty());
        assert(input == il + ir);
        assert forall|p: Seq<char>| #[trigger]
            with_path(pick(fv, out@), p) == with_path(input, p) by {
            merge_keeps_paths(pl, pr, p);
            assert(with_path(pl, p) == with_path(il, p));
            assert(with_path(pr, p) == with_path(ir, p));
            Seq::filter_distributes_over_add(il, ir, path_is(p));
        }
        assert(pick(fv, out@).len() == out@.len());
    }
    out
}

/// Sorts `list` by path, after trimming the paths where `trimmed` holds.
/// Entries of equal path stay in the order they came in.
pub fn process_files_list(list: Vec<Entry>, trimmed: bool) -> (out: Vec<Entry>)
    ensures
        entries_view(out@) == spec_processed(entries_view(list@), trimmed),
        is_stable_sort_of(
            entries_view(out@),
            if trimmed {
                spec_trimmed(entries_view(list@))
            } else {
                entries_view(list@)
            },
        ),
        out@.len() == list@.len(),
{
    let mut work: Vec<Entry> = Vec::new();
    let ghost input = if trimmed {
        spec_trimmed(entries_view(list@))
    } else {
        entries_view(list@)
    };
    let mut i: usize = 0;
    while i < list.len()
        invariant
            i <= list.len(),
            input == (if trimmed {
                spec_trimmed(entries_view(list@))
            } else {
                entries_view(list@)
            }),
            entries_view(work@) == input.take(i as int),
        decreases list.len() - i,
    {
        let ghost before = entries_view(work@);
        let e = &list[i];
        let copy = e.duplicate();
        let item = if trimmed {
            Entry {
                path: trim_path(e.path.as_str()),
                digest: copy.digest,
                links_to: copy.links_to,
            }
        } else {
            copy
        };
        assert(item@ == input[i as int]);
        work.push(item);
        assert(entries_view(work@) == before.push(input[i as int]));
        assert(input.take(i + 1) == input.take(i as int).push(input[i as int]));
        i += 1;
    }
    assert(input.take(list@.len() as int) == input);
    let order = sort_range(&work, 0, work.len());
    assert(entries_view(work@).subrange(0, work@.len() as int) == input);
    let mut out: Vec<Entry> = Vec::new();
    let mut k: usize = 0;
    while k < order.len()
        invariant
            k <= order.len(),
            all_below(order@, work@.len()),
            entries_view(out@) == pick(entries_view(work@), order@).take(k as int),
        decreases order.len() - k,
    {
        let ghost before = entries_view(out@);
        let ghost picked = pick(entries_view(work@), order@);
        let item = work[order[k]].duplicate();
        assert(item@ == picked[k as int]);
        out.push(item);
        assert(entries_view(out@) == before.push(picked[k as int]));
        assert(picked.take(k + 1) == picked.take(k as int).push(picked[k as int]));
        k += 1;
    }
    assert(pick(entries_view(work@), order@).take(order@.len() as int) == pick(
        entries_view(work@),
        order@,
    ));
    proof {
        stable_sort_is_unique(entries_view(out@), spec_sorted(input), input);
    }
    out
}

} // verus!
