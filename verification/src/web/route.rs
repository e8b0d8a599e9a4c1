//! Which page a request path names, and how replies are to be cached.

use crate::text::{from_chars, spells, to_chars};
use vstd::prelude::*;

verus! {

/// What a request asks for.
#[derive(Clone, Debug, PartialEq, Eq)]
pub enum Route {
    /// `/`
    Index,
    /// `/artifact/{chksum}`, the parameter as written (it may end in `.json`).
    Artifact { chksum: String },
    /// `/sbom/{chksum}`, the parameter as written (it may end in `.txt`).
    Sbom { chksum: String },
    /// `/search`
    Search,
    /// `/stats`
    Stats,
    /// `/diff/{a}/{b}`, `/diff-sorted/{a}/{b}` or `/diff-sorted-trimmed/{a}/{b}`.
    Diff { diff_from: String, diff_to: String, sorted: bool, trimmed: bool },
    /// `/assets/style.css`
    Style,
}

/// The mathematical value of a [`Route`].
pub enum RouteView {
    Index,
    Artifact { chksum: Seq<char> },
    Sbom { chksum: Seq<char> },
    Search,
    Stats,
    Diff { diff_from: Seq<char>, diff_to: Seq<char>, sorted: bool, trimmed: bool },
    Style,
}

impl View for Route {
    type V = RouteView;

    open spec fn view(&self) -> RouteView {
        match self {
            Route::Index => RouteView::Index,
            Route::Artifact { chksum } => RouteView::Artifact { chksum: chksum@ },
            Route::Sbom { chksum } => RouteView::Sbom { chksum: chksum@ },
            Route::Search => RouteView::Search,
            Route::Stats => RouteView::Stats,
            Route::Diff { diff_from, diff_to, sorted, trimmed } => RouteView::Diff {
                diff_from: diff_from@,
                diff_to: diff_to@,
                sorted: *sorted,
                trimmed: *trimmed,
            },
            Route::Style => RouteView::Style,
        }
    }
}

/// Why a request gets no page.
#[derive(Clone, Copy, Debug, PartialEq, Eq, Structural)]
pub enum Rejection {
    /// No page has that path, or nothing is recorded under that digest.
    NotFound,
    /// The request is not a GET.
    MethodNotAllowed,
    /// The query string lacks what the page needs.
    InvalidQuery,
    /// Looking up or rendering the page failed.
    Failed,
}

/// The status line and body of an error reply.
#[derive(Clone, Copy, Debug, PartialEq, Eq)]
pub struct ErrorReply {
    pub status: u16,
    pub message: &'static str,
}

/// How long a reply may be cached.
#[derive(Clone, Copy, Debug, PartialEq, Eq, Structural)]
pub enum CachePolicy {
    /// Pages that change only when something is ingested.
    Default,
    /// Pages that follow the store closely.
    Short,
}

/// The pieces of `s` between its `/` characters, in order. There is always
/// at least one piece; pieces may be empty.
pub open spec fn split_slash(s: Seq<char>) -> Seq<Seq<char>>
    decreases s.len(),
{
    if s.len() == 0 {
        seq![Seq::<char>::empty()]
    } else {
        let before = split_slash(s.drop_last());
        if s.last() == '/' {
            before.push(Seq::<char>::empty())
        } else {
            before.drop_last().push(before.last().push(s.last()))
        }
    }
}

/// `s` without one `/` at its end, if it has one.
pub open spec fn trim_slash(s: Seq<char>) -> Seq<char> {
    if s.len() > 0 && s.last() == '/' {
        s.drop_last()
    } else {
        s
    }
}

/// The page that the segments of a path name, if any. A parameter is a
/// segment that is not empty.
pub open spec fn route_of_segments(segs: Seq<Seq<char>>) -> Option<RouteView> {
    if segs.len() == 1 && segs[0] == "search"@ {
        Some(RouteView::Search)
    } else if segs.len() == 1 && segs[0] == "stats"@ {
        Some(RouteView::Stats)
    } else if segs.len() == 2 && segs[0] == "assets"@ && segs[1] == "style.css"@ {
        Some(RouteView::Style)
    } else if segs.len() == 2 && segs[0] == "artifact"@ && segs[1].len() > 0 {
        Some(RouteView::Artifact { chksum: segs[1] })
    } else if segs.len() == 2 && segs[0] == "sbom"@ && segs[1].len() > 0 {
        Some(RouteView::Sbom { chksum: segs[1] })
    } else if segs.len() == 3 && segs[1].len() > 0 && segs[2].len() > 0 {
        if segs[0] == "diff"@ {
            Some(
                RouteView::Diff {
                    diff_from: segs[1],
                    diff_to: segs[2],
                    sorted: false,
                    trimmed: false,
                },
            )
        } else if segs[0] == "diff-sorted"@ {
            Some(
                RouteView::Diff {
                    diff_from: segs[1],
                    diff_to: segs[2],
                    sorted: true,
                    trimmed: false,
                },
            )
        } else if segs[0] == "diff-sorted-trimmed"@ {
            Some(
                RouteView::Diff { diff_from: segs[1], diff_to: segs[2], sorted: true, trimmed: true },
            )
        } else {
            None
        }
    } else {
        None
    }
}

/// The page that `path` names. A path begins with `/`; what follows is cut
/// at each `/`, and one `/` at the very end is ignored. `/` alone is the
/// index.
pub open spec fn spec_route(path: Seq<char>) -> Option<RouteView> {
    if path.len() == 0 || path[0] != '/' {
        None
    } else if path.len() == 1 {
        Some(RouteView::Index)
    } else {
        route_of_segments(split_slash(trim_slash(path.drop_first())))
    }
}

/// The reply to a request: the page, or why there is none.
pub open spec fn spec_dispatch(get: bool, path: Seq<char>) -> Result<RouteView, Rejection> {
    if !get {
        Err(Rejection::MethodNotAllowed)
    } else {
        match spec_route(path) {
            Some(r) => Ok(r),
            None => Err(Rejection::NotFound),
        }
    }
}

/// The views of a list of segments.
pub open spec fn segments_view(segs: Seq<Vec<char>>) -> Seq<Seq<char>> {
    segs.map_values(|v: Vec<char>| v@)
}

/// Cuts `s[from..to]` at each `/`.
fn split_segments(s: &Vec<char>, from: usize, to: usize) -> (segs: Vec<Vec<char>>)
    requires
        from <= to <= s@.len(),
    ensures
        segments_view(segs@) == split_slash(s@.subrange(from as int, to as int)),
{
    let mut done: Vec<Vec<char>> = Vec::new();
    let mut cur: Vec<char> = Vec::new();
    let mut i: usize = from;
    assert(s@.subrange(from as int, from as int) == Seq::<char>::empty());
    assert(segments_view(done@).push(cur@) == seq![Seq::<char>::empty()]);
    while i < to
        invariant
            from <= i <= to <= s@.len(),
            segments_view(done@).push(cur@) == split_slash(s@.subrange(from as int, i as int)),
        decreases to - i,
    {
        let c = s[i];
        proof {
            let next = s@.subrange(from as int, i + 1);
            assert(next.drop_last() == s@.subrange(from as int, i as int));
            assert(next.last() == c);
            assert(segments_view(done@).push(cur@).drop_last() == segments_view(done@));
        }
        if c == '/' {
            let ghost before = segments_view(done@);
            done.push(cur);
            assert(segments_view(done@) == before.push(cur@));
            cur = Vec::new();
        } else {
            cur.push(c);
        }
        i += 1;
    }
    let ghost before = segments_view(done@);
    done.push(cur);
    assert(segments_view(done@) == before.push(cur@));
    done
}

/// The string that `v` spells.
fn text_of(v: &Vec<char>) -> (s: String)
    ensures
        s@ == v@,
{
    let s = from_chars(v, 0, v.len());
    assert(v@.subrange(0, v@.len() as int) == v@);
    s
}

/// Finds the page that `path` names.
pub fn route(path: &str) -> (r: Option<Route>)
    ensures
        match r {
            Some(route) => spec_route(path@) == Some(route@),
            None => spec_route(path@) is None,
        },
{
    let chars = to_chars(path);
    let n = chars.len();
    if n == 0 || chars[0] != '/' {
        return None;
    }
    if n == 1 {
        return Some(Route::Index);
    }
    let end = if chars[n - 1] == '/' {
        n - 1
    } else {
        n
    };
    proof {
        let rest = chars@.drop_first();
        assert(rest == chars@.subrange(1, n as int));
        assert(rest.last() == chars@[n - 1]);
        assert(trim_slash(rest) == chars@.subrange(1, end as int));
    }
    let segs = split_segments(&chars, 1, end);
    let ghost sv = segments_view(segs@);
    assert(forall|i: int| 0 <= i < segs@.len() ==> sv[i] == segs@[i]@);
    let k = segs.len();
    if k == 1 {
        if spells(&segs[0], "search") {
            return Some(Route::Search);
        }
        if spells(&segs[0], "stats") {
            return Some(Route::Stats);
        }
        return None;
    }
    if k == 2 {
        if spells(&segs[0], "assets") && spells(&segs[1], "style.css") {
            return Some(Route::Style);
        }
        if segs[1].len() == 0 {
            return None;
        }
        if spells(&segs[0], "artifact") {
            proof {
                reveal_strlit("artifact");
                reveal_strlit("assets");
            }
            return Some(Route::Artifact { chksum: text_of(&segs[1]) });
        }
        if spells(&segs[0], "sbom") {
            proof {
                reveal_strlit("sbom");
                reveal_strlit("assets");
            }
            return Some(Route::Sbom { chksum: text_of(&segs[1]) });
        }
        return None;
    }
    if k == 3 {
        if segs[1].len() == 0 || segs[2].len() == 0 {
            return None;
        }
        let sorted_trimmed = if spells(&segs[0], "diff") {
            Some((false, false))
        } else if spells(&segs[0], "diff-sorted") {
            Some((true, false))
        } else if spells(&segs[0], "diff-sorted-trimmed") {
            Some((true, true))
        } else {
            None
        };
        return match sorted_trimmed {
            Some((sorted, trimmed)) => Some(
                Route::Diff {
                    diff_from: text_of(&segs[1]),
                    diff_to: text_of(&segs[2]),
                    sorted,
                    trimmed,
                },
            ),
            None => None,
        };
    }
    None
}

/// Answers a request: only GET is served, and a path that names no page is
/// not found.
pub fn dispatch(get: bool, path: &str) -> (r: Result<Route, Rejection>)
    ensures
        match r {
            Ok(route) => spec_dispatch(get, path@) == Ok::<RouteView, Rejection>(route@),
            Err(e) => spec_dispatch(get, path@) == Err::<RouteView, Rejection>(e),
        },
{
    if !get {
        return Err(Rejection::MethodNotAllowed);
    }
    match route(path) {
        Some(r) => Ok(r),
        None => Err(Rejection::NotFound),
    }
}

/// The caching rule for a page: search results and statistics follow the
/// store closely, everything else changes only on ingest.
pub open spec fn spec_cache_policy(route: RouteView) -> CachePolicy {
    match route {
        RouteView::Search | RouteView::Stats => CachePolicy::Short,
        _ => CachePolicy::Default,
    }
}

/// The caching rule for the page `route`.
pub fn cache_policy(route: &Route) -> (p: CachePolicy)
    ensures
        p == spec_cache_policy(route@),
{
    match route {
        Route::Search | Route::Stats => CachePolicy::Short,
        _ => CachePolicy::Default,
    }
}

/// The `Cache-Control` header value that stands for `policy`.
pub fn cache_control(policy: CachePolicy) -> (value: &'static str)
    ensures
        value@ == match policy {
            CachePolicy::Default => "max-age=600, stale-while-revalidate=300, stale-if-error=300"@,
            CachePolicy::Short => "max-age=10, stale-while-revalidate=20, stale-if-error=60"@,
        },
{
    match policy {
        CachePolicy::Default => "max-age=600, stale-while-revalidate=300, stale-if-error=300",
        CachePolicy::Short => "max-age=10, stale-while-revalidate=20, stale-if-error=60",
    }
}

/// The reply that stands for a rejection: 404 where nothing was found, 500
/// for everything else.
pub fn rejection(err: Rejection) -> (reply: ErrorReply)
    ensures
        err == Rejection::NotFound ==> reply.status == 404 && reply.message@
            == "404 - file not found\n"@,
        err != Rejection::NotFound ==> reply.status == 500 && reply.message@ == "server error\n"@,
{
    match err {
        Rejection::NotFound => ErrorReply { status: 404, message: "404 - file not found\n" },
        _ => ErrorReply { status: 500, message: "server error\n" },
    }
}

} // verus!
