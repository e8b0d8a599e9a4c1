//! Searching package names by prefix.

use crate::text::{push_char, to_chars};
use vstd::prelude::*;

verus! {

/// The most references a search brings back.
pub const SEARCH_LIMIT: usize = 150;

/// What the store is asked for.
#[derive(Clone, Debug, PartialEq, Eq)]
pub struct SearchPlan {
    /// The pattern: `%` stands for any run of characters.
    pub query: String,
    /// How many references to bring back at most.
    pub limit: usize,
}

/// The characters that a visitor types and a pattern reads as wildcards.
pub open spec fn is_wildcard(c: char) -> bool {
    c == '%' || c == '_'
}

/// The test for being no wildcard.
pub open spec fn is_plain() -> spec_fn(char) -> bool {
    |c: char| !is_wildcard(c)
}

/// The pattern for what a visitor typed: the text without its wildcards,
/// then `%`, so that it matches every name that begins with the text.
pub open spec fn spec_search_pattern(q: Seq<char>) -> Seq<char> {
    q.filter(is_plain()).push('%')
}

/// The pattern that finds the names beginning with `q`.
pub fn search_pattern(q: &str) -> (pattern: String)
    ensures
        pattern@ == spec_search_pattern(q@),
{
    let chars = to_chars(q);
    let mut out = String::new();
    let mut i: usize = 0;
    proof {
        assert(chars@.take(0) == Seq::<char>::empty());
        Seq::<char>::empty().lemma_filter_len(is_plain());
        assert(chars@.take(0).filter(is_plain()) == Seq::<char>::empty());
    }
    while i < chars.len()
        invariant
            i <= chars.len(),
            out@ == chars@.take(i as int).filter(is_plain()),
        decreases chars.len() - i,
    {
        let c = chars[i];
        proof {
            chars@.take(i as int).lemma_filter_push(c, is_plain());
            assert(chars@.take(i + 1) == chars@.take(i as int).push(c));
        }
        if c != '%' && c != '_' {
            push_char(&mut out, c);
        }
        i += 1;
    }
    assert(chars@.take(chars@.len() as int) == chars@);
    push_char(&mut out, '%');
    out
}

/// What to ask the store for when a visitor searches for `q`.
pub fn search(q: &str) -> (plan: SearchPlan)
    ensures
        plan.query@ == spec_search_pattern(q@),
        plan.limit == SEARCH_LIMIT,
{
    SearchPlan { query: search_pattern(q), limit: SEARCH_LIMIT }
}

/// A pattern holds one wildcard only, the `%` at its end.
pub proof fn pattern_has_one_wildcard(q: Seq<char>)
    ensures
        spec_search_pattern(q).last() == '%',
        forall|i: int|
            0 <= i < spec_search_pattern(q).len() - 1 ==> !is_wildcard(
                #[trigger] spec_search_pattern(q)[i],
            ),
{
    let kept = q.filter(is_plain());
    assert forall|i: int| 0 <= i < spec_search_pattern(q).len() - 1 implies !is_wildcard(
        #[trigger] spec_search_pattern(q)[i],
    ) by {
        q.lemma_filter_pred(is_plain(), i);
        assert(spec_search_pattern(q)[i] == kept[i]);
    }
}

} // verus!
