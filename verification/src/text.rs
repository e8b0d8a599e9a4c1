//! Text helpers over the characters of a string.
//!
//! Contracts here speak of a string's view, the sequence of its characters.

use vstd::prelude::*;
use vstd::std_specs::iter::IteratorSpec;
use vstd::string::StrSliceExecFns;

verus! {

/// `n` space characters.
pub open spec fn spaces(n: nat) -> Seq<char> {
    Seq::new(n, |i: int| ' ')
}

/// `s` followed by as many spaces as it takes to reach `width` characters;
/// `s` itself where it is already that long.
pub open spec fn spec_pad_right(s: Seq<char>, width: nat) -> Seq<char> {
    if s.len() >= width {
        s
    } else {
        s + spaces((width - s.len()) as nat)
    }
}

/// `s` preceded by as many spaces as it takes to reach `width` characters;
/// `s` itself where it is already that long.
pub open spec fn spec_pad_left(s: Seq<char>, width: nat) -> Seq<char> {
    if s.len() >= width {
        s
    } else {
        spaces((width - s.len()) as nat) + s
    }
}

/// Whether `a` comes before or equals `b` when strings are ordered by the
/// code points of their characters, a proper prefix coming first. This is
/// also the order of the strings' UTF-8 bytes.
pub open spec fn lex_le(a: Seq<char>, b: Seq<char>) -> bool
    decreases a.len(),
{
    if a.len() == 0 {
        true
    } else if b.len() == 0 {
        false
    } else if a[0] != b[0] {
        (a[0] as u32) < (b[0] as u32)
    } else {
        lex_le(a.drop_first(), b.drop_first())
    }
}

/// Appends one character to `s`.
///
/// Trusted: `String::push` is taken to add exactly `c` at the end.
#[verifier::external_body]
pub(crate) fn push_char(s: &mut String, c: char)
    ensures
        final(s)@ == old(s)@.push(c),
{
    s.push(c)
}

/// The characters of `s`, in order.
pub(crate) fn to_chars(s: &str) -> (v: Vec<char>)
    ensures
        v@ == s@,
{
    let mut v: Vec<char> = Vec::new();
    let mut it = s.chars();
    loop
        invariant
            v@ + it.remaining() == s@,
            it.decrease() is Some,
        decreases it.decrease()->0,
    {
        match it.next() {
            Some(c) => {
                v.push(c);
            },
            None => {
                return v;
            },
        }
    }
}

/// The string made of `chars[from..to]`.
pub(crate) fn from_chars(chars: &Vec<char>, from: usize, to: usize) -> (s: String)
    requires
        from <= to <= chars@.len(),
    ensures
        s@ == chars@.subrange(from as int, to as int),
{
    let mut s = String::new();
    let mut i: usize = from;
    while i < to
        invariant
            from <= i <= to <= chars@.len(),
            s@ == chars@.subrange(from as int, i as int),
        decreases to - i,
    {
        push_char(&mut s, chars[i]);
        i += 1;
    }
    s
}

/// Appends `n` spaces to `s`.
pub(crate) fn push_spaces(s: &mut String, n: usize)
    ensures
        final(s)@ == old(s)@ + spaces(n as nat),
{
    let mut i: usize = 0;
    while i < n
        invariant
            i <= n,
            s@ == old(s)@ + spaces(i as nat),
        decreases n - i,
    {
        push_char(s, ' ');
        i += 1;
    }
}

/// Pads `v` with spaces on the right up to `width` characters.
pub fn pad_right(v: &str, width: usize) -> (out: String)
    ensures
        out@ == spec_pad_right(v@, width as nat),
{
    let len = v.unicode_len();
    let mut out = v.to_owned();
    if len < width {
        push_spaces(&mut out, width - len);
    }
    out
}

/// Pads `v` with spaces on the left up to `width` characters.
pub fn pad_left(v: &str, width: usize) -> (out: String)
    ensures
        out@ == spec_pad_left(v@, width as nat),
{
    let len = v.unicode_len();
    let mut out = String::new();
    if len < width {
        push_spaces(&mut out, width - len);
    }
    out.append(v);
    out
}

/// Whether `s[at..at + pat.len()]` is `pat`.
fn matches_at(s: &Vec<char>, at: usize, pat: &Vec<char>) -> (b: bool)
    requires
        at + pat@.len() <= s@.len(),
    ensures
        b == (s@.subrange(at as int, at + pat@.len()) == pat@),
{
    let n = pat.len();
    let mut i: usize = 0;
    while i < n
        invariant
            n == pat@.len(),
            i <= n,
            at + n <= s.len(),
            s@.subrange(at as int, at + i) == pat@.subrange(0, i as int),
        decreases n - i,
    {
        if s[at + i] != pat[i] {
            assert(s@.subrange(at as int, at + n)[i as int] != pat@[i as int]);
            return false;
        }
        assert(s@.subrange(at as int, at + i + 1) == s@.subrange(at as int, at + i).push(
            s@[at + i],
        ));
        assert(pat@.subrange(0, i + 1) == pat@.subrange(0, i as int).push(pat@[i as int]));
        i += 1;
    }
    assert(pat@.subrange(0, n as int) == pat@);
    true
}

/// Whether the characters `s` end with the characters `suffix`.
pub(crate) fn chars_end_with(s: &Vec<char>, suffix: &Vec<char>) -> (b: bool)
    ensures
        b == suffix@.is_suffix_of(s@),
{
    if suffix.len() > s.len() {
        return false;
    }
    matches_at(s, s.len() - suffix.len(), suffix)
}

/// Whether the characters `s` begin with the characters `prefix`.
pub(crate) fn chars_start_with(s: &Vec<char>, prefix: &Vec<char>) -> (b: bool)
    ensures
        b == prefix@.is_prefix_of(s@),
{
    if prefix.len() > s.len() {
        return false;
    }
    matches_at(s, 0, prefix)
}

/// Whether `s` begins with `prefix`.
pub fn starts_with(s: &str, prefix: &str) -> (b: bool)
    ensures
        b == prefix@.is_prefix_of(s@),
{
    let sc = to_chars(s);
    let pc = to_chars(prefix);
    chars_start_with(&sc, &pc)
}

/// Whether the characters `v` spell the string `s`.
pub(crate) fn spells(v: &Vec<char>, s: &str) -> (b: bool)
    ensures
        b == (v@ == s@),
{
    let mut it = s.chars();
    let mut i: usize = 0;
    assert(v@.take(0) + it.remaining() == s@);
    loop
        invariant
            i <= v.len(),
            s@ == v@.take(i as int) + it.remaining(),
            it.decrease() is Some,
        decreases it.decrease()->0,
    {
        let ghost rest = it.remaining();
        match it.next() {
            None => {
                assert(s@ == v@.take(i as int));
                if i == v.len() {
                    assert(v@.take(i as int) == v@);
                }
                return i == v.len();
            },
            Some(c) => {
                assert(s@[i as int] == c);
                if i >= v.len() || v[i] != c {
                    return false;
                }
                assert(v@.take(i + 1) == v@.take(i as int).push(c));
                assert(rest == seq![c] + rest.drop_first());
                i += 1;
            },
        }
    }
}

/// Whether `a` comes before or equals `b` in the order of [`lex_le`].
pub fn str_le(a: &str, b: &str) -> (r: bool)
    ensures
        r == lex_le(a@, b@),
{
    let mut ia = a.chars();
    let mut ib = b.chars();
    loop
        invariant
            lex_le(a@, b@) == lex_le(ia.remaining(), ib.remaining()),
            ia.decrease() is Some,
        decreases ia.decrease()->0,
    {
        match ia.next() {
            None => {
                return true;
            },
            Some(x) => match ib.next() {
                None => {
                    return false;
                },
                Some(y) => {
                    if x != y {
                        return (x as u32) < (y as u32);
                    }
                },
            },
        }
    }
}

/// Every string comes before or equals itself.
pub proof fn lex_le_reflexive(a: Seq<char>)
    ensures
        lex_le(a, a),
    decreases a.len(),
{
    if a.len() > 0 {
        lex_le_reflexive(a.drop_first());
    }
}

/// Of two strings, one comes before or equals the other.
pub proof fn lex_le_total(a: Seq<char>, b: Seq<char>)
    ensures
        lex_le(a, b) || lex_le(b, a),
    decreases a.len(),
{
    if a.len() > 0 && b.len() > 0 {
        if a[0] == b[0] {
            lex_le_total(a.drop_first(), b.drop_first());
        } else {
            assert(a[0] as u32 != b[0] as u32) by {
                vstd::utf8::char_u32_cast(a[0], a[0] as u32);
                vstd::utf8::char_u32_cast(b[0], b[0] as u32);
            }
        }
    }
}

/// The order is transitive.
pub proof fn lex_le_transitive(a: Seq<char>, b: Seq<char>, c: Seq<char>)
    requires
        lex_le(a, b),
        lex_le(b, c),
    ensures
        lex_le(a, c),
    decreases a.len(),
{
    if a.len() > 0 && b.len() > 0 && c.len() > 0 {
        if a[0] == b[0] && b[0] == c[0] {
            lex_le_transitive(a.drop_first(), b.drop_first(), c.drop_first());
        }
    }
}

/// Two strings that come before or equal each other are the same string.
pub proof fn lex_le_antisymmetric(a: Seq<char>, b: Seq<char>)
    requires
        lex_le(a, b),
        lex_le(b, a),
    ensures
        a == b,
    decreases a.len(),
{
    if a.len() > 0 && b.len() > 0 {
        assert(a[0] == b[0]);
        lex_le_antisymmetric(a.drop_first(), b.drop_first());
        assert(a =~= seq![a[0]] + a.drop_first());
        assert(b =~= seq![b[0]] + b.drop_first());
    } else {
        assert(a.len() == 0 && b.len() == 0);
        assert(a =~= b);
    }
}

} // verus!
