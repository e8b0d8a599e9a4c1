//! The digest sink: bytes go in piece by piece, and at the end come out
//! the SHA-256 of all of them and their count.

use crate::text::push_char;
use sha2::Digest;
use vstd::prelude::*;

verus! {

/// The SHA-256 of `data`, 32 bytes.
pub uninterp spec fn sha256(data: Seq<u8>) -> Seq<u8>;

/// The bytes that a running computation has taken in so far.
pub uninterp spec fn absorbed(state: Sha256State) -> Seq<u8>;

/// A running SHA-256 computation.
///
/// Trusted: holds a `sha2::Sha256`, which Verus cannot be told about as
/// it stands; nothing is known of it but what the three functions below
/// state.
#[verifier::external_body]
pub struct Sha256State {
    inner: sha2::Sha256,
}

/// A computation that has taken in nothing.
///
/// Trusted: calls `sha2::Digest::new` on `Sha256`.
#[verifier::external_body]
fn sha256_start() -> (state: Sha256State)
    ensures
        absorbed(state) == Seq::<u8>::empty(),
{
    Sha256State { inner: sha2::Sha256::new() }
}

/// Takes in `data` after what was taken in before.
///
/// Trusted: calls `sha2::Digest::update`; hashing a message in pieces is
/// hashing the pieces joined.
#[verifier::external_body]
fn sha256_update(state: &mut Sha256State, data: &[u8])
    ensures
        absorbed(*final(state)) == absorbed(*old(state)) + data@,
{
    state.inner.update(data)
}

/// The digest of all that was taken in.
///
/// Trusted: calls `sha2::Digest::finalize`, whose output for `Sha256` is
/// an array of 32 bytes, the SHA-256 of the message.
#[verifier::external_body]
fn sha256_finish(state: Sha256State) -> (out: Vec<u8>)
    ensures
        out@ == sha256(absorbed(state)),
        out@.len() == 32,
{
    state.inner.finalize().to_vec()
}

/// What the sink gives at the end.
#[derive(Clone, Debug, PartialEq, Eq)]
pub struct Digests {
    /// `sha256:` and the digest in lowercase hex.
    pub sha256: String,
    /// How many bytes went in; `u64::MAX` where there were more than that.
    pub bytes: u64,
}

/// The lowercase hex digit for `n`.
pub open spec fn hex_digit(n: int) -> char
    recommends
        0 <= n < 16,
{
    if n < 10 {
        (('0' as u8) + n) as u8 as char
    } else {
        (('a' as u8) + n - 10) as u8 as char
    }
}

/// `data` in lowercase hex, two digits for each byte.
pub open spec fn spec_hex(data: Seq<u8>) -> Seq<char>
    decreases data.len(),
{
    if data.len() == 0 {
        Seq::empty()
    } else {
        spec_hex(data.drop_last()).push(hex_digit(data.last() as int / 16)).push(
            hex_digit(data.last() as int % 16),
        )
    }
}

/// A digest as it is written down: the name of the algorithm, a colon, and
/// the digest in lowercase hex.
pub open spec fn spec_tagged(digest: Seq<u8>) -> Seq<char> {
    "sha256:"@ + spec_hex(digest)
}

/// The count of `n` bytes, as far as a `u64` counts.
pub open spec fn spec_count(n: nat) -> u64 {
    if n <= u64::MAX {
        n as u64
    } else {
        u64::MAX
    }
}

fn digit_of(n: u8) -> (c: char)
    requires
        n < 16,
    ensures
        c == hex_digit(n as int),
{
    if n < 10 {
        (48u8 + n) as char
    } else {
        (97u8 + (n - 10)) as char
    }
}

/// Appends `data` in lowercase hex to `out`.
pub fn push_hex(out: &mut String, data: &[u8])
    ensures
        final(out)@ == old(out)@ + spec_hex(data@),
{
    let mut i: usize = 0;
    assert(data@.take(0) == Seq::<u8>::empty());
    while i < data.len()
        invariant
            i <= data.len(),
            out@ == old(out)@ + spec_hex(data@.take(i as int)),
        decreases data.len() - i,
    {
        let b = data[i];
        proof {
            let next = data@.take(i + 1);
            assert(next.drop_last() == data@.take(i as int));
            assert(next.last() == b);
        }
        push_char(out, digit_of(b / 16));
        push_char(out, digit_of(b % 16));
        i += 1;
    }
    assert(data@.take(data@.len() as int) == data@);
}

/// A digest sink.
pub struct Hasher {
    state: Sha256State,
    bytes: u64,
}

impl Hasher {
    #[verifier::type_invariant]
    spec fn counted(self) -> bool {
        self.bytes == spec_count(absorbed(self.state).len())
    }

    /// All the bytes that went in, in order.
    pub closed spec fn fed(&self) -> Seq<u8> {
        absorbed(self.state)
    }

    /// A sink that nothing went into yet.
    pub fn new() -> (h: Hasher)
        ensures
            h.fed() == Seq::<u8>::empty(),
    {
        Hasher { state: sha256_start(), bytes: 0 }
    }

    /// The sink after `chunk` went in as well.
    pub fn update(self, chunk: &[u8]) -> (h: Hasher)
        ensures
            h.fed() == self.fed() + chunk@,
    {
        proof {
            use_type_invariant(&self);
        }
        let Hasher { state, bytes } = self;
        let mut state = state;
        sha256_update(&mut state, chunk);
        let bytes = bytes.saturating_add(chunk.len() as u64);
        Hasher { state, bytes }
    }

    /// Ends the sink: the digest of all that went in, written in 71
    /// characters, and the count.
    pub fn finish(self) -> (d: Digests)
        ensures
            d.sha256@ == spec_tagged(sha256(self.fed())),
            d.sha256@.len() == 71,
            d.bytes == spec_count(self.fed().len()),
    {
        proof {
            use_type_invariant(&self);
        }
        let Hasher { state, bytes } = self;
        let raw = sha256_finish(state);
        let mut text = "sha256:".to_owned();
        push_hex(&mut text, raw.as_slice());
        proof {
            reveal_strlit("sha256:");
            hex_length(raw@);
        }
        Digests { sha256: text, bytes }
    }
}

/// The digests of `data` taken all at once.
pub fn digest_bytes(data: &[u8]) -> (d: Digests)
    ensures
        d.sha256@ == spec_tagged(sha256(data@)),
        d.sha256@.len() == 71,
        d.bytes == spec_count(data@.len()),
{
    let h = Hasher::new();
    let h = h.update(data);
    assert(Seq::<u8>::empty() + data@ == data@);
    h.finish()
}

/// Hex takes two characters for each byte.
pub proof fn hex_length(data: Seq<u8>)
    ensures
        spec_hex(data).len() == 2 * data.len(),
    decreases data.len(),
{
    if data.len() > 0 {
        hex_length(data.drop_last());
    }
}

} // verus!
