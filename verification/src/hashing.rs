//! SHA-256 digests, at once or fed in pieces, and their lower-case
//! hexadecimal form.
use sha2::{Digest, Sha256};
use vstd::prelude::*;

verus! {

/// The SHA-256 digest of `data` (FIPS 180-4), as the `sha2` crate computes it.
pub uninterp spec fn sha256(data: Seq<u8>) -> Seq<u8>;

/// `sha2::Sha256::digest`: the digest of `data`, a function of `data` alone;
/// the `sha2` crate fixes its output size at 32 bytes. Nothing else is stated
/// of the digest.
#[verifier::external_body]
pub(crate) fn sha256_bytes(data: &[u8]) -> (r: Vec<u8>)
    ensures
        r@ == sha256(data@),
        r@.len() == 32,
{
    Sha256::digest(data).to_vec()
}

/// The lower-case hexadecimal digit for `n` (0..16).
pub open spec fn hex_digit_char(n: int) -> char {
    if n < 10 {
        (48 + n) as char
    } else {
        (87 + n) as char
    }
}

/// Two lower-case hexadecimal digits per byte, high nibble first.
pub open spec fn hex_lower(b: Seq<u8>) -> Seq<char>
    decreases b.len(),
{
    if b.len() == 0 {
        Seq::<char>::empty()
    } else {
        hex_lower(b.drop_last()) + seq![
            hex_digit_char(b.last() as int / 16),
            hex_digit_char(b.last() as int % 16),
        ]
    }
}

/// `hex::encode`: for each byte, the lower-case digit of its high nibble then
/// that of its low nibble (as the `hex` crate's source does with its
/// `0123456789abcdef` table).
#[verifier::external_body]
pub(crate) fn hex_encode(b: &[u8]) -> (s: String)
    ensures
        s@ == hex_lower(b@),
{
    hex::encode(b)
}

/// The hexadecimal SHA-256 of `d`.
pub open spec fn digest_hex(d: Seq<u8>) -> Seq<char> {
    hex_lower(sha256(d))
}

/// The lower-case hexadecimal SHA-256 of `data`.
pub fn digest(data: &[u8]) -> (s: String)
    ensures
        s@ == digest_hex(data@),
{
    let h = sha256_bytes(data);
    hex_encode(h.as_slice())
}

/// An incremental SHA-256 computation: the `sha2` hasher, kept whole in a
/// private field because `sha2::Sha256` is an alias of a generic core type
/// that cannot be declared to the verifier. What it has been fed is named by
/// [`fed_bytes`]; the methods below say how each call changes that.
#[verifier::external_body]
pub struct Sha256State {
    inner: Sha256,
}

/// The bytes fed to a hasher since it was made, in order.
pub uninterp spec fn fed_bytes(h: Sha256State) -> Seq<u8>;

/// `Sha256::new`: a hasher that has been fed nothing.
#[verifier::external_body]
fn state_new() -> (h: Sha256State)
    ensures
        fed_bytes(h) == Seq::<u8>::empty(),
{
    Sha256State { inner: Sha256::new() }
}

/// `Digest::update`: appends `data` to what the hasher has been fed.
#[verifier::external_body]
fn state_update(h: &mut Sha256State, data: &[u8])
    ensures
        fed_bytes(*final(h)) == fed_bytes(*old(h)) + data@,
{
    h.inner.update(data)
}

/// `Clone::clone` of the hasher: an independent hasher fed the same bytes.
#[verifier::external_body]
fn state_clone(h: &Sha256State) -> (r: Sha256State)
    ensures
        fed_bytes(r) == fed_bytes(*h),
{
    Sha256State { inner: h.inner.clone() }
}

/// `Digest::finalize`: the 32-byte digest of everything fed, the same value
/// that `sha2::Sha256::digest` gives for those bytes at once.
#[verifier::external_body]
fn state_finalize(h: Sha256State) -> (r: Vec<u8>)
    ensures
        r@ == sha256(fed_bytes(h)),
        r@.len() == 32,
{
    h.inner.finalize().to_vec()
}

impl Sha256State {
    /// What the hasher has been fed so far.
    pub open spec fn fed(self) -> Seq<u8> {
        fed_bytes(self)
    }

    /// A hasher that has been fed nothing.
    pub fn new() -> (h: Sha256State)
        ensures
            h.fed() == Seq::<u8>::empty(),
    {
        state_new()
    }

    /// Feeds `data` after what came before.
    pub fn update(&mut self, data: &[u8])
        ensures
            final(self).fed() == old(self).fed() + data@,
    {
        state_update(self, data)
    }

    /// A second hasher that goes on from the same bytes.
    pub fn fork(&self) -> (r: Sha256State)
        ensures
            r.fed() == self.fed(),
    {
        state_clone(self)
    }

    /// The 32-byte digest of everything fed.
    pub fn finish_bytes(self) -> (r: Vec<u8>)
        ensures
            r@ == sha256(self.fed()),
            r@.len() == 32,
    {
        state_finalize(self)
    }

    /// The lower-case hexadecimal digest of everything fed.
    pub fn finish_hex(self) -> (s: String)
        ensures
            s@ == digest_hex(self.fed()),
    {
        let d = state_finalize(self);
        hex_encode(d.as_slice())
    }
}

/// Fed in any number of pieces, a hasher gives the digest of the pieces
/// joined: hashing `a` then `b` is hashing `a + b`.
pub proof fn law_pieces_join(h: Sha256State, a: Seq<u8>, b: Seq<u8>, after_a: Sha256State, after_b: Sha256State)
    requires
        h.fed() == Seq::<u8>::empty(),
        after_a.fed() == h.fed() + a,
        after_b.fed() == after_a.fed() + b,
    ensures
        digest_hex(after_b.fed()) == digest_hex(a + b),
{
    assert(after_b.fed() =~= a + b);
}

} // verus!
