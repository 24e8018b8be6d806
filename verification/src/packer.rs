//! The Animus package format (v1): a header, the archive sealed chunk by
//! chunk with XChaCha20-Poly1305, and a footer that carries the SHA-256 of
//! everything before it and an Ed25519 signature over that hash.
use crate::hashing::{hex_encode, hex_lower, sha256, sha256_bytes, Sha256State};
use crate::text::{chars_of, join_str, slice_vec, string_from};
use base64::Engine;
use rand::RngCore;
use chacha20poly1305::aead::{Aead, KeyInit, Payload};
use ed25519_dalek::Signer;
use vstd::prelude::*;

verus! {

/// Plain-text bytes per chunk (4 MiB); the last chunk may be shorter.
pub const CHUNK_SIZE: usize = 4194304;

/// Bytes an XChaCha20-Poly1305 tag adds to each chunk.
pub const TAG_SIZE: usize = 16;

/// The version written after the magic.
pub const FORMAT_VERSION: u16 = 1;

/// `b"ANIMUS01"`.
pub open spec fn magic() -> Seq<u8> {
    seq![65u8, 78u8, 73u8, 77u8, 85u8, 83u8, 48u8, 49u8]
}

/// `b"ANMSIG01"`.
pub open spec fn footer_magic() -> Seq<u8> {
    seq![65u8, 78u8, 77u8, 83u8, 73u8, 71u8, 48u8, 49u8]
}

/// `b"ANIMUS-PACKAGE-SIGNATURE-V1\0"`, the signature's domain separator.
pub open spec fn sign_domain() -> Seq<u8> {
    seq![
        65u8, 78u8, 73u8, 77u8, 85u8, 83u8, 45u8, 80u8, 65u8, 67u8, 75u8, 65u8, 71u8, 69u8,
        45u8, 83u8, 73u8, 71u8, 78u8, 65u8, 84u8, 85u8, 82u8, 69u8, 45u8, 86u8, 49u8, 0u8,
    ]
}

/// The `n` low bytes of `v`, least significant first.
pub open spec fn le_n(v: nat, n: nat) -> Seq<u8>
    decreases n,
{
    if n == 0 {
        Seq::empty()
    } else {
        seq![(v % 256) as u8] + le_n(v / 256, (n - 1) as nat)
    }
}

fn magic_bytes() -> (r: Vec<u8>)
    ensures
        r@ == magic(),
{
    let r = vec![65u8, 78u8, 73u8, 77u8, 85u8, 83u8, 48u8, 49u8];
    assert(r@ =~= magic());
    r
}

fn footer_magic_bytes() -> (r: Vec<u8>)
    ensures
        r@ == footer_magic(),
{
    let r = vec![65u8, 78u8, 77u8, 83u8, 73u8, 71u8, 48u8, 49u8];
    assert(r@ =~= footer_magic());
    r
}

/// Appends the bytes of `b` to `out`.
pub fn push_all(out: &mut Vec<u8>, b: &[u8])
    ensures
        final(out)@ == old(out)@ + b@,
{
    let ghost start = out@;
    let mut i: usize = 0;
    while i < b.len()
        invariant
            i <= b@.len(),
            out@ == start + b@.take(i as int),
        decreases b@.len() - i,
    {
        out.push(b[i]);
        proof {
            assert(b@.take(i + 1) =~= b@.take(i as int).push(b@[i as int]));
        }
        i = i + 1;
    }
    proof {
        assert(b@.take(b@.len() as int) =~= b@);
    }
}

/// The `n` low bytes of `v`, least significant first (`to_le_bytes`).
pub fn le_bytes(v: u64, n: usize) -> (r: Vec<u8>)
    requires
        n <= 8,
    ensures
        r@ == le_n(v as nat, n as nat),
{
    let mut out: Vec<u8> = Vec::new();
    let mut x = v;
    let mut i: usize = 0;
    while i < n
        invariant
            i <= n,
            out@ + le_n(x as nat, (n - i) as nat) == le_n(v as nat, n as nat),
        decreases n - i,
    {
        let b = (x % 256) as u8;
        proof {
            let rest = le_n((x / 256) as nat, (n - i - 1) as nat);
            assert(le_n(x as nat, (n - i) as nat) == seq![b] + rest);
            assert(out@ + (seq![b] + rest) =~= out@.push(b) + rest);
        }
        out.push(b);
        x = x / 256;
        i = i + 1;
    }
    proof {
        assert(out@ + le_n(x as nat, 0) =~= out@);
    }
    out
}

/// The 24-byte XChaCha nonce of chunk `index`: the 16-byte random prefix,
/// then the index as 8 little-endian bytes.
pub open spec fn nonce_for(prefix: Seq<u8>, index: u64) -> Seq<u8> {
    prefix + le_n(index as nat, 8)
}

/// See `nonce_for`.
pub fn make_nonce(prefix: &[u8], chunk_index: u64) -> (r: Vec<u8>)
    requires
        prefix@.len() == 16,
    ensures
        r@ == nonce_for(prefix@, chunk_index),
        r@.len() == 24,
{
    let mut out: Vec<u8> = Vec::new();
    push_all(&mut out, prefix);
    let tail = le_bytes(chunk_index, 8);
    push_all(&mut out, tail.as_slice());
    proof {
        lemma_le_len(chunk_index as nat, 8);
    }
    out
}

pub proof fn lemma_le_len(v: nat, n: nat)
    ensures
        le_n(v, n).len() == n,
    decreases n,
{
    if n > 0 {
        lemma_le_len(v / 256, (n - 1) as nat);
    }
}

/// The associated data of chunk `index`: magic, format version, package id,
/// original size, original SHA-256, chunk index and plain-text length, so a
/// chunk cannot be moved to another package, position or length.
pub open spec fn chunk_aad(
    package_id: Seq<u8>,
    original_size: u64,
    original_sha256: Seq<u8>,
    index: u64,
    plain_length: u32,
) -> Seq<u8> {
    magic() + le_n(FORMAT_VERSION as nat, 2) + package_id + le_n(original_size as nat, 8)
        + original_sha256 + le_n(index as nat, 8) + le_n(plain_length as nat, 4)
}

/// See `chunk_aad`.
pub fn build_chunk_aad(
    package_id: &[u8],
    original_size: u64,
    original_sha256: &[u8],
    chunk_index: u64,
    plain_length: u32,
) -> (r: Vec<u8>)
    ensures
        r@ == chunk_aad(package_id@, original_size, original_sha256@, chunk_index, plain_length),
{
    let mut aad = magic_bytes();
    let v = le_bytes(FORMAT_VERSION as u64, 2);
    push_all(&mut aad, v.as_slice());
    push_all(&mut aad, package_id);
    let s = le_bytes(original_size, 8);
    push_all(&mut aad, s.as_slice());
    push_all(&mut aad, original_sha256);
    let i = le_bytes(chunk_index, 8);
    push_all(&mut aad, i.as_slice());
    let p = le_bytes(plain_length as u64, 4);
    push_all(&mut aad, p.as_slice());
    aad
}

/// The message the package signature signs: the domain separator, the
/// package id and the payload SHA-256.
pub open spec fn sign_message(package_id: Seq<u8>, payload_sha256: Seq<u8>) -> Seq<u8> {
    sign_domain() + package_id + payload_sha256
}

/// See `sign_message`.
pub fn build_sign_message(package_id: &[u8], payload_sha256: &[u8]) -> (r: Vec<u8>)
    ensures
        r@ == sign_message(package_id@, payload_sha256@),
{
    let mut m = vec![
        65u8, 78u8, 73u8, 77u8, 85u8, 83u8, 45u8, 80u8, 65u8, 67u8, 75u8, 65u8, 71u8, 69u8,
        45u8, 83u8, 73u8, 71u8, 78u8, 65u8, 84u8, 85u8, 82u8, 69u8, 45u8, 86u8, 49u8, 0u8,
    ];
    assert(m@ =~= sign_domain());
    push_all(&mut m, package_id);
    push_all(&mut m, payload_sha256);
    m
}

/// The package header: magic, format version, flags (0), chunk size,
/// original size, package id, nonce prefix, original SHA-256, signing key
/// id, then the original file name with its length as 2 bytes.
pub open spec fn header_bytes(
    original_size: u64,
    package_id: Seq<u8>,
    nonce_prefix: Seq<u8>,
    original_sha256: Seq<u8>,
    key_id: Seq<u8>,
    name: Seq<u8>,
) -> Seq<u8> {
    magic() + le_n(FORMAT_VERSION as nat, 2) + le_n(0, 2) + le_n(CHUNK_SIZE as nat, 4) + le_n(
        original_size as nat,
        8,
    ) + package_id + nonce_prefix + original_sha256 + key_id + le_n(name.len(), 2) + name
}

/// Why a package could not be built.
#[derive(Debug)]
pub enum PackError {
    /// The file name does not fit its 2-byte length.
    NameTooLong,
    /// The archive was not the size it had when packing began.
    SizeChanged { expected: u64, read: u64 },
    /// The cipher refused a chunk.
    Encryption,
    /// The stored signing key is not 32 bytes.
    CorruptKey,
    /// The archive's path names no file.
    NoFileName,
}

/// Law: each field of a package header stands at its own offset and is
/// taken from its own argument: the package id at 24..40, the nonce prefix
/// at 40..56, the original SHA-256 at 56..88, the signing key id at 88..96,
/// the name's length at 96..98 and the name from 98 on; before them the
/// magic, version 1, no flags, the chunk size and the original size.
pub proof fn law_header_layout(
    original_size: u64,
    package_id: Seq<u8>,
    nonce_prefix: Seq<u8>,
    original_sha256: Seq<u8>,
    key_id: Seq<u8>,
    name: Seq<u8>,
)
    requires
        package_id.len() == 16,
        nonce_prefix.len() == 16,
        original_sha256.len() == 32,
        key_id.len() == 8,
    ensures
        ({
            let h = header_bytes(original_size, package_id, nonce_prefix, original_sha256, key_id, name);
            &&& h.len() == 98 + name.len()
            &&& h.subrange(0, 8) == magic()
            &&& h.subrange(8, 10) == le_n(1, 2)
            &&& h.subrange(10, 12) == le_n(0, 2)
            &&& h.subrange(12, 16) == le_n(CHUNK_SIZE as nat, 4)
            &&& h.subrange(16, 24) == le_n(original_size as nat, 8)
            &&& h.subrange(24, 40) == package_id
            &&& h.subrange(40, 56) == nonce_prefix
            &&& h.subrange(56, 88) == original_sha256
            &&& h.subrange(88, 96) == key_id
            &&& h.subrange(96, 98) == le_n(name.len(), 2)
            &&& h.skip(98) == name
        }),
{
    lemma_le_len(1, 2);
    lemma_le_len(0, 2);
    lemma_le_len(CHUNK_SIZE as nat, 4);
    lemma_le_len(original_size as nat, 8);
    lemma_le_len(name.len(), 2);
    let a = magic();
    let b = le_n(FORMAT_VERSION as nat, 2);
    let c = le_n(0, 2);
    let d = le_n(CHUNK_SIZE as nat, 4);
    let e = le_n(original_size as nat, 8);
    let n = le_n(name.len(), 2);
    let h = header_bytes(original_size, package_id, nonce_prefix, original_sha256, key_id, name);
    assert(h =~= a + b + c + d + e + package_id + nonce_prefix + original_sha256 + key_id + n + name);
    assert(h.subrange(0, 8) =~= a);
    assert(h.subrange(8, 10) =~= b);
    assert(h.subrange(10, 12) =~= c);
    assert(h.subrange(12, 16) =~= d);
    assert(h.subrange(16, 24) =~= e);
    assert(h.subrange(24, 40) =~= package_id);
    assert(h.subrange(40, 56) =~= nonce_prefix);
    assert(h.subrange(56, 88) =~= original_sha256);
    assert(h.subrange(88, 96) =~= key_id);
    assert(h.subrange(96, 98) =~= n);
    assert(h.skip(98) =~= name);
}

/// See `header_bytes`; a file name longer than `u16::MAX` bytes is refused.
pub fn package_header(
    original_size: u64,
    package_id: &[u8],
    nonce_prefix: &[u8],
    original_sha256: &[u8],
    key_id: &[u8],
    name: &[u8],
) -> (r: Result<Vec<u8>, PackError>)
    ensures
        r is Ok <==> name@.len() <= u16::MAX,
        r matches Ok(h) ==> h@ == header_bytes(
            original_size,
            package_id@,
            nonce_prefix@,
            original_sha256@,
            key_id@,
            name@,
        ),
        r matches Err(e) ==> e is NameTooLong,
{
    if name.len() > 65535 {
        return Err(PackError::NameTooLong);
    }
    let mut h = magic_bytes();
    let v = le_bytes(FORMAT_VERSION as u64, 2);
    push_all(&mut h, v.as_slice());
    let f = le_bytes(0, 2);
    push_all(&mut h, f.as_slice());
    let c = le_bytes(CHUNK_SIZE as u64, 4);
    push_all(&mut h, c.as_slice());
    let s = le_bytes(original_size, 8);
    push_all(&mut h, s.as_slice());
    push_all(&mut h, package_id);
    push_all(&mut h, nonce_prefix);
    push_all(&mut h, original_sha256);
    push_all(&mut h, key_id);
    let n = le_bytes(name.len() as u64, 2);
    push_all(&mut h, n.as_slice());
    push_all(&mut h, name);
    Ok(h)
}

/// What XChaCha20-Poly1305 makes of `msg` under `key` and `nonce` with
/// associated data `aad`: the ciphertext followed by the tag.
pub uninterp spec fn xchacha_sealed(key: Seq<u8>, nonce: Seq<u8>, msg: Seq<u8>, aad: Seq<u8>) -> Seq<u8>;

/// `XChaCha20Poly1305::encrypt` (chacha20poly1305 0.10 through aead 0.5):
/// the sealed bytes are a function of key, nonce, message and associated
/// data, as long as the message plus the 16-byte tag; the cipher refuses a
/// message of `u32::MAX` blocks of 64 bytes or more, and nothing else.
#[verifier::external_body]
fn xchacha_seal(key: &[u8], nonce: &[u8], msg: &[u8], aad: &[u8]) -> (r: Option<Vec<u8>>)
    requires
        key@.len() == 32,
        nonce@.len() == 24,
    ensures
        r is Some <==> msg@.len() / 64 < u32::MAX,
        r matches Some(c) ==> c@ == xchacha_sealed(key@, nonce@, msg@, aad@) && c@.len()
            == msg@.len() + 16,
{
    let cipher = chacha20poly1305::XChaCha20Poly1305::new(chacha20poly1305::Key::from_slice(key));
    cipher.encrypt(chacha20poly1305::XNonce::from_slice(nonce), Payload { msg, aad }).ok()
}

/// One sealed chunk as it is written: plain-text length and sealed length
/// (4 little-endian bytes each), then the sealed bytes.
pub open spec fn chunk_bytes(plain_length: nat, sealed: Seq<u8>) -> Seq<u8> {
    le_n(plain_length, 4) + le_n(sealed.len(), 4) + sealed
}

/// The sealed form of the plain-text chunks `chunks`, in order, the `i`-th
/// under nonce `i` and bound by its associated data to the header fields.
pub open spec fn sealed_stream(
    key: Seq<u8>,
    nonce_prefix: Seq<u8>,
    package_id: Seq<u8>,
    original_size: u64,
    original_sha256: Seq<u8>,
    chunks: Seq<Seq<u8>>,
) -> Seq<u8>
    decreases chunks.len(),
{
    if chunks.len() == 0 {
        Seq::empty()
    } else {
        let i = (chunks.len() - 1) as int;
        let plain = chunks.last();
        sealed_stream(key, nonce_prefix, package_id, original_size, original_sha256, chunks.drop_last())
            + chunk_bytes(
            plain.len(),
            xchacha_sealed(
                key,
                nonce_for(nonce_prefix, i as u64),
                plain,
                chunk_aad(package_id, original_size, original_sha256, i as u64, plain.len() as u32),
            ),
        )
    }
}

/// The chunks of `parts` one after another.
pub open spec fn joined(parts: Seq<Seq<u8>>) -> Seq<u8>
    decreases parts.len(),
{
    if parts.len() == 0 {
        Seq::empty()
    } else {
        joined(parts.drop_last()) + parts.last()
    }
}

/// The secrets and header fields a package is sealed with, and how far the
/// sealing has come: the header and the chunks handed out so far, and the
/// plain text they seal.
pub struct Sealer {
    pub key: Vec<u8>,
    pub nonce_prefix: Vec<u8>,
    pub package_id: Vec<u8>,
    pub original_size: u64,
    pub original_sha256: Vec<u8>,
    pub next_index: u64,
    pub processed: u64,
    /// The SHA-256 of everything handed out so far.
    pub payload: Sha256State,
    /// The header handed out by `start`.
    pub header: Ghost<Seq<u8>>,
    /// The plain-text chunks sealed so far, in order.
    pub plain_chunks: Ghost<Seq<Seq<u8>>>,
}

impl Sealer {
    /// The field sizes the format fixes, and the record of what was sealed:
    /// one chunk per index, `processed` bytes of plain text, and a payload
    /// hash fed with the header and then every sealed chunk.
    pub open spec fn well_formed(&self) -> bool {
        &&& self.key@.len() == 32
        &&& self.nonce_prefix@.len() == 16
        &&& self.package_id@.len() == 16
        &&& self.original_sha256@.len() == 32
        &&& self.next_index == self.plain_chunks@.len()
        &&& self.processed == joined(self.plain_chunks@).len()
        &&& self.payload.fed() == self.header@ + self.stream()
    }

    /// The sealed chunks handed out so far.
    pub open spec fn stream(&self) -> Seq<u8> {
        sealed_stream(
            self.key@,
            self.nonce_prefix@,
            self.package_id@,
            self.original_size,
            self.original_sha256@,
            self.plain_chunks@,
        )
    }

    /// The bytes of the next chunk of plain text `plain`.
    pub open spec fn sealed_chunk(&self, plain: Seq<u8>) -> Seq<u8> {
        let aad = chunk_aad(
            self.package_id@,
            self.original_size,
            self.original_sha256@,
            self.next_index,
            plain.len() as u32,
        );
        chunk_bytes(
            plain.len(),
            xchacha_sealed(self.key@, nonce_for(self.nonce_prefix@, self.next_index), plain, aad),
        )
    }

    /// Seals the next chunk (at most `CHUNK_SIZE` bytes) and counts it.
    pub fn seal_next(&mut self, plain: &[u8]) -> (r: Vec<u8>)
        requires
            old(self).well_formed(),
            plain@.len() <= CHUNK_SIZE,
            old(self).next_index < u64::MAX,
            old(self).processed + plain@.len() <= u64::MAX,
        ensures
            r@ == old(self).sealed_chunk(plain@),
            final(self).well_formed(),
            final(self).next_index == old(self).next_index + 1,
            final(self).processed == old(self).processed + plain@.len(),
            final(self).key == old(self).key,
            final(self).nonce_prefix == old(self).nonce_prefix,
            final(self).package_id == old(self).package_id,
            final(self).original_size == old(self).original_size,
            final(self).original_sha256 == old(self).original_sha256,
            final(self).header == old(self).header,
            final(self).plain_chunks@ == old(self).plain_chunks@.push(plain@),
    {
        let nonce = make_nonce(self.nonce_prefix.as_slice(), self.next_index);
        let len = plain.len() as u32;
        let aad = build_chunk_aad(
            self.package_id.as_slice(),
            self.original_size,
            self.original_sha256.as_slice(),
            self.next_index,
            len,
        );
        let sealed = match xchacha_seal(self.key.as_slice(), nonce.as_slice(), plain, aad.as_slice()) {
            Some(c) => c,
            None => {
                proof {
                    assert(plain@.len() / 64 < u32::MAX);
                }
                Vec::new()
            },
        };
        let mut out = le_bytes(len as u64, 4);
        let cl = le_bytes(sealed.len() as u64, 4);
        push_all(&mut out, cl.as_slice());
        push_all(&mut out, sealed.as_slice());
        proof {
            assert(len as nat == plain@.len());
            assert(out@ == old(self).sealed_chunk(plain@));
        }
        self.payload.update(out.as_slice());
        self.next_index = self.next_index + 1;
        self.processed = self.processed + plain.len() as u64;
        proof {
            let chunks = old(self).plain_chunks@.push(plain@);
            self.plain_chunks = Ghost(chunks);
            assert(chunks.drop_last() =~= old(self).plain_chunks@);
            assert(joined(chunks) =~= joined(old(self).plain_chunks@) + plain@);
            assert(self.stream() =~= old(self).stream() + out@);
            assert(self.payload.fed() =~= self.header@ + self.stream());
        }
        out
    }
}

/// The package footer: its magic, the payload SHA-256 and the signature.
pub open spec fn footer_bytes(payload_sha256: Seq<u8>, signature: Seq<u8>) -> Seq<u8> {
    footer_magic() + payload_sha256 + signature
}

/// The Ed25519 public key of a 32-byte secret seed.
pub uninterp spec fn ed25519_public(seed: Seq<u8>) -> Seq<u8>;

/// The Ed25519 signature of `msg` under the key with secret seed `seed`.
pub uninterp spec fn ed25519_signature(seed: Seq<u8>, msg: Seq<u8>) -> Seq<u8>;

/// `SigningKey::from_bytes(seed).verifying_key().to_bytes()` (ed25519-dalek
/// 2.2): a function of the seed, 32 bytes long.
#[verifier::external_body]
fn verifying_key_bytes(seed: &[u8]) -> (r: Vec<u8>)
    requires
        seed@.len() == 32,
    ensures
        r@ == ed25519_public(seed@),
        r@.len() == 32,
{
    let mut s = [0u8; 32];
    s.copy_from_slice(seed);
    ed25519_dalek::SigningKey::from_bytes(&s).verifying_key().to_bytes().to_vec()
}

/// The public key that goes with a signing seed: what the key files hold
/// beside the seed and what a package's key id is made from.
pub fn public_key_of(seed: &[u8]) -> (r: Vec<u8>)
    requires
        seed@.len() == 32,
    ensures
        r@ == ed25519_public(seed@),
        r@.len() == 32,
{
    verifying_key_bytes(seed)
}

/// `SigningKey::from_bytes(seed).sign(msg).to_bytes()` (ed25519-dalek 2.2):
/// Ed25519 signing is deterministic, so the 64 bytes are a function of seed
/// and message.
#[verifier::external_body]
fn sign_with(seed: &[u8], msg: &[u8]) -> (r: Vec<u8>)
    requires
        seed@.len() == 32,
    ensures
        r@ == ed25519_signature(seed@, msg@),
        r@.len() == 64,
{
    let mut s = [0u8; 32];
    s.copy_from_slice(seed);
    ed25519_dalek::SigningKey::from_bytes(&s).sign(msg).to_bytes().to_vec()
}

impl Sealer {
    /// Ends a package: refused where the plain text sealed is not the size
    /// announced in the header; else the footer, signed with `seed` over the
    /// payload hash (the SHA-256 of header and chunks), with that hash and the
    /// SHA-256 of the whole package (header, chunks and footer).
    pub fn finish(&self, seed: &[u8]) -> (r: Result<(Vec<u8>, Vec<u8>, Vec<u8>), PackError>)
        requires
            self.well_formed(),
            seed@.len() == 32,
        ensures
            r is Ok <==> self.processed == self.original_size,
            r matches Err(e) ==> e == (PackError::SizeChanged {
                expected: self.original_size,
                read: self.processed,
            }),
            r matches Ok((footer, payload_sha256, package_sha256)) ==> {
                &&& payload_sha256@ == sha256(self.header@ + self.stream())
                &&& footer@ == footer_bytes(
                    payload_sha256@,
                    ed25519_signature(seed@, sign_message(self.package_id@, payload_sha256@)),
                )
                &&& package_sha256@ == sha256(self.header@ + self.stream() + footer@)
                &&& joined(self.plain_chunks@).len() == self.original_size
            },
    {
        if self.processed != self.original_size {
            return Err(PackError::SizeChanged { expected: self.original_size, read: self.processed });
        }
        let mut package = self.payload.fork();
        let payload_sha256 = self.payload.fork().finish_bytes();
        let message = build_sign_message(self.package_id.as_slice(), payload_sha256.as_slice());
        let signature = sign_with(seed, message.as_slice());
        let mut f = footer_magic_bytes();
        push_all(&mut f, payload_sha256.as_slice());
        push_all(&mut f, signature.as_slice());
        package.update(f.as_slice());
        let package_sha256 = package.finish_bytes();
        Ok((f, payload_sha256, package_sha256))
    }
}

/// The signing key id: the first 8 bytes of the SHA-256 of the public key.
pub fn signing_key_id_bytes(public_key: &[u8]) -> (r: Vec<u8>)
    ensures
        r@ == sha256(public_key@).take(8),
{
    let d = sha256_bytes(public_key);
    let mut id: Vec<u8> = Vec::new();
    let mut i: usize = 0;
    while i < 8
        invariant
            i <= 8,
            d@ == sha256(public_key@),
            d@.len() == 32,
            id@ == d@.take(i as int),
        decreases 8 - i,
    {
        id.push(d[i]);
        proof {
            assert(d@.take(i + 1) =~= d@.take(i as int).push(d@[i as int]));
        }
        i = i + 1;
    }
    id
}

/// The signing key id in lower-case hex.
pub fn signing_key_id(public_key: &[u8]) -> (r: String)
    ensures
        r@ == hex_lower(sha256(public_key@).take(8)),
{
    let id = signing_key_id_bytes(public_key);
    hex_encode(id.as_slice())
}

/// The stored signing key: exactly 32 bytes of seed, else refused.
pub fn seed_from_file(bytes: &[u8]) -> (r: Result<Vec<u8>, PackError>)
    ensures
        r is Ok <==> bytes@.len() == 32,
        r matches Ok(s) ==> s@ == bytes@,
        r matches Err(e) ==> e is CorruptKey,
{
    if bytes.len() != 32 {
        return Err(PackError::CorruptKey);
    }
    let mut s: Vec<u8> = Vec::new();
    push_all(&mut s, bytes);
    Ok(s)
}

/// The bytes of an optional key file.
pub open spec fn stored_bytes(stored: Option<Vec<u8>>) -> Option<Seq<u8>> {
    match stored {
        Some(b) => Some(b@),
        None => None,
    }
}

/// The signing seed a run of the packer uses, given the key file's bytes
/// (`None` where there is no key file) and the seed it would draw: the
/// stored seed where the file holds 32 bytes (nothing written), none where
/// it holds anything else, the drawn seed where there is no file (to be
/// written). The flag says whether the key files are to be written.
pub open spec fn key_outcome(stored: Option<Seq<u8>>, fresh: Seq<u8>) -> Option<(Seq<u8>, bool)> {
    match stored {
        Some(b) => if b.len() == 32 {
            Some((b, false))
        } else {
            None
        },
        None => Some((fresh, true)),
    }
}

/// What the key file holds after such a run.
pub open spec fn key_file_after(stored: Option<Seq<u8>>, fresh: Seq<u8>) -> Option<Seq<u8>> {
    match stored {
        Some(b) => Some(b),
        None => Some(fresh),
    }
}

/// The signing seed to use: read from the key file where there is one
/// (refused unless it holds 32 bytes), else freshly drawn, in which case the
/// flag says that the key files are to be written (the seed and its public
/// key).
pub fn signing_seed(stored: Option<Vec<u8>>) -> (r: Result<(Vec<u8>, bool), PackError>)
    ensures
        r is Err <==> key_outcome(stored_bytes(stored), Seq::<u8>::empty()) is None,
        r matches Err(e) ==> e is CorruptKey,
        r matches Ok((s, w)) ==> s@.len() == 32 && key_outcome(stored_bytes(stored), s@) == Some(
            (s@, w),
        ),
{
    match stored {
        Some(b) => match seed_from_file(b.as_slice()) {
            Ok(s) => Ok((s, false)),
            Err(e) => Err(e),
        },
        None => Ok((new_signing_seed(), true)),
    }
}

/// Law: the signing key is stable across runs: once a run has settled on a
/// seed (read or drawn and written), the next run reads that seed back,
/// writes nothing, and so signs with the same key.
pub proof fn law_signing_key_stable(stored: Option<Seq<u8>>, fresh: Seq<u8>, next_fresh: Seq<u8>)
    requires
        fresh.len() == 32,
        key_outcome(stored, fresh) is Some,
    ensures
        ({
            let first = key_outcome(stored, fresh)->0;
            let second = key_outcome(key_file_after(stored, fresh), next_fresh);
            &&& second == Some((first.0, false))
            &&& ed25519_public((second->0).0) == ed25519_public(first.0)
        }),
{
}

/// `256` to the power `n`.
pub open spec fn pow256(n: nat) -> nat
    decreases n,
{
    if n == 0 {
        1
    } else {
        256 * pow256((n - 1) as nat)
    }
}

proof fn lemma_le_injective(a: nat, b: nat, n: nat)
    requires
        a < pow256(n),
        b < pow256(n),
        le_n(a, n) == le_n(b, n),
    ensures
        a == b,
    decreases n,
{
    if n > 0 {
        let m = (n - 1) as nat;
        let ra = le_n(a / 256, m);
        let rb = le_n(b / 256, m);
        assert(le_n(a, n)[0] == (a % 256) as u8);
        assert(le_n(b, n)[0] == (b % 256) as u8);
        assert((seq![(a % 256) as u8] + ra).drop_first() =~= ra);
        assert((seq![(b % 256) as u8] + rb).drop_first() =~= rb);
        let p = pow256(m);
        assert(a / 256 < p && b / 256 < p) by (nonlinear_arith)
            requires
                a < 256 * p,
                b < 256 * p,
        ;
        lemma_le_injective(a / 256, b / 256, m);
        assert(a == 256 * (a / 256) + a % 256) by (nonlinear_arith);
        assert(b == 256 * (b / 256) + b % 256) by (nonlinear_arith);
    }
}

/// Law: within a package no two chunks share a nonce (the chunk index is
/// the nonce's last 8 bytes).
pub proof fn law_chunk_nonces_distinct(prefix: Seq<u8>, i: u64, j: u64)
    requires
        i != j,
    ensures
        nonce_for(prefix, i) != nonce_for(prefix, j),
{
    if nonce_for(prefix, i) == nonce_for(prefix, j) {
        lemma_le_len(i as nat, 8);
        lemma_le_len(j as nat, 8);
        assert(nonce_for(prefix, i).skip(prefix.len() as int) =~= le_n(i as nat, 8));
        assert(nonce_for(prefix, j).skip(prefix.len() as int) =~= le_n(j as nat, 8));
        reveal_with_fuel(pow256, 9);
        lemma_le_injective(i as nat, j as nat, 8);
    }
}

/// Law: a chunk's associated data names its position, so the same bytes
/// sealed at two positions of a package are bound to different data.
pub proof fn law_chunk_aad_binds_index(
    package_id: Seq<u8>,
    original_size: u64,
    original_sha256: Seq<u8>,
    i: u64,
    j: u64,
    plain_length: u32,
)
    requires
        i != j,
        package_id.len() == 16,
        original_sha256.len() == 32,
    ensures
        chunk_aad(package_id, original_size, original_sha256, i, plain_length) != chunk_aad(
            package_id,
            original_size,
            original_sha256,
            j,
            plain_length,
        ),
{
    let a = chunk_aad(package_id, original_size, original_sha256, i, plain_length);
    let b = chunk_aad(package_id, original_size, original_sha256, j, plain_length);
    if a == b {
        lemma_le_len(FORMAT_VERSION as nat, 2);
        lemma_le_len(original_size as nat, 8);
        lemma_le_len(i as nat, 8);
        lemma_le_len(j as nat, 8);
        lemma_le_len(plain_length as nat, 4);
        assert(a.subrange(66, 74) =~= le_n(i as nat, 8));
        assert(b.subrange(66, 74) =~= le_n(j as nat, 8));
        reveal_with_fuel(pow256, 9);
        lemma_le_injective(i as nat, j as nat, 8);
    }
}

/// Bytes `lo..hi` of `b`.
pub fn sub_bytes(b: &[u8], lo: usize, hi: usize) -> (r: Vec<u8>)
    requires
        lo <= hi <= b@.len(),
    ensures
        r@ == b@.subrange(lo as int, hi as int),
{
    let mut out: Vec<u8> = Vec::new();
    let mut i = lo;
    while i < hi
        invariant
            lo <= i <= hi <= b@.len(),
            out@ == b@.subrange(lo as int, i as int),
        decreases hi - i,
    {
        out.push(b[i]);
        proof {
            assert(b@.subrange(lo as int, i + 1) =~= b@.subrange(lo as int, i as int).push(
                b@[i as int],
            ));
        }
        i = i + 1;
    }
    out
}

/// The hyphenated lower-case text of a 16-byte UUID (8-4-4-4-12 digits).
pub open spec fn uuid_text(b: Seq<u8>) -> Seq<char> {
    hex_lower(b.subrange(0, 4)) + seq!['-'] + hex_lower(b.subrange(4, 6)) + seq!['-'] + hex_lower(
        b.subrange(6, 8),
    ) + seq!['-'] + hex_lower(b.subrange(8, 10)) + seq!['-'] + hex_lower(b.subrange(10, 16))
}

/// See `uuid_text`.
pub fn uuid_string(b: &[u8]) -> (r: String)
    requires
        b@.len() == 16,
    ensures
        r@ == uuid_text(b@),
{
    let p0 = sub_bytes(b, 0, 4);
    let p1 = sub_bytes(b, 4, 6);
    let p2 = sub_bytes(b, 6, 8);
    let p3 = sub_bytes(b, 8, 10);
    let p4 = sub_bytes(b, 10, 16);
    let h0 = hex_encode(p0.as_slice());
    let h1 = hex_encode(p1.as_slice());
    let h2 = hex_encode(p2.as_slice());
    let h3 = hex_encode(p3.as_slice());
    let h4 = hex_encode(p4.as_slice());
    proof {
        reveal_strlit("-");
    }
    let a = join_str(h0.as_str(), "-");
    let a = join_str(a.as_str(), h1.as_str());
    let a = join_str(a.as_str(), "-");
    let a = join_str(a.as_str(), h2.as_str());
    let a = join_str(a.as_str(), "-");
    let a = join_str(a.as_str(), h3.as_str());
    let a = join_str(a.as_str(), "-");
    join_str(a.as_str(), h4.as_str())
}

/// The name of a file without its extension, as `Path::file_stem` has it:
/// everything before the last `.`, unless there is none or it is the first
/// character.
pub open spec fn file_stem(name: Seq<char>) -> Seq<char> {
    if exists|k: int| 0 < k < name.len() && name[k] == '.' {
        let k = choose|k: int|
            0 < k < name.len() && name[k] == '.' && forall|j: int|
                k < j < name.len() ==> name[j] != '.';
        name.take(k)
    } else {
        name
    }
}

/// The package's default file name: the archive's stem with `.animus`.
pub open spec fn output_name(name: Seq<char>) -> Seq<char> {
    file_stem(name) + ".animus"@
}

/// The package's default path: next to the archive (or in `.` where the
/// archive's path has no parent), named by `output_name`. A path without a
/// file name is refused.
pub fn default_output_path(parent: Option<String>, file_name: Option<String>) -> (r: Result<String, PackError>)
    ensures
        match file_name {
            None => r matches Err(PackError::NoFileName),
            Some(n) => r matches Ok(p) && p@ == crate::emulator::join_path(
                match parent {
                    Some(d) => d@,
                    None => "."@,
                },
                output_name(n@),
            ),
        },
{
    let name = match file_name {
        None => {
            return Err(PackError::NoFileName);
        },
        Some(n) => n,
    };
    let dir = match parent {
        Some(d) => d,
        None => ".".to_owned(),
    };
    let out = default_output_name(name.as_str());
    Ok(crate::emulator::join_path_exec(dir.as_str(), out.as_str()))
}

/// See `output_name`.
pub fn default_output_name(file_name: &str) -> (r: String)
    ensures
        r@ == output_name(file_name@),
{
    let v = chars_of(file_name);
    let mut k = v.len();
    while k > 1 && v[k - 1] != '.'
        invariant
            0 <= k <= v@.len(),
            v@ == file_name@,
            forall|j: int| k <= j < v@.len() ==> v@[j] != '.',
        decreases k,
    {
        k = k - 1;
    }
    let stem = if k > 1 {
        proof {
            let kk = k - 1;
            assert(0 < kk < v@.len() && v@[kk] == '.');
            let c = choose|c: int|
                0 < c < v@.len() && v@[c] == '.' && forall|j: int| c < j < v@.len() ==> v@[j] != '.';
            assert(forall|j: int| kk < j < v@.len() ==> v@[j] != '.');
            if c < kk {
                assert(v@[kk] != '.');
            } else if c > kk {
                assert(v@[c] != '.');
            }
        }
        slice_vec(&v, 0, k - 1)
    } else {
        proof {
            assert forall|c: int| !(0 < c < v@.len() && v@[c] == '.') by {
                if 0 < c < v@.len() {
                    assert(c >= k);
                }
            }
            assert(v@.subrange(0, v@.len() as int) =~= v@);
        }
        slice_vec(&v, 0, v.len())
    };
    let st = string_from(stem.as_slice());
    join_str(st.as_str(), ".animus")
}

/// Standard base64 with padding of `b`, as the `base64` crate's `STANDARD`
/// engine writes it.
pub uninterp spec fn base64_standard(b: Seq<u8>) -> Seq<char>;

/// `base64::engine::general_purpose::STANDARD.encode`: a function of the
/// bytes alone.
#[verifier::external_body]
fn base64_encode(b: &[u8]) -> (r: String)
    ensures
        r@ == base64_standard(b@),
{
    base64::engine::general_purpose::STANDARD.encode(b)
}

/// The public key in standard base64, as the packer prints it.
pub fn public_key_text(public_key: &[u8]) -> (r: String)
    ensures
        r@ == base64_standard(public_key@),
{
    base64_encode(public_key)
}

/// What the server keeps of a package (never published with it).
pub struct ServerKeyRecord {
    pub package_id: String,
    pub original_name: String,
    pub original_size: u64,
    pub original_sha256: String,
    pub package_size: u64,
    pub package_sha256: String,
    pub encryption_key_b64: String,
    pub signing_public_key_b64: String,
    pub signing_key_id: String,
}

/// The server record of a package: ids and hashes in hex, the keys in
/// base64.
pub fn server_record(
    package_id: &[u8],
    original_name: &str,
    original_size: u64,
    original_sha256: &[u8],
    package_size: u64,
    package_sha256: &[u8],
    encryption_key: &[u8],
    public_key: &[u8],
) -> (r: ServerKeyRecord)
    requires
        package_id@.len() == 16,
    ensures
        r.package_id@ == uuid_text(package_id@),
        r.original_name@ == original_name@,
        r.original_size == original_size,
        r.original_sha256@ == hex_lower(original_sha256@),
        r.package_size == package_size,
        r.package_sha256@ == hex_lower(package_sha256@),
        r.encryption_key_b64@ == base64_standard(encryption_key@),
        r.signing_public_key_b64@ == base64_standard(public_key@),
        r.signing_key_id@ == hex_lower(sha256(public_key@).take(8)),
{
    ServerKeyRecord {
        package_id: uuid_string(package_id),
        original_name: original_name.to_owned(),
        original_size,
        original_sha256: hex_encode(original_sha256),
        package_size,
        package_sha256: hex_encode(package_sha256),
        encryption_key_b64: base64_encode(encryption_key),
        signing_public_key_b64: base64_encode(public_key),
        signing_key_id: signing_key_id(public_key),
    }
}

/// `OsRng.fill_bytes` on `n` zero bytes: `n` bytes from the operating
/// system's generator. Nothing is stated of their values.
#[verifier::external_body]
fn random_bytes(n: usize) -> (r: Vec<u8>)
    ensures
        r@.len() == n,
{
    let mut b = vec![0u8; n];
    rand::rngs::OsRng.fill_bytes(&mut b);
    b
}

/// `Uuid::new_v4().as_bytes()`: 16 bytes of a random (version 4) UUID.
/// Nothing is stated of their values.
#[verifier::external_body]
fn new_package_id() -> (r: Vec<u8>)
    ensures
        r@.len() == 16,
{
    uuid::Uuid::new_v4().as_bytes().to_vec()
}

/// A fresh 32-byte signing seed for the packer's first run.
pub fn new_signing_seed() -> (r: Vec<u8>)
    ensures
        r@.len() == 32,
{
    random_bytes(32)
}

impl Sealer {
    /// Starts a package for an archive of `original_size` bytes whose
    /// contents were fed to `input`, with file name `name` (its bytes): draws
    /// the package id, the encryption key and the nonce prefix, and returns
    /// the sealer with the header to write first. A name over `u16::MAX`
    /// bytes is refused before anything is drawn.
    pub fn start(original_size: u64, input: Sha256State, name: &[u8], public_key: &[u8]) -> (r:
        Result<(Sealer, Vec<u8>), PackError>)
        ensures
            r is Ok <==> name@.len() <= u16::MAX,
            r matches Err(e) ==> e is NameTooLong,
            r matches Ok((s, h)) ==> {
                &&& s.well_formed()
                &&& s.next_index == 0
                &&& s.processed == 0
                &&& s.plain_chunks@ == Seq::<Seq<u8>>::empty()
                &&& s.header@ == h@
                &&& s.original_size == original_size
                &&& s.original_sha256@ == sha256(input.fed())
                &&& h@ == header_bytes(
                    original_size,
                    s.package_id@,
                    s.nonce_prefix@,
                    sha256(input.fed()),
                    sha256(public_key@).take(8),
                    name@,
                )
            },
    {
        if name.len() > 65535 {
            return Err(PackError::NameTooLong);
        }
        let original_sha256 = input.finish_bytes();
        let package_id = new_package_id();
        let key = random_bytes(32);
        let nonce_prefix = random_bytes(16);
        let key_id = signing_key_id_bytes(public_key);
        let header = match package_header(
            original_size,
            package_id.as_slice(),
            nonce_prefix.as_slice(),
            original_sha256.as_slice(),
            key_id.as_slice(),
            name,
        ) {
            Ok(h) => h,
            Err(e) => {
                return Err(e);
            },
        };
        let mut payload = Sha256State::new();
        payload.update(header.as_slice());
        let ghost chunks = Seq::<Seq<u8>>::empty();
        proof {
            assert(sealed_stream(key@, nonce_prefix@, package_id@, original_size, original_sha256@, chunks)
                =~= Seq::<u8>::empty());
            assert(payload.fed() =~= header@ + Seq::<u8>::empty());
        }
        Ok(
            (
                Sealer {
                    key,
                    nonce_prefix,
                    package_id,
                    original_size,
                    original_sha256,
                    next_index: 0,
                    processed: 0,
                    payload,
                    header: Ghost(header@),
                    plain_chunks: Ghost(chunks),
                },
                header,
            ),
        )
    }
}

/// The packer's key folder: `AnimusPatchLoader\\packer-keys` under local
/// application data (which must be known).
pub fn signing_key_directory(local: &Option<String>) -> (r: Option<String>)
    ensures
        match *local {
            Some(l) => r matches Some(p) && p@ == crate::emulator::join_path(
                crate::emulator::join_path(l@, "AnimusPatchLoader"@),
                "packer-keys"@,
            ),
            None => r is None,
        },
{
    match local {
        None => None,
        Some(l) => {
            let a = crate::emulator::join_path_exec(l.as_str(), "AnimusPatchLoader");
            Some(crate::emulator::join_path_exec(a.as_str(), "packer-keys"))
        },
    }
}

} // verus!
