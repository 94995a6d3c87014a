//! The hash adapter and the per-probe index computation: a salted input buffer
//! is digested, the first eight digest bytes are read as a little-endian
//! 64-bit integer, and the cell index is that value modulo the cell count.
//! (The digest prefix is read in a fixed byte order, so serialized filters
//! index identically on every machine.)

use vstd::prelude::*;
use md4::Digest;

verus! {

/// The digest algorithm a filter uses to derive cell indices. Only the
/// uniformity of the digest matters, not its cryptographic strength.
#[derive(Clone, Copy, Debug)]
pub enum HashFunction {
    /// The MD5 digest.
    MD5,
    /// The MD4 digest.
    MD4,
}

/// The bytes that the MD5 digest assigns to the given input bytes.
pub uninterp spec fn md5_of(input: Seq<u8>) -> Seq<u8>;

/// The bytes that the MD4 digest assigns to the given input bytes.
pub uninterp spec fn md4_of(input: Seq<u8>) -> Seq<u8>;

/// Relies on `md5::compute`: a 16-byte digest that is a function of the input
/// bytes alone.
#[verifier::external_body]
fn md5_digest(input: &[u8]) -> (r: Vec<u8>)
    ensures
        r@ == md5_of(input@),
        r@.len() == 16,
{
    md5::compute(input).0.to_vec()
}

/// Relies on `md4::Md4::digest` (through the `digest::Digest` trait): a
/// 16-byte digest that is a function of the input bytes alone.
#[verifier::external_body]
fn md4_digest(input: &[u8]) -> (r: Vec<u8>)
    ensures
        r@ == md4_of(input@),
        r@.len() == 16,
{
    md4::Md4::digest(input).to_vec()
}

/// The digest of `input` under the algorithm `h`.
pub open spec fn digest_of(h: HashFunction, input: Seq<u8>) -> Seq<u8> {
    match h {
        HashFunction::MD5 => md5_of(input),
        HashFunction::MD4 => md4_of(input),
    }
}

/// Computes the digest of `input` under `h`.
pub fn digest_bytes(h: HashFunction, input: &[u8]) -> (r: Vec<u8>)
    ensures
        r@ == digest_of(h, input@),
        r@.len() == 16,
{
    match h {
        HashFunction::MD5 => md5_digest(input),
        HashFunction::MD4 => md4_digest(input),
    }
}

/// The salted probe buffer: `content` truncated or zero-padded to the salt's
/// length, XORed with the salt byte for byte.
pub open spec fn pad_xor(content: Seq<u8>, salt: Seq<u8>) -> Seq<u8> {
    Seq::new(
        salt.len(),
        |i: int|
            (if i < content.len() {
                content[i]
            } else {
                0u8
            }) ^ salt[i],
    )
}

/// Builds the salted probe buffer of `pad_xor`.
pub fn xor_with_salt(content: &[u8], salt: &Vec<u8>) -> (r: Vec<u8>)
    ensures
        r@ == pad_xor(content@, salt@),
{
    let mut out: Vec<u8> = Vec::new();
    let n = salt.len();
    let mut i: usize = 0;
    while i < n
        invariant
            0 <= i <= n,
            n == salt@.len(),
            out@ =~= pad_xor(content@, salt@).take(i as int),
        decreases n - i,
    {
        let b: u8 = if i < content.len() {
            content[i]
        } else {
            0
        };
        out.push(b ^ salt[i]);
        i = i + 1;
    }
    assert(out@ =~= pad_xor(content@, salt@));
    out
}

/// 256 to the power `n`.
pub open spec fn pow256(n: int) -> int
    decreases n when n >= 0
{
    if n <= 0 {
        1
    } else {
        256 * pow256(n - 1)
    }
}

/// The unsigned integer that `s` denotes with its first byte least
/// significant.
pub open spec fn le_bytes(s: Seq<u8>) -> int
    decreases s.len(),
{
    if s.len() == 0 {
        0
    } else {
        s[0] + 256 * le_bytes(s.drop_first())
    }
}

pub proof fn lemma_le_bytes_bound(s: Seq<u8>)
    ensures
        0 <= le_bytes(s) < pow256(s.len() as int),
    decreases s.len(),
{
    if s.len() > 0 {
        lemma_le_bytes_bound(s.drop_first());
    }
}

/// Reads the first eight bytes of `bytes` as a little-endian `u64`.
pub fn le_u64_of_prefix(bytes: &Vec<u8>) -> (r: u64)
    requires
        bytes@.len() >= 8,
    ensures
        r as int == le_bytes(bytes@.take(8)),
{
    let mut acc: u64 = 0;
    let mut j: usize = 8;
    while j > 0
        invariant
            0 <= j <= 8,
            bytes@.len() >= 8,
            acc as int == le_bytes(bytes@.take(8).skip(j as int)),
        decreases j,
    {
        proof {
            let tail = bytes@.take(8).skip(j as int);
            let whole = bytes@.take(8).skip(j as int - 1);
            lemma_le_bytes_bound(tail);
            lemma_pow256_le_u64(8 - j as int);
            assert(whole.drop_first() =~= tail);
            assert(whole[0] == bytes@[j as int - 1]);
        }
        j = j - 1;
        acc = acc * 256 + (bytes[j] as u64);
    }
    assert(bytes@.take(8).skip(0) =~= bytes@.take(8));
    acc
}

proof fn lemma_pow256_le_u64(n: int)
    requires
        0 <= n <= 7,
    ensures
        256 * pow256(n) <= u64::MAX + 1,
{
    reveal_with_fuel(pow256, 9);
}

/// The cell index of one probe: the little-endian value of the first eight
/// digest bytes of the salted buffer, modulo the cell count `m`.
pub open spec fn cell_index(h: HashFunction, salt: Seq<u8>, content: Seq<u8>, m: int) -> int {
    le_bytes(digest_of(h, pad_xor(content, salt)).take(8)) % m
}

/// The cell indices of all probes, one per salt, in salt order.
pub open spec fn indices_of(h: HashFunction, salts: Seq<Seq<u8>>, content: Seq<u8>, m: int) -> Seq<
    int,
> {
    Seq::new(salts.len(), |j: int| cell_index(h, salts[j], content, m))
}

/// Computes the cell index of one probe.
pub fn probe_index(h: HashFunction, salt: &Vec<u8>, content: &[u8], m: usize) -> (r: usize)
    requires
        m >= 1,
    ensures
        r as int == cell_index(h, salt@, content@, m as int),
        r < m,
{
    let buf = xor_with_salt(content, salt);
    let dig = digest_bytes(h, buf.as_slice());
    let v = le_u64_of_prefix(&dig);
    let r = (v % (m as u64)) as usize;
    proof {
        assert(dig@.take(8) == digest_of(h, pad_xor(content@, salt@)).take(8));
    }
    r
}

} // verus!
