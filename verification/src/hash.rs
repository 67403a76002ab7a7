//! SHA-256, lower-case hexadecimal, message identifiers and run
//! identifiers.

use crate::text::from_chars;
use sha2::Digest;
use vstd::bytes::spec_u64_to_le_bytes;
use vstd::bytes::u64_to_le_bytes;
use vstd::prelude::*;
use vstd::slice::slice_to_vec;

verus! {

/// The sixty-four round constants of SHA-256.
pub const ROUND_CONSTANTS: [u32; 64] = [
    0x428a2f98, 0x71374491, 0xb5c0fbcf, 0xe9b5dba5, 0x3956c25b, 0x59f111f1, 0x923f82a4, 0xab1c5ed5,
    0xd807aa98, 0x12835b01, 0x243185be, 0x550c7dc3, 0x72be5d74, 0x80deb1fe, 0x9bdc06a7, 0xc19bf174,
    0xe49b69c1, 0xefbe4786, 0x0fc19dc6, 0x240ca1cc, 0x2de92c6f, 0x4a7484aa, 0x5cb0a9dc, 0x76f988da,
    0x983e5152, 0xa831c66d, 0xb00327c8, 0xbf597fc7, 0xc6e00bf3, 0xd5a79147, 0x06ca6351, 0x14292967,
    0x27b70a85, 0x2e1b2138, 0x4d2c6dfc, 0x53380d13, 0x650a7354, 0x766a0abb, 0x81c2c92e, 0x92722c85,
    0xa2bfe8a1, 0xa81a664b, 0xc24b8b70, 0xc76c51a3, 0xd192e819, 0xd6990624, 0xf40e3585, 0x106aa070,
    0x19a4c116, 0x1e376c08, 0x2748774c, 0x34b0bcb5, 0x391c0cb3, 0x4ed8aa4a, 0x5b9cca4f, 0x682e6ff3,
    0x748f82ee, 0x78a5636f, 0x84c87814, 0x8cc70208, 0x90befffa, 0xa4506ceb, 0xbef9a3f7, 0xc67178f2,
];

/// The eight working words of SHA-256.
#[derive(Clone, Copy)]
pub struct Words {
    pub a: u32,
    pub b: u32,
    pub c: u32,
    pub d: u32,
    pub e: u32,
    pub f: u32,
    pub g: u32,
    pub h: u32,
}

/// `x` rotated right by `n` bits.
pub open spec fn rotr(x: u32, n: u32) -> u32 {
    (x >> n) | (x << ((32 - n) as u32))
}

pub open spec fn big_sigma0(x: u32) -> u32 {
    rotr(x, 2) ^ rotr(x, 13) ^ rotr(x, 22)
}

pub open spec fn big_sigma1(x: u32) -> u32 {
    rotr(x, 6) ^ rotr(x, 11) ^ rotr(x, 25)
}

pub open spec fn small_sigma0(x: u32) -> u32 {
    rotr(x, 7) ^ rotr(x, 18) ^ (x >> 3)
}

pub open spec fn small_sigma1(x: u32) -> u32 {
    rotr(x, 17) ^ rotr(x, 19) ^ (x >> 10)
}

pub open spec fn choose_bits(e: u32, f: u32, g: u32) -> u32 {
    (e & f) ^ ((!e) & g)
}

pub open spec fn majority(a: u32, b: u32, c: u32) -> u32 {
    (a & b) ^ (a & c) ^ (b & c)
}

/// The word that four bytes write, most significant first.
pub open spec fn be_word(b0: u8, b1: u8, b2: u8, b3: u8) -> u32 {
    ((b0 as u32) << 24) | ((b1 as u32) << 16) | ((b2 as u32) << 8) | (b3 as u32)
}

/// The four bytes of a word, most significant first.
pub open spec fn word_bytes(w: u32) -> Seq<u8> {
    seq![
        ((w >> 24) & 0xff) as u8,
        ((w >> 16) & 0xff) as u8,
        ((w >> 8) & 0xff) as u8,
        (w & 0xff) as u8,
    ]
}

/// The eight bytes of a length, most significant first.
pub open spec fn length_bytes(n: u64) -> Seq<u8> {
    seq![
        ((n >> 56) & 0xff) as u8,
        ((n >> 48) & 0xff) as u8,
        ((n >> 40) & 0xff) as u8,
        ((n >> 32) & 0xff) as u8,
        ((n >> 24) & 0xff) as u8,
        ((n >> 16) & 0xff) as u8,
        ((n >> 8) & 0xff) as u8,
        (n & 0xff) as u8,
    ]
}

/// The number of zero bytes that padding puts between the end marker and
/// the length, so that the whole is a multiple of 64 bytes.
pub open spec fn zero_fill(len: nat) -> nat {
    ((119 - (len % 64)) % 64) as nat
}

/// The length of a message in bits, as the last eight bytes carry it.
pub open spec fn bit_length(len: nat) -> u64 {
    ((len * 8) % 0x1_0000_0000_0000_0000) as u64
}

/// A message with its padding: the marker `0x80`, zeros, and the length in
/// bits.
pub open spec fn padded(msg: Seq<u8>) -> Seq<u8> {
    msg.push(0x80u8) + Seq::new(zero_fill(msg.len()), |i: int| 0u8) + length_bytes(
        bit_length(msg.len()),
    )
}

/// Word `t` of the message schedule of a 64-byte block.
pub open spec fn schedule(block: Seq<u8>, t: int) -> u32
    decreases t,
{
    if t < 16 {
        be_word(block[4 * t], block[4 * t + 1], block[4 * t + 2], block[4 * t + 3])
    } else {
        schedule(block, t - 16).wrapping_add(small_sigma0(schedule(block, t - 15))).wrapping_add(
            schedule(block, t - 7),
        ).wrapping_add(small_sigma1(schedule(block, t - 2)))
    }
}

/// One round of the compression function.
pub open spec fn round(s: Words, k: u32, w: u32) -> Words {
    let t1 = s.h.wrapping_add(big_sigma1(s.e)).wrapping_add(choose_bits(s.e, s.f, s.g)).wrapping_add(
        k,
    ).wrapping_add(w);
    let t2 = big_sigma0(s.a).wrapping_add(majority(s.a, s.b, s.c));
    Words {
        a: t1.wrapping_add(t2),
        b: s.a,
        c: s.b,
        d: s.c,
        e: s.d.wrapping_add(t1),
        f: s.e,
        g: s.f,
        h: s.g,
    }
}

/// The working words after the first `t` rounds over a block.
pub open spec fn rounds(s: Words, block: Seq<u8>, t: int) -> Words
    decreases t,
{
    if t <= 0 {
        s
    } else {
        round(rounds(s, block, t - 1), ROUND_CONSTANTS@[t - 1], schedule(block, t - 1))
    }
}

/// Word by word sum, each modulo 2^32.
pub open spec fn add_words(x: Words, y: Words) -> Words {
    Words {
        a: x.a.wrapping_add(y.a),
        b: x.b.wrapping_add(y.b),
        c: x.c.wrapping_add(y.c),
        d: x.d.wrapping_add(y.d),
        e: x.e.wrapping_add(y.e),
        f: x.f.wrapping_add(y.f),
        g: x.g.wrapping_add(y.g),
        h: x.h.wrapping_add(y.h),
    }
}

/// The hash value after one more block.
pub open spec fn compress(h: Words, block: Seq<u8>) -> Words {
    add_words(h, rounds(h, block, 64))
}

/// The hash value after the first `n` blocks of `data`.
pub open spec fn absorb(h: Words, data: Seq<u8>, n: int) -> Words
    decreases n,
{
    if n <= 0 {
        h
    } else {
        compress(absorb(h, data, n - 1), data.subrange(64 * (n - 1), 64 * n))
    }
}

/// The initial hash value.
pub open spec fn initial_words() -> Words {
    Words {
        a: 0x6a09e667,
        b: 0xbb67ae85,
        c: 0x3c6ef372,
        d: 0xa54ff53a,
        e: 0x510e527f,
        f: 0x9b05688c,
        g: 0x1f83d9ab,
        h: 0x5be0cd19,
    }
}

/// The thirty-two bytes of a hash value.
pub open spec fn words_bytes(h: Words) -> Seq<u8> {
    word_bytes(h.a) + word_bytes(h.b) + word_bytes(h.c) + word_bytes(h.d) + word_bytes(h.e)
        + word_bytes(h.f) + word_bytes(h.g) + word_bytes(h.h)
}

/// The SHA-256 digest of a message.
pub open spec fn sha256(msg: Seq<u8>) -> Seq<u8> {
    let p = padded(msg);
    words_bytes(absorb(initial_words(), p, p.len() as int / 64))
}

/// The hexadecimal digit of a value below sixteen, in lower case.
pub open spec fn hex_digit(n: int) -> char {
    if n < 10 {
        (('0' as u8) + (n as u8)) as char
    } else {
        (('a' as u8) + ((n - 10) as u8)) as char
    }
}

/// Two lower-case hexadecimal digits for each byte.
pub open spec fn hex_lower(bytes: Seq<u8>) -> Seq<char>
    decreases bytes.len(),
{
    if bytes.len() == 0 {
        Seq::empty()
    } else {
        hex_lower(bytes.drop_last()).push(hex_digit(bytes.last() as int / 16)).push(
            hex_digit(bytes.last() as int % 16),
        )
    }
}

/// The digest has thirty-two bytes and its hexadecimal form sixty-four
/// characters.
pub proof fn lemma_digest_len(msg: Seq<u8>)
    ensures
        sha256(msg).len() == 32,
        hex_lower(sha256(msg)).len() == 64,
{
    lemma_hex_len(sha256(msg));
}

/// Hexadecimal takes two characters for each byte.
pub proof fn lemma_hex_len(bytes: Seq<u8>)
    ensures
        hex_lower(bytes).len() == 2 * bytes.len(),
    decreases bytes.len(),
{
    if bytes.len() > 0 {
        lemma_hex_len(bytes.drop_last());
    }
}

fn rotate(x: u32, n: u32) -> (r: u32)
    requires
        0 < n < 32,
    ensures
        r == rotr(x, n),
{
    (x >> n) | (x << (32 - n))
}

fn sigma_upper0(x: u32) -> (r: u32)
    ensures
        r == big_sigma0(x),
{
    rotate(x, 2) ^ rotate(x, 13) ^ rotate(x, 22)
}

fn sigma_upper1(x: u32) -> (r: u32)
    ensures
        r == big_sigma1(x),
{
    rotate(x, 6) ^ rotate(x, 11) ^ rotate(x, 25)
}

fn sigma_lower0(x: u32) -> (r: u32)
    ensures
        r == small_sigma0(x),
{
    rotate(x, 7) ^ rotate(x, 18) ^ (x >> 3)
}

fn sigma_lower1(x: u32) -> (r: u32)
    ensures
        r == small_sigma1(x),
{
    rotate(x, 17) ^ rotate(x, 19) ^ (x >> 10)
}

fn one_round(s: Words, k: u32, w: u32) -> (r: Words)
    ensures
        r == round(s, k, w),
{
    let ch: u32 = (s.e & s.f) ^ ((!s.e) & s.g);
    let t1: u32 = s.h.wrapping_add(sigma_upper1(s.e)).wrapping_add(ch).wrapping_add(k).wrapping_add(
        w,
    );
    let maj: u32 = (s.a & s.b) ^ (s.a & s.c) ^ (s.b & s.c);
    let t2: u32 = sigma_upper0(s.a).wrapping_add(maj);
    Words {
        a: t1.wrapping_add(t2),
        b: s.a,
        c: s.b,
        d: s.c,
        e: s.d.wrapping_add(t1),
        f: s.e,
        g: s.f,
        h: s.g,
    }
}

/// The message schedule of the block of `data` that begins at `off`.
fn expand_block(data: &[u8], off: usize) -> (w: Vec<u32>)
    requires
        off + 64 <= data@.len(),
    ensures
        w@.len() == 64,
        forall|t: int|
            0 <= t < 64 ==> w@[t] == schedule(data@.subrange(off as int, off + 64), t),
{
    let ghost block = data@.subrange(off as int, off + 64);
    let total: usize = data.len();
    let mut w: Vec<u32> = Vec::new();
    let mut i: usize = 0;
    while i < 16
        invariant
            i <= 16,
            off + 64 <= data@.len() <= usize::MAX,
            block == data@.subrange(off as int, off + 64),
            w@.len() == i,
            forall|t: int| 0 <= t < i ==> w@[t] == schedule(block, t),
        decreases 16 - i,
    {
        let j: usize = off + 4 * i;
        let b0: u8 = data[j];
        let b1: u8 = data[j + 1];
        let b2: u8 = data[j + 2];
        let b3: u8 = data[j + 3];
        assert(block[4 * i] == b0 && block[4 * i + 1] == b1 && block[4 * i + 2] == b2 && block[4
            * i + 3] == b3);
        let word: u32 = ((b0 as u32) << 24) | ((b1 as u32) << 16) | ((b2 as u32) << 8) | (b3 as u32);
        w.push(word);
        i += 1;
    }
    let mut t: usize = 16;
    while t < 64
        invariant
            16 <= t <= 64,
            w@.len() == t,
            forall|k: int| 0 <= k < t ==> w@[k] == schedule(block, k),
        decreases 64 - t,
    {
        let s0: u32 = sigma_lower0(w[t - 15]);
        let s1: u32 = sigma_lower1(w[t - 2]);
        let word: u32 = w[t - 16].wrapping_add(s0).wrapping_add(w[t - 7]).wrapping_add(s1);
        assert(w@[t - 16] == schedule(block, t - 16));
        assert(w@[t - 15] == schedule(block, t - 15));
        assert(w@[t - 7] == schedule(block, t - 7));
        assert(w@[t - 2] == schedule(block, t - 2));
        assert(word == schedule(block, t as int));
        w.push(word);
        t += 1;
    }
    w
}

/// The hash value after the block of `data` that begins at `off`.
fn compress_block(h: Words, data: &[u8], off: usize) -> (r: Words)
    requires
        off + 64 <= data@.len(),
    ensures
        r == compress(h, data@.subrange(off as int, off + 64)),
{
    let ghost block = data@.subrange(off as int, off + 64);
    let w = expand_block(data, off);
    let mut s: Words = h;
    let mut t: usize = 0;
    while t < 64
        invariant
            t <= 64,
            w@.len() == 64,
            forall|k: int| 0 <= k < 64 ==> w@[k] == schedule(block, k),
            s == rounds(h, block, t as int),
        decreases 64 - t,
    {
        s = one_round(s, ROUND_CONSTANTS[t], w[t]);
        t += 1;
    }
    Words {
        a: h.a.wrapping_add(s.a),
        b: h.b.wrapping_add(s.b),
        c: h.c.wrapping_add(s.c),
        d: h.d.wrapping_add(s.d),
        e: h.e.wrapping_add(s.e),
        f: h.f.wrapping_add(s.f),
        g: h.g.wrapping_add(s.g),
        h: h.h.wrapping_add(s.h),
    }
}

fn push_word(out: &mut Vec<u8>, w: u32)
    ensures
        final(out)@ == old(out)@ + word_bytes(w),
{
    out.push(((w >> 24) & 0xff) as u8);
    out.push(((w >> 16) & 0xff) as u8);
    out.push(((w >> 8) & 0xff) as u8);
    out.push((w & 0xff) as u8);
    assert(final(out)@ =~= old(out)@ + word_bytes(w));
}

/// The message with its padding.
fn pad_message(input: &[u8]) -> (data: Vec<u8>)
    ensures
        data@ == padded(input@),
        data@.len() % 64 == 0,
{
    let n: usize = input.len();
    let mut data: Vec<u8> = slice_to_vec(input);
    data.push(0x80u8);
    let fill: usize = (119 - (n % 64)) % 64;
    let mut i: usize = 0;
    while i < fill
        invariant
            i <= fill,
            data@ == input@.push(0x80u8) + Seq::new(i as nat, |k: int| 0u8),
        decreases fill - i,
    {
        data.push(0u8);
        assert(data@ =~= input@.push(0x80u8) + Seq::new((i + 1) as nat, |k: int| 0u8));
        i += 1;
    }
    let bits: u128 = (n as u128) * 8;
    let len: u64 = (bits % 0x1_0000_0000_0000_0000) as u64;
    assert(len == bit_length(input@.len()));
    data.push(((len >> 56) & 0xff) as u8);
    data.push(((len >> 48) & 0xff) as u8);
    data.push(((len >> 40) & 0xff) as u8);
    data.push(((len >> 32) & 0xff) as u8);
    data.push(((len >> 24) & 0xff) as u8);
    data.push(((len >> 16) & 0xff) as u8);
    data.push(((len >> 8) & 0xff) as u8);
    data.push((len & 0xff) as u8);
    assert(data@ =~= padded(input@));
    data
}

/// The SHA-256 digest of `input`, thirty-two bytes.
pub fn sha256_bytes(input: &[u8]) -> (out: Vec<u8>)
    ensures
        out@ == sha256(input@),
{
    let data = pad_message(input);
    let blocks: usize = data.len() / 64;
    let mut h: Words = Words {
        a: 0x6a09e667,
        b: 0xbb67ae85,
        c: 0x3c6ef372,
        d: 0xa54ff53a,
        e: 0x510e527f,
        f: 0x9b05688c,
        g: 0x1f83d9ab,
        h: 0x5be0cd19,
    };
    let mut b: usize = 0;
    while b < blocks
        invariant
            b <= blocks,
            blocks == data@.len() / 64,
            data@.len() <= usize::MAX,
            h == absorb(initial_words(), data@, b as int),
        decreases blocks - b,
    {
        h = compress_block(h, data.as_slice(), b * 64);
        b += 1;
    }
    let mut out: Vec<u8> = Vec::new();
    push_word(&mut out, h.a);
    push_word(&mut out, h.b);
    push_word(&mut out, h.c);
    push_word(&mut out, h.d);
    push_word(&mut out, h.e);
    push_word(&mut out, h.f);
    push_word(&mut out, h.g);
    push_word(&mut out, h.h);
    assert(out@ =~= words_bytes(h));
    out
}

fn hex_char(n: u8) -> (c: char)
    requires
        n < 16,
    ensures
        c == hex_digit(n as int),
{
    if n < 10 {
        (('0' as u8) + n) as char
    } else {
        (('a' as u8) + (n - 10)) as char
    }
}

/// `bytes` in lower-case hexadecimal, two digits for each byte.
pub fn hex_encode(bytes: &[u8]) -> (out: String)
    ensures
        out@ == hex_lower(bytes@),
{
    let mut chars: Vec<char> = Vec::new();
    let mut i: usize = 0;
    while i < bytes.len()
        invariant
            i <= bytes@.len(),
            chars@ == hex_lower(bytes@.take(i as int)),
        decreases bytes@.len() - i,
    {
        let b: u8 = bytes[i];
        chars.push(hex_char(b / 16));
        chars.push(hex_char(b % 16));
        proof {
            let next = bytes@.take(i + 1);
            assert(next.drop_last() =~= bytes@.take(i as int));
            assert(next.last() == b);
        }
        i += 1;
    }
    assert(bytes@.take(bytes@.len() as int) =~= bytes@);
    from_chars(chars.as_slice())
}

/// The SHA-256 digest of `input` in lower-case hexadecimal.
pub fn sha256_hex(input: &[u8]) -> (out: String)
    ensures
        out@ == hex_lower(sha256(input@)),
{
    let digest = sha256_bytes(input);
    hex_encode(digest.as_slice())
}

/// What `sha2::Sha256::digest` returns for a message.
pub uninterp spec fn sha2_digest(data: Seq<u8>) -> Seq<u8>;

/// `sha2::Sha256::digest`: the digest that the `sha2` crate computes for
/// `data`, which depends on the bytes alone and has thirty-two bytes.
#[verifier::external_body]
fn sha2_digest_of(data: &[u8]) -> (out: Vec<u8>)
    ensures
        out@ == sha2_digest(data@),
        out@.len() == 32,
{
    sha2::Sha256::digest(data).to_vec()
}

/// The identifier that `digest` makes: its lower-case hexadecimal form.
pub fn msg_id_from_digest(digest: &[u8]) -> (id: String)
    ensures
        id@ == hex_lower(digest@),
{
    hex_encode(digest)
}

/// The identifier of a message that carries none: the digest of its
/// payload in lower-case hexadecimal.
pub fn compute_msg_id(payload: &[u8]) -> (id: String)
    ensures
        id@ == hex_lower(sha2_digest(payload@)),
        id@.len() == 64,
{
    let digest = sha2_digest_of(payload);
    proof {
        lemma_hex_len(digest@);
    }
    msg_id_from_digest(digest.as_slice())
}

/// The seed as it enters a run identifier: zero where none is given.
pub open spec fn seed_or_zero(seed: Option<u64>) -> u64 {
    match seed {
        Some(s) => s,
        None => 0,
    }
}

/// The identifier of a run: `r_`, then the digest of the request's bytes
/// followed by the seed's eight bytes, least significant first.
pub open spec fn run_id_of(request: Seq<u8>, seed: Option<u64>) -> Seq<char> {
    "r_"@ + hex_lower(sha256(request + spec_u64_to_le_bytes(seed_or_zero(seed))))
}

/// The identifier of the run that `request` and `seed` ask for.
pub fn run_id(request: &[u8], seed: Option<u64>) -> (id: String)
    ensures
        id@ == run_id_of(request@, seed),
{
    let s: u64 = match seed {
        Some(v) => v,
        None => 0,
    };
    let mut all: Vec<u8> = slice_to_vec(request);
    let mut tail: Vec<u8> = u64_to_le_bytes(s);
    all.append(&mut tail);
    let hex = sha256_hex(all.as_slice());
    let mut chars: Vec<char> = Vec::new();
    crate::text::push_str_chars(&mut chars, "r_");
    crate::text::push_str_chars(&mut chars, hex.as_str());
    assert(chars@ =~= run_id_of(request@, seed));
    from_chars(chars.as_slice())
}

/// Requests of the same bytes with the same seed get the same identifier.
pub proof fn lemma_run_id_deterministic(
    request1: Seq<u8>,
    seed1: Option<u64>,
    request2: Seq<u8>,
    seed2: Option<u64>,
)
    requires
        request1 == request2,
        seed1 == seed2,
    ensures
        run_id_of(request1, seed1) == run_id_of(request2, seed2),
{
}

/// An absent seed counts as zero.
pub proof fn lemma_run_id_default_seed(request: Seq<u8>)
    ensures
        run_id_of(request, None) == run_id_of(request, Some(0u64)),
{
}

} // verus!
