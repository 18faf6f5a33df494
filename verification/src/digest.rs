//! The SHA-1 digest engine: padding, block scheduling, the 80-round
//! compression pipeline, and the accumulation of the five 32-bit state words.
//!
//! The spec functions in this module form a mathematical model of SHA-1 over
//! `Seq<u8>`; the executable `sha1` function is proved to return exactly the
//! digest that the model assigns to its input.

use vstd::arithmetic::div_mod::lemma_fundamental_div_mod;
use vstd::arithmetic::div_mod::lemma_small_mod;
use vstd::prelude::*;

verus! {

/// The one failure kind the digest engine can surface, reserved for
/// platform-level failures during internal buffer construction. The verified
/// code never produces it: digest computation is total over byte sequences.
#[derive(Clone, Copy, PartialEq, Eq, Structural, Debug)]
pub struct ComputationError;

/// Addition modulo 2^32, the only addition SHA-1 uses.
pub open spec fn wadd(x: u32, y: u32) -> u32 {
    vstd::wrapping::u32_specs::wrapping_add(x, y)
}

/// Left rotation of a 32-bit word by `n` bits, for 0 < n < 32.
pub open spec fn rotl(x: u32, n: u32) -> u32
    recommends
        0 < n < 32,
{
    (x << n) | (x >> ((32 - n) as u32))
}

/// The fixed initial hash state (h0, h1, h2, h3, h4).
pub open spec fn init_hash() -> (u32, u32, u32, u32, u32) {
    (0x67452301u32, 0xEFCDAB89u32, 0x98BADCFEu32, 0x10325476u32, 0xC3D2E1F0u32)
}

/// Big-endian reassembly of a 32-bit word from four bytes.
pub open spec fn be_word(b0: u8, b1: u8, b2: u8, b3: u8) -> u32 {
    (((b0 as u32) << 24u32) | ((b1 as u32) << 16u32) | ((b2 as u32) << 8u32)) | (b3 as u32)
}

/// Word `i` of the 80-word schedule derived from one 64-byte block: the
/// first 16 words reassemble the block's bytes big-endian; the rest XOR four
/// earlier words and rotate left by one bit.
pub open spec fn sched(block: Seq<u8>, i: int) -> u32
    recommends
        block.len() == 64,
        0 <= i < 80,
    decreases i,
{
    if i < 16 {
        be_word(block[4 * i], block[4 * i + 1], block[4 * i + 2], block[4 * i + 3])
    } else {
        rotl(sched(block, i - 3) ^ sched(block, i - 8) ^ sched(block, i - 14) ^ sched(block, i - 16), 1)
    }
}

/// The mixing function of round `i`.
pub open spec fn f_mix(i: int, b: u32, c: u32, d: u32) -> u32 {
    if i < 20 {
        (b & c) | ((!b) & d)
    } else if i < 40 {
        b ^ c ^ d
    } else if i < 60 {
        ((b & c) | (b & d)) | (c & d)
    } else {
        b ^ c ^ d
    }
}

/// The additive round constant of round `i`.
pub open spec fn k_const(i: int) -> u32 {
    if i < 20 {
        0x5A827999u32
    } else if i < 40 {
        0x6ED9EBA1u32
    } else if i < 60 {
        0x8F1BBCDCu32
    } else {
        0xCA62C1D6u32
    }
}

/// One round of the compression pipeline on working state (a, b, c, d, e).
pub open spec fn round(block: Seq<u8>, i: int, st: (u32, u32, u32, u32, u32)) -> (u32, u32, u32, u32, u32) {
    let temp = wadd(wadd(wadd(wadd(rotl(st.0, 5), f_mix(i, st.1, st.2, st.3)), st.4), k_const(i)), sched(block, i));
    (temp, st.0, rotl(st.1, 30), st.2, st.3)
}

/// Working state after the first `n` rounds on one block, starting from `st`.
pub open spec fn rounds(block: Seq<u8>, st: (u32, u32, u32, u32, u32), n: int) -> (u32, u32, u32, u32, u32)
    decreases n,
{
    if n <= 0 {
        st
    } else {
        round(block, n - 1, rounds(block, st, n - 1))
    }
}

/// Compression of one 64-byte block into the running hash state: run all 80
/// rounds starting from the state, then accumulate with wrapping addition.
pub open spec fn compress(h: (u32, u32, u32, u32, u32), block: Seq<u8>) -> (u32, u32, u32, u32, u32) {
    let st = rounds(block, h, 80);
    (wadd(h.0, st.0), wadd(h.1, st.1), wadd(h.2, st.2), wadd(h.3, st.3), wadd(h.4, st.4))
}

/// Block `b` of a padded message: bytes 64*b .. 64*b + 64.
pub open spec fn block_of(padded: Seq<u8>, b: int) -> Seq<u8> {
    padded.subrange(64 * b, 64 * b + 64)
}

/// Hash state after compressing the first `n` 64-byte blocks of `padded`.
pub open spec fn process_blocks(padded: Seq<u8>, n: int) -> (u32, u32, u32, u32, u32)
    decreases n,
{
    if n <= 0 {
        init_hash()
    } else {
        compress(process_blocks(padded, n - 1), block_of(padded, n - 1))
    }
}

/// How many zero bytes padding inserts after the 0x80 byte for a message of
/// `len` bytes: just enough that the total length reaches 56 modulo 64.
pub open spec fn pad_zero_count(len: nat) -> nat {
    ((119 - (len % 64)) % 64) as nat
}

/// Big-endian 8-byte encoding of a 64-bit value.
pub open spec fn be_bytes_u64(x: u64) -> Seq<u8> {
    Seq::new(8, |i: int| (((x >> (((7 - i) * 8) as u64)) & 0xff) as u8))
}

/// The 8-byte trailer appended by padding: the message length in bits,
/// modulo 2^64, big-endian.
pub open spec fn length_field(len: nat) -> Seq<u8> {
    be_bytes_u64((((len * 8) % 0x1_0000_0000_0000_0000) as u64))
}

/// The padded message: the original bytes, one 0x80 byte, zero bytes up to
/// 56 modulo 64, and the 8-byte big-endian bit length.
pub open spec fn pad(m: Seq<u8>) -> Seq<u8> {
    m + seq![0x80u8] + Seq::new(pad_zero_count(m.len()), |i: int| 0u8) + length_field(m.len())
}

/// Big-endian 4-byte serialization of one 32-bit accumulator.
pub open spec fn be_bytes_u32(x: u32) -> Seq<u8> {
    Seq::new(4, |i: int| (((x >> (((3 - i) * 8) as u32)) & 0xff) as u8))
}

/// The SHA-1 digest of an arbitrary byte sequence: the five accumulators
/// reached after compressing every block of the padded message, serialized
/// big-endian into 20 bytes.
pub open spec fn spec_sha1(m: Seq<u8>) -> Seq<u8> {
    let h = process_blocks(pad(m), pad(m).len() as int / 64);
    be_bytes_u32(h.0) + be_bytes_u32(h.1) + be_bytes_u32(h.2) + be_bytes_u32(h.3) + be_bytes_u32(h.4)
}

/// The padded length is the least multiple of 64 at or above the original
/// length plus 9 (one 0x80 byte and the 8-byte length field), and the padded
/// message ends with the original bit length, big-endian.
pub proof fn lemma_padding_correct(m: Seq<u8>)
    ensures
        pad(m).len() % 64 == 0,
        pad(m).len() >= m.len() + 9,
        pad(m).len() < m.len() + 9 + 64,
        pad(m).subrange(pad(m).len() - 8, pad(m).len() as int) == length_field(m.len()),
        8 * m.len() <= u64::MAX ==> length_field(m.len()) == be_bytes_u64((8 * m.len()) as u64),
        pad(m).subrange(0, m.len() as int) == m,
        pad(m)[m.len() as int] == 0x80u8,
{
    let len = m.len();
    let zc = pad_zero_count(len);
    assert(pad(m).len() == len + 9 + zc);
    lemma_pad_len_mod(len);
    assert(pad(m).subrange(pad(m).len() - 8, pad(m).len() as int) =~= length_field(len));
    assert(pad(m).subrange(0, len as int) =~= m);
    if 8 * len <= u64::MAX {
        lemma_small_mod((len * 8) as nat, 0x1_0000_0000_0000_0000nat);
    }
}

/// Every digest is exactly 20 bytes long, whatever the input.
pub proof fn lemma_digest_len(m: Seq<u8>)
    ensures
        spec_sha1(m).len() == 20,
{
}

/// The digest is a function of the input bytes alone: two computations on
/// identical byte sequences yield identical digests.
pub proof fn lemma_digest_deterministic(m1: Seq<u8>, m2: Seq<u8>)
    requires
        m1 == m2,
    ensures
        spec_sha1(m1) == spec_sha1(m2),
{
}

/// The zero count brings `len + 9 + pad_zero_count(len)` to a multiple of 64.
proof fn lemma_pad_len_mod(len: nat)
    ensures
        (len + 9 + pad_zero_count(len)) % 64 == 0,
        pad_zero_count(len) < 64,
{
    let r = len % 64;
    lemma_fundamental_div_mod(len as int, 64);
    let q = len as int / 64;
    assert(len == 64 * q + r);
    if r <= 55 {
        assert(pad_zero_count(len) == 55 - r);
        assert(len + 9 + pad_zero_count(len) == 64 * (q + 1));
        assert((64 * (q + 1)) % 64 == 0) by (nonlinear_arith);
    } else {
        assert(pad_zero_count(len) == 119 - r);
        assert(len + 9 + pad_zero_count(len) == 64 * (q + 2));
        assert((64 * (q + 2)) % 64 == 0) by (nonlinear_arith);
    }
}

fn rotate_left_u32(x: u32, n: u32) -> (r: u32)
    requires
        0 < n < 32,
    ensures
        r == rotl(x, n),
{
    (x << n) | (x >> (32 - n))
}

fn be_word_exec(b0: u8, b1: u8, b2: u8, b3: u8) -> (r: u32)
    ensures
        r == be_word(b0, b1, b2, b3),
{
    (((b0 as u32) << 24u32) | ((b1 as u32) << 16u32) | ((b2 as u32) << 8u32)) | (b3 as u32)
}

fn be_byte64(x: u64, sh: u64) -> (r: u8)
    requires
        sh < 64,
    ensures
        r == ((x >> sh) & 0xff) as u8,
{
    let v: u64 = (x >> sh) & 0xff;
    assert(((x >> sh) & 0xff) < 256) by (bit_vector);
    v as u8
}

fn be_byte32(x: u32, sh: u32) -> (r: u8)
    requires
        sh < 32,
    ensures
        r == ((x >> sh) & 0xff) as u8,
{
    let v: u32 = (x >> sh) & 0xff;
    assert(((x >> sh) & 0xff) < 256) by (bit_vector);
    v as u8
}

/// Builds the padded copy of the message: the bytes themselves, 0x80, zeros
/// up to 56 modulo 64, and the 8-byte big-endian bit length.
#[verifier::loop_isolation(false)]
fn pad_message(message: &[u8]) -> (out: Vec<u8>)
    requires
        8 * message@.len() <= u64::MAX,
        message@.len() + 72 <= usize::MAX,
    ensures
        out@ == pad(message@),
{
    let mut padded: Vec<u8> = Vec::new();
    let mut i: usize = 0;
    while i < message.len()
        invariant
            i <= message@.len(),
            padded@ == message@.subrange(0, i as int),
        decreases message@.len() - i,
    {
        padded.push(message[i]);
        i += 1;
    }
    assert(padded@ =~= message@);

    padded.push(0x80);

    let zeros: usize = (119 - (message.len() % 64)) % 64;
    assert(zeros == pad_zero_count(message@.len()));
    assert(padded@ =~= message@ + seq![0x80u8] + Seq::new(0nat, |k: int| 0u8));
    let mut j: usize = 0;
    while j < zeros
        invariant
            j <= zeros,
            padded@ == message@ + seq![0x80u8] + Seq::new(j as nat, |k: int| 0u8),
        decreases zeros - j,
    {
        padded.push(0u8);
        proof {
            assert(message@ + seq![0x80u8] + Seq::new((j + 1) as nat, |k: int| 0u8) =~= (message@
                + seq![0x80u8] + Seq::new(j as nat, |k: int| 0u8)).push(0u8));
        }
        j += 1;
    }

    let bit_len: u64 = (message.len() as u64) * 8;
    proof {
        lemma_small_mod((message@.len() * 8) as nat, 0x1_0000_0000_0000_0000nat);
        assert(bit_len == (message@.len() * 8) % 0x1_0000_0000_0000_0000);
    }
    padded.push(be_byte64(bit_len, 56));
    padded.push(be_byte64(bit_len, 48));
    padded.push(be_byte64(bit_len, 40));
    padded.push(be_byte64(bit_len, 32));
    padded.push(be_byte64(bit_len, 24));
    padded.push(be_byte64(bit_len, 16));
    padded.push(be_byte64(bit_len, 8));
    padded.push(be_byte64(bit_len, 0));
    assert(padded@ =~= pad(message@));
    padded
}

/// Derives the 80-word schedule of block `bi` of the padded message.
#[verifier::loop_isolation(false)]
fn build_schedule(padded: &Vec<u8>, bi: usize) -> (words: Vec<u32>)
    requires
        64 * (bi + 1) <= padded@.len(),
        padded@.len() <= usize::MAX,
    ensures
        words@.len() == 80,
        forall|j: int| 0 <= j < 80 ==> words@[j] == sched(block_of(padded@, bi as int), j),
{
    let ghost blk = block_of(padded@, bi as int);
    let base: usize = bi * 64;
    let mut words: Vec<u32> = Vec::new();
    let mut i: usize = 0;
    while i < 16
        invariant
            i <= 16,
            words@.len() == i,
            forall|j: int| 0 <= j < i ==> words@[j] == sched(blk, j),
        decreases 16 - i,
    {
        let w = be_word_exec(
            padded[base + 4 * i],
            padded[base + 4 * i + 1],
            padded[base + 4 * i + 2],
            padded[base + 4 * i + 3],
        );
        proof {
            assert(blk[4 * (i as int)] == padded@[64 * (bi as int) + 4 * (i as int)]);
            assert(blk[4 * (i as int) + 1] == padded@[64 * (bi as int) + 4 * (i as int) + 1]);
            assert(blk[4 * (i as int) + 2] == padded@[64 * (bi as int) + 4 * (i as int) + 2]);
            assert(blk[4 * (i as int) + 3] == padded@[64 * (bi as int) + 4 * (i as int) + 3]);
        }
        assert(w == sched(blk, i as int));
        words.push(w);
        i += 1;
    }
    while i < 80
        invariant
            16 <= i <= 80,
            words@.len() == i,
            forall|j: int| 0 <= j < i ==> words@[j] == sched(blk, j),
        decreases 80 - i,
    {
        let x = ((words[i - 3] ^ words[i - 8]) ^ words[i - 14]) ^ words[i - 16];
        let w = rotate_left_u32(x, 1);
        proof {
            assert(words@[i - 3] == sched(blk, i as int - 3));
            assert(words@[i - 8] == sched(blk, i as int - 8));
            assert(words@[i - 14] == sched(blk, i as int - 14));
            assert(words@[i - 16] == sched(blk, i as int - 16));
        }
        assert(w == sched(blk, i as int));
        words.push(w);
        i += 1;
    }
    words
}

/// Runs the 80-round pipeline of one block and accumulates the result into
/// the running hash state.
#[verifier::loop_isolation(false)]
fn compress_block(h0: u32, h1: u32, h2: u32, h3: u32, h4: u32, padded: &Vec<u8>, bi: usize) -> (r: (
    u32,
    u32,
    u32,
    u32,
    u32,
))
    requires
        64 * (bi + 1) <= padded@.len(),
        padded@.len() <= usize::MAX,
    ensures
        r == compress((h0, h1, h2, h3, h4), block_of(padded@, bi as int)),
{
    let ghost blk = block_of(padded@, bi as int);
    let words = build_schedule(padded, bi);
    let mut a = h0;
    let mut b = h1;
    let mut c = h2;
    let mut d = h3;
    let mut e = h4;
    let mut i: usize = 0;
    while i < 80
        invariant
            i <= 80,
            (a, b, c, d, e) == rounds(blk, (h0, h1, h2, h3, h4), i as int),
        decreases 80 - i,
    {
        let (f, k): (u32, u32) = if i < 20 {
            ((b & c) | ((!b) & d), 0x5A827999)
        } else if i < 40 {
            ((b ^ c) ^ d, 0x6ED9EBA1)
        } else if i < 60 {
            (((b & c) | (b & d)) | (c & d), 0x8F1BBCDC)
        } else {
            ((b ^ c) ^ d, 0xCA62C1D6)
        };
        let temp = rotate_left_u32(a, 5).wrapping_add(f).wrapping_add(e).wrapping_add(k)
            .wrapping_add(words[i]);
        e = d;
        d = c;
        c = rotate_left_u32(b, 30);
        b = a;
        a = temp;
        i += 1;
    }
    (
        h0.wrapping_add(a),
        h1.wrapping_add(b),
        h2.wrapping_add(c),
        h3.wrapping_add(d),
        h4.wrapping_add(e),
    )
}

/// Computes the SHA-1 digest of an arbitrary byte sequence.
///
/// The digest is total: the `Err` case never occurs, and the `Ok` value is
/// exactly the 20 bytes the mathematical model assigns to the input. The two
/// preconditions only keep the padded buffer and the bit length within the
/// machine's integer ranges.
#[verifier::loop_isolation(false)]
pub fn sha1(message: &[u8]) -> (r: Result<[u8; 20], ComputationError>)
    requires
        8 * message@.len() <= u64::MAX,
        message@.len() + 72 <= usize::MAX,
    ensures
        r matches Ok(d) && d@ == spec_sha1(message@),
{
    let padded = pad_message(message);
    proof {
        lemma_padding_correct(message@);
        lemma_fundamental_div_mod(padded@.len() as int, 64);
    }
    let num_blocks: usize = padded.len() / 64;
    assert(padded@.len() == 64 * num_blocks);

    let mut h0: u32 = 0x67452301;
    let mut h1: u32 = 0xEFCDAB89;
    let mut h2: u32 = 0x98BADCFE;
    let mut h3: u32 = 0x10325476;
    let mut h4: u32 = 0xC3D2E1F0;

    let mut bi: usize = 0;
    while bi < num_blocks
        invariant
            bi <= num_blocks,
            (h0, h1, h2, h3, h4) == process_blocks(padded@, bi as int),
        decreases num_blocks - bi,
    {
        let next = compress_block(h0, h1, h2, h3, h4, &padded, bi);
        h0 = next.0;
        h1 = next.1;
        h2 = next.2;
        h3 = next.3;
        h4 = next.4;
        bi += 1;
    }

    let out = state_to_digest(h0, h1, h2, h3, h4);
    Ok(out)
}

/// Serializes the five accumulators big-endian into the 20-byte digest.
fn state_to_digest(h0: u32, h1: u32, h2: u32, h3: u32, h4: u32) -> (out: [u8; 20])
    ensures
        out@ == be_bytes_u32(h0) + be_bytes_u32(h1) + be_bytes_u32(h2) + be_bytes_u32(h3)
            + be_bytes_u32(h4),
{
    let mut out: [u8; 20] = [0u8; 20];
    out[0] = be_byte32(h0, 24);
    out[1] = be_byte32(h0, 16);
    out[2] = be_byte32(h0, 8);
    out[3] = be_byte32(h0, 0);
    out[4] = be_byte32(h1, 24);
    out[5] = be_byte32(h1, 16);
    out[6] = be_byte32(h1, 8);
    out[7] = be_byte32(h1, 0);
    out[8] = be_byte32(h2, 24);
    out[9] = be_byte32(h2, 16);
    out[10] = be_byte32(h2, 8);
    out[11] = be_byte32(h2, 0);
    out[12] = be_byte32(h3, 24);
    out[13] = be_byte32(h3, 16);
    out[14] = be_byte32(h3, 8);
    out[15] = be_byte32(h3, 0);
    out[16] = be_byte32(h4, 24);
    out[17] = be_byte32(h4, 16);
    out[18] = be_byte32(h4, 8);
    out[19] = be_byte32(h4, 0);
    assert(out@ =~= be_bytes_u32(h0) + be_bytes_u32(h1) + be_bytes_u32(h2) + be_bytes_u32(h3)
        + be_bytes_u32(h4));
    out
}

} // verus!
