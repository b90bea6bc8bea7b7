//! XOR fold hashes: a byte buffer reduced to one 64-bit or 128-bit word by
//! exclusive-or of its little-endian words, the last one zero-padded.

use vstd::prelude::*;

verus! {

/// Byte `p` of `s`, or zero past either end.
pub open spec fn byte_at(s: Seq<u8>, p: int) -> u8 {
    if 0 <= p < s.len() {
        s[p]
    } else {
        0
    }
}

/// Little-endian value of the `n` bytes of `s` that start at `p` (zero past the end).
pub open spec fn le64(s: Seq<u8>, p: int, n: nat) -> u64
    decreases n,
{
    if n == 0 {
        0
    } else {
        (byte_at(s, p) as u64) | (le64(s, p + 1, (n - 1) as nat) << 8u64)
    }
}

/// Word `k` of `s` read as 8 little-endian bytes.
pub open spec fn word64(s: Seq<u8>, k: nat) -> u64 {
    le64(s, (8 * k) as int, 8)
}

/// Exclusive-or of the first `n` words of `s`.
pub open spec fn fold64_words(s: Seq<u8>, n: nat) -> u64
    decreases n,
{
    if n == 0 {
        0
    } else {
        fold64_words(s, (n - 1) as nat) ^ word64(s, (n - 1) as nat)
    }
}

/// Number of 8-byte words in `s`, the partial last one included.
pub open spec fn words64(s: Seq<u8>) -> nat {
    ((s.len() + 7) / 8) as nat
}

/// The 64-bit fold hash of `s`: every little-endian 8-byte word exclusive-or'ed
/// together, the tail zero-padded to a full word.
pub open spec fn fold64(s: Seq<u8>) -> u64 {
    fold64_words(s, words64(s))
}

proof fn lemma_le64_zero(s: Seq<u8>, p: int, n: nat)
    requires
        p >= s.len(),
    ensures
        le64(s, p, n) == 0,
    decreases n,
{
    if n > 0 {
        lemma_le64_zero(s, p + 1, (n - 1) as nat);
        assert(((0u8 as u64) | (0u64 << 8u64)) == 0u64) by (bit_vector);
    }
}

/// Reading past the end of `s` adds only zero bytes.
proof fn lemma_le64_pad(s: Seq<u8>, p: int, n: nat, m: nat)
    requires
        0 <= p,
        p + n == s.len(),
        n <= m,
    ensures
        le64(s, p, n) == le64(s, p, m),
    decreases n,
{
    if n == 0 {
        lemma_le64_zero(s, p, m);
    } else {
        lemma_le64_pad(s, p + 1, (n - 1) as nat, (m - 1) as nat);
    }
}

proof fn lemma_xor64_four(
    a0: u64,
    a1: u64,
    a2: u64,
    a3: u64,
    w0: u64,
    w1: u64,
    w2: u64,
    w3: u64,
)
    by (bit_vector)
    ensures
        (a0 ^ w0) ^ (a1 ^ w1) ^ (a2 ^ w2) ^ (a3 ^ w3) == (a0 ^ a1 ^ a2 ^ a3) ^ w0 ^ w1 ^ w2 ^ w3,
        (a0 ^ a1) ^ (a2 ^ a3) == a0 ^ a1 ^ a2 ^ a3,
        0u64 ^ 0u64 ^ 0u64 ^ 0u64 == 0u64,
{
}

/// Reads the `n` bytes of `data` that start at `at` as a little-endian word.
fn load_le64(data: &[u8], at: usize, n: usize) -> (r: u64)
    requires
        at + n <= data@.len(),
        n <= 8,
    ensures
        r == le64(data@, at as int, n as nat),
{
    let len = data.len();
    let mut r: u64 = 0;
    let mut k: usize = n;
    while k > 0
        invariant
            k <= n,
            len == data@.len(),
            at + n <= len,
            r == le64(data@, at + k, (n - k) as nat),
        decreases k,
    {
        k = k - 1;
        r = (data[at + k] as u64) | (r << 8u64);
    }
    r
}

/// Extremely simple 64-bit XOR fold hash, a lightweight upper bound for
/// throughput experiments: four independent accumulators over 32-byte blocks,
/// then single words, then the zero-padded tail.
pub fn xor_hash64(data: &[u8]) -> (r: u64)
    ensures
        r == fold64(data@),
{
    let len = data.len();
    let mut i: usize = 0;
    let ghost mut nw: nat = 0;
    let mut acc0: u64 = 0;
    let mut acc1: u64 = 0;
    let mut acc2: u64 = 0;
    let mut acc3: u64 = 0;
    proof {
        lemma_xor64_four(0, 0, 0, 0, 0, 0, 0, 0);
    }
    while len - i >= 32
        invariant
            len == data@.len(),
            i <= len,
            i == 8 * nw,
            acc0 ^ acc1 ^ acc2 ^ acc3 == fold64_words(data@, nw),
        decreases len - i,
    {
        let w0 = load_le64(data, i, 8);
        let w1 = load_le64(data, i + 8, 8);
        let w2 = load_le64(data, i + 16, 8);
        let w3 = load_le64(data, i + 24, 8);
        proof {
            lemma_xor64_four(acc0, acc1, acc2, acc3, w0, w1, w2, w3);
            assert(w0 == word64(data@, nw));
            assert(w1 == word64(data@, nw + 1));
            assert(w2 == word64(data@, nw + 2));
            assert(w3 == word64(data@, nw + 3));
            reveal_with_fuel(fold64_words, 5);
        }
        acc0 = acc0 ^ w0;
        acc1 = acc1 ^ w1;
        acc2 = acc2 ^ w2;
        acc3 = acc3 ^ w3;
        i = i + 32;
        proof {
            nw = nw + 4;
        }
    }
    proof {
        lemma_xor64_four(acc0, acc1, acc2, acc3, 0, 0, 0, 0);
    }
    let mut acc = (acc0 ^ acc1) ^ (acc2 ^ acc3);
    while len - i >= 8
        invariant
            len == data@.len(),
            i <= len,
            i == 8 * nw,
            acc == fold64_words(data@, nw),
        decreases len - i,
    {
        let w = load_le64(data, i, 8);
        assert(w == word64(data@, nw));
        acc = acc ^ w;
        i = i + 8;
        proof {
            nw = nw + 1;
        }
    }
    if i < len {
        let w = load_le64(data, i, len - i);
        proof {
            lemma_le64_pad(data@, i as int, (len - i) as nat, 8);
            assert(w == word64(data@, nw));
        }
        acc = acc ^ w;
        proof {
            nw = nw + 1;
        }
    }
    assert(nw == words64(data@));
    acc
}

/// Little-endian value of the `n` bytes of `s` that start at `p` (zero past the end).
pub open spec fn le128(s: Seq<u8>, p: int, n: nat) -> u128
    decreases n,
{
    if n == 0 {
        0
    } else {
        (byte_at(s, p) as u128) | (le128(s, p + 1, (n - 1) as nat) << 8u128)
    }
}

/// Lane `k` of `s` read as 16 little-endian bytes.
pub open spec fn word128(s: Seq<u8>, k: nat) -> u128 {
    le128(s, (16 * k) as int, 16)
}

/// Exclusive-or of the first `n` lanes of `s`.
pub open spec fn fold128_words(s: Seq<u8>, n: nat) -> u128
    decreases n,
{
    if n == 0 {
        0
    } else {
        fold128_words(s, (n - 1) as nat) ^ word128(s, (n - 1) as nat)
    }
}

/// Number of 16-byte lanes in `s`, the partial last one included.
pub open spec fn words128(s: Seq<u8>) -> nat {
    ((s.len() + 15) / 16) as nat
}

/// The 128-bit fold hash of `s`: every little-endian 16-byte lane exclusive-or'ed
/// together, the tail zero-padded to a full lane.
pub open spec fn fold128(s: Seq<u8>) -> u128 {
    fold128_words(s, words128(s))
}

proof fn lemma_le128_zero(s: Seq<u8>, p: int, n: nat)
    requires
        p >= s.len(),
    ensures
        le128(s, p, n) == 0,
    decreases n,
{
    if n > 0 {
        lemma_le128_zero(s, p + 1, (n - 1) as nat);
        assert(((0u8 as u128) | (0u128 << 8u128)) == 0u128) by (bit_vector);
    }
}

/// Reading past the end of `s` adds only zero bytes.
proof fn lemma_le128_pad(s: Seq<u8>, p: int, n: nat, m: nat)
    requires
        0 <= p,
        p + n == s.len(),
        n <= m,
    ensures
        le128(s, p, n) == le128(s, p, m),
    decreases n,
{
    if n == 0 {
        lemma_le128_zero(s, p, m);
    } else {
        lemma_le128_pad(s, p + 1, (n - 1) as nat, (m - 1) as nat);
    }
}

proof fn lemma_xor128_four(
    a0: u128,
    a1: u128,
    a2: u128,
    a3: u128,
    w0: u128,
    w1: u128,
    w2: u128,
    w3: u128,
)
    by (bit_vector)
    ensures
        (a0 ^ w0) ^ (a1 ^ w1) ^ (a2 ^ w2) ^ (a3 ^ w3) == (a0 ^ a1 ^ a2 ^ a3) ^ w0 ^ w1 ^ w2 ^ w3,
        (a0 ^ a1) ^ (a2 ^ a3) == a0 ^ a1 ^ a2 ^ a3,
        (a0 ^ w0) ^ (a1 ^ w1) == (a0 ^ a1) ^ w0 ^ w1,
        0u128 ^ 0u128 ^ 0u128 ^ 0u128 == 0u128,
{
}

proof fn lemma_xor128_eight(l: [u128; 4], h: [u128; 4], w: [u128; 8])
    ensures
        (l[0] ^ w[0]) ^ (h[0] ^ w[1]) ^ (l[1] ^ w[2]) ^ (h[1] ^ w[3]) ^ (l[2] ^ w[4]) ^ (h[2]
            ^ w[5]) ^ (l[3] ^ w[6]) ^ (h[3] ^ w[7]) == (l[0] ^ h[0] ^ l[1] ^ h[1] ^ l[2] ^ h[2]
            ^ l[3] ^ h[3]) ^ w[0] ^ w[1] ^ w[2] ^ w[3] ^ w[4] ^ w[5] ^ w[6] ^ w[7],
        ((l[0] ^ l[1]) ^ (l[2] ^ l[3])) ^ ((h[0] ^ h[1]) ^ (h[2] ^ h[3])) == l[0] ^ h[0] ^ l[1]
            ^ h[1] ^ l[2] ^ h[2] ^ l[3] ^ h[3],
{
    let (l0, l1, l2, l3) = (l[0], l[1], l[2], l[3]);
    let (h0, h1, h2, h3) = (h[0], h[1], h[2], h[3]);
    let (w0, w1, w2, w3, w4, w5, w6, w7) = (w[0], w[1], w[2], w[3], w[4], w[5], w[6], w[7]);
    assert((l0 ^ w0) ^ (h0 ^ w1) ^ (l1 ^ w2) ^ (h1 ^ w3) ^ (l2 ^ w4) ^ (h2 ^ w5) ^ (l3 ^ w6) ^ (
    h3 ^ w7) == (l0 ^ h0 ^ l1 ^ h1 ^ l2 ^ h2 ^ l3 ^ h3) ^ w0 ^ w1 ^ w2 ^ w3 ^ w4 ^ w5 ^ w6 ^ w7)
        by (bit_vector);
    assert(((l0 ^ l1) ^ (l2 ^ l3)) ^ ((h0 ^ h1) ^ (h2 ^ h3)) == l0 ^ h0 ^ l1 ^ h1 ^ l2 ^ h2 ^ l3
        ^ h3) by (bit_vector);
}

/// Reads the `n` bytes of `data` that start at `at` as a little-endian lane.
fn load_le128(data: &[u8], at: usize, n: usize) -> (r: u128)
    requires
        at + n <= data@.len(),
        n <= 16,
    ensures
        r == le128(data@, at as int, n as nat),
{
    let len = data.len();
    let mut r: u128 = 0;
    let mut k: usize = n;
    while k > 0
        invariant
            k <= n,
            len == data@.len(),
            at + n <= len,
            r == le128(data@, at + k, (n - k) as nat),
        decreases k,
    {
        k = k - 1;
        r = (data[at + k] as u128) | (r << 8u128);
    }
    r
}

/// Finishes a 128-bit fold from lane `nw` on: whole 16-byte lanes, then the
/// zero-padded tail.
fn fold128_rest(data: &[u8], start: usize, acc_in: u128, Ghost(nw0): Ghost<nat>) -> (r: u128)
    requires
        start <= data@.len(),
        start == 16 * nw0,
        acc_in == fold128_words(data@, nw0),
    ensures
        r == fold128(data@),
{
    let len = data.len();
    let mut i: usize = start;
    let mut acc: u128 = acc_in;
    let ghost mut nw: nat = nw0;
    while len - i >= 16
        invariant
            len == data@.len(),
            i <= len,
            i == 16 * nw,
            acc == fold128_words(data@, nw),
        decreases len - i,
    {
        let w = load_le128(data, i, 16);
        assert(w == word128(data@, nw));
        acc = acc ^ w;
        i = i + 16;
        proof {
            nw = nw + 1;
        }
    }
    if i < len {
        let w = load_le128(data, i, len - i);
        proof {
            lemma_le128_pad(data@, i as int, (len - i) as nat, 16);
            assert(w == word128(data@, nw));
        }
        acc = acc ^ w;
        proof {
            nw = nw + 1;
        }
    }
    assert(nw == words128(data@));
    acc
}

/// 128-bit XOR fold hash with four independent 16-byte accumulators over
/// 64-byte blocks, the layout of a 128-bit vector unit.
pub fn xor_hash128_sse2(data: &[u8]) -> (r: u128)
    ensures
        r == fold128(data@),
{
    let len = data.len();
    let mut i: usize = 0;
    let ghost mut nw: nat = 0;
    let mut acc0: u128 = 0;
    let mut acc1: u128 = 0;
    let mut acc2: u128 = 0;
    let mut acc3: u128 = 0;
    proof {
        lemma_xor128_four(0, 0, 0, 0, 0, 0, 0, 0);
    }
    while len - i >= 64
        invariant
            len == data@.len(),
            i <= len,
            i == 16 * nw,
            acc0 ^ acc1 ^ acc2 ^ acc3 == fold128_words(data@, nw),
        decreases len - i,
    {
        let w0 = load_le128(data, i, 16);
        let w1 = load_le128(data, i + 16, 16);
        let w2 = load_le128(data, i + 32, 16);
        let w3 = load_le128(data, i + 48, 16);
        proof {
            lemma_xor128_four(acc0, acc1, acc2, acc3, w0, w1, w2, w3);
            assert(w0 == word128(data@, nw));
            assert(w1 == word128(data@, nw + 1));
            assert(w2 == word128(data@, nw + 2));
            assert(w3 == word128(data@, nw + 3));
            reveal_with_fuel(fold128_words, 5);
        }
        acc0 = acc0 ^ w0;
        acc1 = acc1 ^ w1;
        acc2 = acc2 ^ w2;
        acc3 = acc3 ^ w3;
        i = i + 64;
        proof {
            nw = nw + 4;
        }
    }
    proof {
        lemma_xor128_four(acc0, acc1, acc2, acc3, 0, 0, 0, 0);
    }
    let acc = (acc0 ^ acc1) ^ (acc2 ^ acc3);
    fold128_rest(data, i, acc, Ghost(nw))
}

/// 128-bit XOR fold hash with four independent 32-byte accumulators over
/// 128-byte blocks, the layout of a 256-bit vector unit. Each accumulator is a
/// low and a high 16-byte half; the halves are folded together before any lane
/// that is not part of a whole 32-byte block.
pub fn xor_hash128_avx2(data: &[u8]) -> (r: u128)
    ensures
        r == fold128(data@),
{
    let len = data.len();
    let mut i: usize = 0;
    let ghost mut nw: nat = 0;
    let mut lo0: u128 = 0;
    let mut hi0: u128 = 0;
    let mut lo1: u128 = 0;
    let mut hi1: u128 = 0;
    let mut lo2: u128 = 0;
    let mut hi2: u128 = 0;
    let mut lo3: u128 = 0;
    let mut hi3: u128 = 0;
    proof {
        assert(0u128 ^ 0u128 ^ 0u128 ^ 0u128 ^ 0u128 ^ 0u128 ^ 0u128 ^ 0u128 == 0u128)
            by (bit_vector);
    }
    while len - i >= 128
        invariant
            len == data@.len(),
            i <= len,
            i == 16 * nw,
            lo0 ^ hi0 ^ lo1 ^ hi1 ^ lo2 ^ hi2 ^ lo3 ^ hi3 == fold128_words(data@, nw),
        decreases len - i,
    {
        let w0 = load_le128(data, i, 16);
        let w1 = load_le128(data, i + 16, 16);
        let w2 = load_le128(data, i + 32, 16);
        let w3 = load_le128(data, i + 48, 16);
        let w4 = load_le128(data, i + 64, 16);
        let w5 = load_le128(data, i + 80, 16);
        let w6 = load_le128(data, i + 96, 16);
        let w7 = load_le128(data, i + 112, 16);
        proof {
            lemma_xor128_eight(
                [lo0, lo1, lo2, lo3],
                [hi0, hi1, hi2, hi3],
                [w0, w1, w2, w3, w4, w5, w6, w7],
            );
            assert(w0 == word128(data@, nw));
            assert(w1 == word128(data@, nw + 1));
            assert(w2 == word128(data@, nw + 2));
            assert(w3 == word128(data@, nw + 3));
            assert(w4 == word128(data@, nw + 4));
            assert(w5 == word128(data@, nw + 5));
            assert(w6 == word128(data@, nw + 6));
            assert(w7 == word128(data@, nw + 7));
            reveal_with_fuel(fold128_words, 9);
        }
        lo0 = lo0 ^ w0;
        hi0 = hi0 ^ w1;
        lo1 = lo1 ^ w2;
        hi1 = hi1 ^ w3;
        lo2 = lo2 ^ w4;
        hi2 = hi2 ^ w5;
        lo3 = lo3 ^ w6;
        hi3 = hi3 ^ w7;
        i = i + 128;
        proof {
            nw = nw + 8;
        }
    }
    proof {
        lemma_xor128_eight(
            [lo0, lo1, lo2, lo3],
            [hi0, hi1, hi2, hi3],
            [0, 0, 0, 0, 0, 0, 0, 0],
        );
    }
    let mut lo = (lo0 ^ lo1) ^ (lo2 ^ lo3);
    let mut hi = (hi0 ^ hi1) ^ (hi2 ^ hi3);
    while len - i >= 32
        invariant
            len == data@.len(),
            i <= len,
            i == 16 * nw,
            lo ^ hi == fold128_words(data@, nw),
        decreases len - i,
    {
        let w0 = load_le128(data, i, 16);
        let w1 = load_le128(data, i + 16, 16);
        proof {
            lemma_xor128_four(lo, hi, 0, 0, w0, w1, 0, 0);
            assert(w0 == word128(data@, nw));
            assert(w1 == word128(data@, nw + 1));
            reveal_with_fuel(fold128_words, 3);
        }
        lo = lo ^ w0;
        hi = hi ^ w1;
        i = i + 32;
        proof {
            nw = nw + 2;
        }
    }
    let acc = lo ^ hi;
    fold128_rest(data, i, acc, Ghost(nw))
}

/// Byte `j` of `x`, byte 0 being the least significant.
pub open spec fn byte_of(x: u128, j: int) -> u8 {
    ((x >> ((8 * j) as u128)) & 0xffu128) as u8
}

/// Exclusive-or of the bytes of `s` at positions `16 * k + j` for every `k < n`
/// (zero past the end): byte `j` of a fold of `n` lanes.
pub open spec fn column(s: Seq<u8>, j: int, n: nat) -> u8
    decreases n,
{
    if n == 0 {
        0
    } else {
        column(s, j, (n - 1) as nat) ^ byte_at(s, 16 * (n - 1) + j)
    }
}

proof fn lemma_byte_xor(x: u128, y: u128, k: u128)
    by (bit_vector)
    requires
        k < 128,
    ensures
        (((x ^ y) >> k) & 0xff) as u8 == (((x >> k) & 0xff) as u8) ^ (((y >> k) & 0xff) as u8),
        ((0u128 >> k) & 0xff) as u8 == 0u8,
{
}

proof fn lemma_byte_shift(b: u8, x: u128, k: u128, m: u128)
    by (bit_vector)
    requires
        k <= 112,
        m == k + 8,
    ensures
        ((((b as u128) | (x << 8u128)) >> 0u128) & 0xff) as u8 == b,
        ((((b as u128) | (x << 8u128)) >> m) & 0xff) as u8 == ((x >> k) & 0xff) as u8,
{
}

proof fn lemma_xor8_four(a0: u8, a1: u8, a2: u8, a3: u8, w0: u8, w1: u8, w2: u8, w3: u8)
    by (bit_vector)
    ensures
        (a0 ^ w0) ^ (a1 ^ w1) ^ (a2 ^ w2) ^ (a3 ^ w3) == (a0 ^ a1 ^ a2 ^ a3) ^ w0 ^ w1 ^ w2 ^ w3,
        (a0 ^ a1) ^ (a2 ^ a3) == a0 ^ a1 ^ a2 ^ a3,
        a0 ^ 0u8 == a0,
        0u8 ^ 0u8 ^ 0u8 ^ 0u8 == 0u8,
{
}

/// Byte `j` of a little-endian read is the byte read at that offset.
proof fn lemma_le128_byte(s: Seq<u8>, p: int, n: nat, j: int)
    requires
        n <= 16,
        0 <= j < 16,
    ensures
        byte_of(le128(s, p, n), j) == (if j < n {
            byte_at(s, p + j)
        } else {
            0u8
        }),
    decreases n,
{
    if n == 0 {
        lemma_byte_xor(0, 0, (8 * j) as u128);
    } else {
        let b = byte_at(s, p);
        let r = le128(s, p + 1, (n - 1) as nat);
        if j == 0 {
            lemma_byte_shift(b, r, 0, 8);
        } else {
            lemma_le128_byte(s, p + 1, (n - 1) as nat, j - 1);
            lemma_byte_shift(b, r, (8 * (j - 1)) as u128, (8 * j) as u128);
        }
    }
}

/// Byte `j` of a fold of `n` lanes is the exclusive-or of byte `j` of each lane.
proof fn lemma_fold128_byte(s: Seq<u8>, j: int, n: nat)
    requires
        0 <= j < 16,
    ensures
        byte_of(fold128_words(s, n), j) == column(s, j, n),
    decreases n,
{
    if n == 0 {
        lemma_byte_xor(0, 0, (8 * j) as u128);
    } else {
        lemma_fold128_byte(s, j, (n - 1) as nat);
        lemma_le128_byte(s, (16 * (n - 1)) as int, 16, j);
        lemma_byte_xor(fold128_words(s, (n - 1) as nat), word128(s, (n - 1) as nat), (8 * j) as u128);
    }
}

/// Two 128-bit words with the same 16 bytes are equal.
proof fn lemma_bytes_eq(x: u128, y: u128)
    requires
        forall|j: int| 0 <= j < 16 ==> byte_of(x, j) == byte_of(y, j),
    ensures
        x == y,
{
    assert(byte_of(x, 0) == byte_of(y, 0));
    assert(byte_of(x, 1) == byte_of(y, 1));
    assert(byte_of(x, 2) == byte_of(y, 2));
    assert(byte_of(x, 3) == byte_of(y, 3));
    assert(byte_of(x, 4) == byte_of(y, 4));
    assert(byte_of(x, 5) == byte_of(y, 5));
    assert(byte_of(x, 6) == byte_of(y, 6));
    assert(byte_of(x, 7) == byte_of(y, 7));
    assert(byte_of(x, 8) == byte_of(y, 8));
    assert(byte_of(x, 9) == byte_of(y, 9));
    assert(byte_of(x, 10) == byte_of(y, 10));
    assert(byte_of(x, 11) == byte_of(y, 11));
    assert(byte_of(x, 12) == byte_of(y, 12));
    assert(byte_of(x, 13) == byte_of(y, 13));
    assert(byte_of(x, 14) == byte_of(y, 14));
    assert(byte_of(x, 15) == byte_of(y, 15));
    assert(x == y) by (bit_vector)
        requires
            ((x >> 0u128) & 0xff) as u8 == ((y >> 0u128) & 0xff) as u8,
            ((x >> 8u128) & 0xff) as u8 == ((y >> 8u128) & 0xff) as u8,
            ((x >> 16u128) & 0xff) as u8 == ((y >> 16u128) & 0xff) as u8,
            ((x >> 24u128) & 0xff) as u8 == ((y >> 24u128) & 0xff) as u8,
            ((x >> 32u128) & 0xff) as u8 == ((y >> 32u128) & 0xff) as u8,
            ((x >> 40u128) & 0xff) as u8 == ((y >> 40u128) & 0xff) as u8,
            ((x >> 48u128) & 0xff) as u8 == ((y >> 48u128) & 0xff) as u8,
            ((x >> 56u128) & 0xff) as u8 == ((y >> 56u128) & 0xff) as u8,
            ((x >> 64u128) & 0xff) as u8 == ((y >> 64u128) & 0xff) as u8,
            ((x >> 72u128) & 0xff) as u8 == ((y >> 72u128) & 0xff) as u8,
            ((x >> 80u128) & 0xff) as u8 == ((y >> 80u128) & 0xff) as u8,
            ((x >> 88u128) & 0xff) as u8 == ((y >> 88u128) & 0xff) as u8,
            ((x >> 96u128) & 0xff) as u8 == ((y >> 96u128) & 0xff) as u8,
            ((x >> 104u128) & 0xff) as u8 == ((y >> 104u128) & 0xff) as u8,
            ((x >> 112u128) & 0xff) as u8 == ((y >> 112u128) & 0xff) as u8,
            ((x >> 120u128) & 0xff) as u8 == ((y >> 120u128) & 0xff) as u8,
    ;
}

/// Byte `j` of the 128-bit fold hash of `s` is the exclusive-or of every byte of
/// `s` whose position is `j` modulo 16, the tail zero-padded.
pub proof fn lemma_fold128_columns(s: Seq<u8>)
    ensures
        forall|j: int| 0 <= j < 16 ==> byte_of(fold128(s), j) == column(s, j, words128(s)),
{
    assert forall|j: int| 0 <= j < 16 implies byte_of(fold128(s), j) == column(
        s,
        j,
        words128(s),
    ) by {
        lemma_fold128_byte(s, j, words128(s));
    }
}

/// Exclusive-or of the 16 bytes of `data` at `at` into the byte lane `acc`.
fn xor_lane(acc: &mut [u8; 16], data: &[u8], at: usize)
    requires
        at + 16 <= data@.len(),
    ensures
        forall|j: int| 0 <= j < 16 ==> final(acc)@[j] == old(acc)@[j] ^ data@[at + j],
{
    let len = data.len();
    let mut j: usize = 0;
    while j < 16
        invariant
            j <= 16,
            len == data@.len(),
            at + 16 <= len,
            forall|q: int| 0 <= q < j ==> acc@[q] == old(acc)@[q] ^ data@[at + q],
            forall|q: int| j <= q < 16 ==> acc@[q] == old(acc)@[q],
        decreases 16 - j,
    {
        let v = acc[j] ^ data[at + j];
        acc[j] = v;
        j = j + 1;
    }
}

/// Exclusive-or of the byte lane `other` into the byte lane `acc`.
fn xor_lanes(acc: &mut [u8; 16], other: &[u8; 16])
    ensures
        forall|j: int| 0 <= j < 16 ==> final(acc)@[j] == old(acc)@[j] ^ other@[j],
{
    let mut j: usize = 0;
    while j < 16
        invariant
            j <= 16,
            forall|q: int| 0 <= q < j ==> acc@[q] == old(acc)@[q] ^ other@[q],
            forall|q: int| j <= q < 16 ==> acc@[q] == old(acc)@[q],
        decreases 16 - j,
    {
        let v = acc[j] ^ other[j];
        acc[j] = v;
        j = j + 1;
    }
}

/// 128-bit XOR fold hash kept as four independent lanes of 16 bytes, XOR'ed
/// byte by byte over 64-byte blocks, the way a byte-vector unit works.
pub fn xor_hash128_neon(data: &[u8]) -> (r: u128)
    ensures
        r == fold128(data@),
{
    let len = data.len();
    let mut i: usize = 0;
    let ghost mut nw: nat = 0;
    let mut acc0: [u8; 16] = [0u8; 16];
    let mut acc1: [u8; 16] = [0u8; 16];
    let mut acc2: [u8; 16] = [0u8; 16];
    let mut acc3: [u8; 16] = [0u8; 16];
    proof {
        lemma_xor8_four(0, 0, 0, 0, 0, 0, 0, 0);
    }
    while len - i >= 64
        invariant
            len == data@.len(),
            i <= len,
            i == 16 * nw,
            forall|j: int|
                0 <= j < 16 ==> acc0@[j] ^ acc1@[j] ^ acc2@[j] ^ acc3@[j] == #[trigger] column(
                    data@,
                    j,
                    nw,
                ),
        decreases len - i,
    {
        let ghost o0 = acc0@;
        let ghost o1 = acc1@;
        let ghost o2 = acc2@;
        let ghost o3 = acc3@;
        xor_lane(&mut acc0, data, i);
        xor_lane(&mut acc1, data, i + 16);
        xor_lane(&mut acc2, data, i + 32);
        xor_lane(&mut acc3, data, i + 48);
        proof {
            assert forall|j: int| 0 <= j < 16 implies acc0@[j] ^ acc1@[j] ^ acc2@[j] ^ acc3@[j]
                == #[trigger] column(data@, j, nw + 4) by {
                assert(o0[j] ^ o1[j] ^ o2[j] ^ o3[j] == column(data@, j, nw));
                lemma_xor8_four(
                    o0[j],
                    o1[j],
                    o2[j],
                    o3[j],
                    data@[i + j],
                    data@[i + 16 + j],
                    data@[i + 32 + j],
                    data@[i + 48 + j],
                );
                reveal_with_fuel(column, 5);
            }
        }
        i = i + 64;
        proof {
            nw = nw + 4;
        }
    }
    let ghost o0 = acc0@;
    let ghost o1 = acc1@;
    let ghost o2 = acc2@;
    let ghost o3 = acc3@;
    xor_lanes(&mut acc0, &acc1);
    xor_lanes(&mut acc2, &acc3);
    xor_lanes(&mut acc0, &acc2);
    let mut acc = acc0;
    proof {
        assert forall|j: int| 0 <= j < 16 implies acc@[j] == #[trigger] column(data@, j, nw) by {
            assert(o0[j] ^ o1[j] ^ o2[j] ^ o3[j] == column(data@, j, nw));
            lemma_xor8_four(o0[j], o1[j], o2[j], o3[j], 0, 0, 0, 0);
        }
    }
    while len - i >= 16
        invariant
            len == data@.len(),
            i <= len,
            i == 16 * nw,
            forall|j: int| 0 <= j < 16 ==> acc@[j] == #[trigger] column(data@, j, nw),
        decreases len - i,
    {
        let ghost o = acc@;
        xor_lane(&mut acc, data, i);
        proof {
            assert forall|j: int| 0 <= j < 16 implies acc@[j] == #[trigger] column(
                data@,
                j,
                nw + 1,
            ) by {
                assert(o[j] == column(data@, j, nw));
            }
        }
        i = i + 16;
        proof {
            nw = nw + 1;
        }
    }
    let ghost o = acc@;
    let mut idx: usize = 0;
    while idx < len - i
        invariant
            len == data@.len(),
            i <= len,
            len - i < 16,
            i == 16 * nw,
            idx <= len - i,
            forall|j: int| 0 <= j < 16 ==> o[j] == #[trigger] column(data@, j, nw),
            forall|j: int| 0 <= j < idx ==> acc@[j] == o[j] ^ data@[i + j],
            forall|j: int| idx <= j < 16 ==> acc@[j] == o[j],
        decreases len - i - idx,
    {
        let v = acc[idx] ^ data[i + idx];
        acc[idx] = v;
        idx = idx + 1;
    }
    proof {
        assert forall|j: int| 0 <= j < 16 implies acc@[j] == #[trigger] column(
            data@,
            j,
            words128(data@),
        ) by {
            assert(o[j] == column(data@, j, nw));
            if i < len {
                assert(words128(data@) == nw + 1);
                lemma_xor8_four(o[j], 0, 0, 0, 0, 0, 0, 0);
            } else {
                assert(words128(data@) == nw);
            }
        }
    }
    let r = load_le128(acc.as_slice(), 0, 16);
    proof {
        assert forall|j: int| 0 <= j < 16 implies byte_of(r, j) == byte_of(fold128(data@), j) by {
            lemma_le128_byte(acc@, 0, 16, j);
            lemma_fold128_byte(data@, j, words128(data@));
        }
        lemma_bytes_eq(r, fold128(data@));
    }
    r
}

/// The 128-bit fold hash. Every kernel of this module computes the same value
/// (each one's contract says so), so the one with the widest accumulators serves
/// every target.
pub fn xor_hash128(data: &[u8]) -> (r: u128)
    ensures
        r == fold128(data@),
{
    xor_hash128_avx2(data)
}

/// The fold hashes are functions of the bytes alone: two buffers with the same
/// contents hash alike, however often and wherever the hash is taken.
pub proof fn lemma_fold_deterministic(a: Seq<u8>, b: Seq<u8>)
    requires
        a =~= b,
    ensures
        fold64(a) == fold64(b),
        fold128(a) == fold128(b),
{
}

} // verus!
