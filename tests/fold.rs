use bench_hash::fold::{
    xor_hash128, xor_hash128_avx2, xor_hash128_neon, xor_hash128_sse2, xor_hash64,
};

/// Word-by-word 64-bit fold with a zero-padded last word.
fn reference64(data: &[u8]) -> u64 {
    let mut acc = 0u64;
    for chunk in data.chunks(8) {
        let mut word = [0u8; 8];
        word[..chunk.len()].copy_from_slice(chunk);
        acc ^= u64::from_le_bytes(word);
    }
    acc
}

/// Byte-position 128-bit fold: output byte `j` is the XOR of the input bytes at
/// positions congruent to `j` modulo 16.
fn reference128(data: &[u8]) -> u128 {
    let mut out = [0u8; 16];
    for (p, b) in data.iter().enumerate() {
        out[p % 16] ^= *b;
    }
    u128::from_le_bytes(out)
}

fn sample(len: usize) -> Vec<u8> {
    let mut state = 0x2545_f491_4f6c_dd1du64 ^ len as u64;
    (0..len)
        .map(|_| {
            state ^= state << 13;
            state ^= state >> 7;
            state ^= state << 17;
            (state >> 24) as u8
        })
        .collect()
}

const BOUNDARY_LENGTHS: [usize; 17] = [0, 1, 7, 8, 9, 15, 16, 17, 31, 32, 33, 63, 64, 65, 127, 128, 129];

#[test]
fn empty_input_hashes_to_zero() {
    assert_eq!(xor_hash64(&[]), 0);
    assert_eq!(xor_hash128(&[]), 0);
    assert_eq!(xor_hash128_sse2(&[]), 0);
    assert_eq!(xor_hash128_avx2(&[]), 0);
    assert_eq!(xor_hash128_neon(&[]), 0);
}

#[test]
fn all_ones_words() {
    assert_eq!(xor_hash64(&[0xFF; 8]), 0xFFFF_FFFF_FFFF_FFFF);
    assert_eq!(xor_hash64(&[0xFF; 16]), 0);
}

#[test]
fn repeated_lanes() {
    assert_eq!(xor_hash128(&[0x01; 16]), 0x0101_0101_0101_0101_0101_0101_0101_0101);
    assert_eq!(xor_hash128(&[0x01; 32]), 0);
}

#[test]
fn short_tail_is_little_endian() {
    assert_eq!(xor_hash64(&[0x01, 0x02, 0x03]), 0x0003_0201);
    assert_eq!(xor_hash128(&[0xAB]), 0xAB);
    assert_eq!(xor_hash128_neon(&[0x00, 0xCD]), 0xCD00);
    let mut data = [0u8; 17];
    data[16] = 0x7F;
    data[0] = 0x01;
    assert_eq!(xor_hash128_sse2(&data), 0x7E);
    assert_eq!(xor_hash64(&data), 0x7E);
}

#[test]
fn hash64_matches_word_fold_at_boundaries() {
    for len in BOUNDARY_LENGTHS {
        let data = sample(len);
        assert_eq!(xor_hash64(&data), reference64(&data), "length {len}");
    }
}

#[test]
fn kernels_agree_at_boundaries() {
    for len in BOUNDARY_LENGTHS {
        let data = sample(len);
        let expected = reference128(&data);
        assert_eq!(xor_hash128(&data), expected, "length {len}");
        assert_eq!(xor_hash128_sse2(&data), expected, "length {len}");
        assert_eq!(xor_hash128_avx2(&data), expected, "length {len}");
        assert_eq!(xor_hash128_neon(&data), expected, "length {len}");
    }
}

#[test]
fn kernels_agree_on_unaligned_views() {
    let data = sample(300);
    for start in 0..8 {
        let view = &data[start..start + 257];
        let expected = reference128(view);
        assert_eq!(xor_hash128_sse2(view), expected);
        assert_eq!(xor_hash128_avx2(view), expected);
        assert_eq!(xor_hash128_neon(view), expected);
        assert_eq!(xor_hash64(view), reference64(view));
    }
}

#[test]
fn hashing_twice_gives_the_same_value() {
    let data = sample(1000);
    assert_eq!(xor_hash64(&data), xor_hash64(&data));
    assert_eq!(xor_hash128(&data), xor_hash128(&data));
    let copy = data.clone();
    assert_eq!(xor_hash128(&data), xor_hash128(&copy));
}
