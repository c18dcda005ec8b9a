use snowflake::{chunk, clamp_ms, encode_token, Counter, Snowflake};

#[test]
fn pack_first_call_fixture() {
    let flake = Snowflake { epoch: 0, node_id: 1, sequence: 0 };
    assert_eq!(flake.as_u64(), 4096);
}

#[test]
fn pack_is_pure() {
    let a = Snowflake { epoch: 123456789, node_id: 9, sequence: 77 };
    let b = Snowflake { epoch: 123456789, node_id: 9, sequence: 77 };
    assert_eq!(a.as_u64(), b.as_u64());
    assert_eq!(a.as_u64(), a.as_u64());
}

#[test]
fn pack_layout() {
    let flake = Snowflake { epoch: 5, node_id: 3, sequence: 7 };
    assert_eq!(flake.as_u64(), (5u64 << 24) | (3u64 << 12) | 7u64);
}

#[test]
fn pack_masks_out_of_range_fields() {
    let node = Snowflake { epoch: 0, node_id: 0xFFFF, sequence: 0 };
    assert_eq!(node.as_u64(), 0x3FFu64 << 12);
    let seq = Snowflake { epoch: 0, node_id: 0, sequence: 0xFFFF };
    assert_eq!(seq.as_u64(), 0xFFF);
    let ms = Snowflake { epoch: u64::MAX, node_id: 0, sequence: 0 };
    assert_eq!(ms.as_u64(), 0xFFFF_FFFF_FF00_0000);
}

#[test]
fn chunk_big_endian() {
    assert_eq!(chunk(4096), vec![0, 0, 0, 0, 0, 0, 0x10, 0]);
    assert_eq!(chunk(0x0102030405060708), vec![1, 2, 3, 4, 5, 6, 7, 8]);
    assert_eq!(chunk(u64::MAX), vec![0xFF; 8]);
}

#[test]
fn golden_token_matches_reference_encoder() {
    let bytes: [u8; 8] = [0, 0, 0, 0, 0, 0, 0x10, 0];
    let reference = base32::encode(base32::Alphabet::Crockford, &bytes);
    assert_eq!(encode_token(4096), reference);
    assert_eq!(encode_token(4096), "0000000000800");
}

#[test]
fn tokens_match_reference_encoder_broadly() {
    let values: [u64; 6] = [0, 1, 4096, 0xDEAD_BEEF, 0x0102030405060708, u64::MAX];
    for v in values {
        let reference = base32::encode(base32::Alphabet::Crockford, &chunk(v));
        assert_eq!(encode_token(v), reference);
    }
}

#[test]
fn token_length_constant() {
    let values: [u64; 7] = [0, 1, 31, 4096, 0xDEAD_BEEF, 1 << 63, u64::MAX];
    for v in values {
        assert_eq!(encode_token(v).len(), 13);
    }
}

#[test]
fn tokens_sort_like_values() {
    let values: [u64; 8] = [0, 1, 2, 31, 32, 4096, 0xDEAD_BEEF, u64::MAX];
    for i in 0..values.len() {
        for j in 0..values.len() {
            if values[i] < values[j] {
                assert!(encode_token(values[i]) < encode_token(values[j]));
            }
        }
    }
}

#[test]
fn counter_back_to_back_same_millisecond() {
    let mut c = Counter { count: 0, updated: 5 };
    let first = c.observe(6);
    let second = c.observe(6);
    assert_eq!(first, (0, 6));
    assert_eq!(second, (1, 6));
    let a = Snowflake { epoch: 6, node_id: 1, sequence: first.0 };
    let b = Snowflake { epoch: 6, node_id: 1, sequence: second.0 };
    assert_eq!(b.as_u64() - a.as_u64(), 1);
}

#[test]
fn counter_fresh_millisecond_resets() {
    let mut c = Counter { count: 41, updated: 100 };
    assert_eq!(c.observe(101), (0, 101));
}

#[test]
fn counter_stale_clock_still_increments() {
    let mut c = Counter { count: 3, updated: 100 };
    assert_eq!(c.observe(90), (4, 100));
}

#[test]
fn counter_pairs_distinct() {
    let mut c = Counter { count: 0, updated: 0 };
    let nows: [u64; 9] = [3, 3, 3, 7, 7, 2, 9, 9, 9];
    let mut pairs: Vec<(u16, u64)> = Vec::new();
    for now in nows {
        pairs.push(c.observe(now));
    }
    for i in 0..pairs.len() {
        for j in 0..pairs.len() {
            if i != j {
                assert_ne!(pairs[i], pairs[j]);
            }
        }
    }
}

#[test]
fn counter_wraps_at_u16() {
    let mut c = Counter { count: 0xFFFF, updated: 10 };
    assert_eq!(c.observe(10), (0, 10));
}

#[test]
fn clamp_negative_reading_to_zero() {
    assert_eq!(clamp_ms(-5), 0);
    assert_eq!(clamp_ms(i64::MIN), 0);
    assert_eq!(clamp_ms(0), 0);
    assert_eq!(clamp_ms(7), 7);
    assert_eq!(clamp_ms(i64::MAX), i64::MAX as u64);
}
