use bloom_filter::positions::hash_positions;

#[test]
fn positions_follow_double_hashing() {
    assert_eq!(hash_positions(10, 3, 7, 5), vec![3, 3, 2, 5, 1]);
    assert_eq!(hash_positions(100, 250, 97, 6), vec![3, 56, 18, 74, 33, 89]);
}

#[test]
fn positions_reduce_the_digests_first() {
    // 23 % 10 = 3 and 47 % 10 = 7, so the third position is (3 + 2 * 7) % 10.
    assert_eq!(hash_positions(23, 47, 10, 4), vec![3, 7, 7, 4]);
}

#[test]
fn no_position_for_zero_hash_count() {
    assert_eq!(hash_positions(10, 3, 7, 0), Vec::<u64>::new());
}

#[test]
fn one_position_uses_the_first_digest_only() {
    assert_eq!(hash_positions(10, 3, 7, 1), vec![3]);
    assert_eq!(hash_positions(10, 4, 7, 1), vec![3]);
}

#[test]
fn two_positions_use_one_digest_each() {
    assert_eq!(hash_positions(10, 3, 7, 2), vec![3, 3]);
    assert_eq!(hash_positions(6, 12, 7, 2), vec![6, 5]);
}

#[test]
fn single_bit_array_has_only_position_zero() {
    assert_eq!(hash_positions(u64::MAX, u64::MAX, 1, 4), vec![0, 0, 0, 0]);
}

#[test]
fn positions_stay_below_the_bit_count() {
    for bits in [1usize, 2, 3, 64, 959, 1 << 20] {
        let positions = hash_positions(0xdead_beef_cafe_f00d, 0x0123_4567_89ab_cdef, bits, 50);
        assert_eq!(positions.len(), 50);
        for position in positions {
            assert!(position < bits as u64);
        }
    }
}

#[test]
fn positions_are_exact_where_the_sum_exceeds_64_bits() {
    let bits: usize = usize::MAX;
    let h0: u64 = (bits as u64) - 1;
    let h1: u64 = (bits as u64) - 2;
    let positions = hash_positions(h0, h1, bits, 6);
    assert_eq!(positions.len(), 6);
    let modulus = bits as u128;
    for (i, position) in positions.iter().enumerate() {
        let expected = match i {
            0 => h0 as u128,
            1 => h1 as u128,
            _ => (h0 as u128 + (i as u128) * (h1 as u128)) % modulus,
        };
        assert_eq!(*position as u128, expected);
    }
    // (m - 1) + 2 * (m - 2) = 3m - 5, which leaves m - 5.
    assert_eq!(positions[2], (bits as u64) - 5);
}
