use sha256_miner::counter::add_big_int;

fn from_u128(v: u128) -> [u8; 32] {
    let mut b = [0u8; 32];
    b[..16].copy_from_slice(&v.to_le_bytes());
    b
}

#[test]
fn add_to_zero() {
    let mut b = [0u8; 32];
    add_big_int(&mut b, 1);
    let mut expected = [0u8; 32];
    expected[0] = 1;
    assert_eq!(b, expected);
}

#[test]
fn add_zero_changes_nothing() {
    let mut b = [7u8; 32];
    add_big_int(&mut b, 0);
    assert_eq!(b, [7u8; 32]);
}

#[test]
fn all_ones_plus_one_wraps_to_zero() {
    let mut b = [0xFFu8; 32];
    add_big_int(&mut b, 1);
    assert_eq!(b, [0u8; 32]);
}

#[test]
fn carry_runs_through_bytes() {
    let mut b = [0u8; 32];
    b[0] = 0xFF;
    b[1] = 0xFF;
    add_big_int(&mut b, 1);
    let mut expected = [0u8; 32];
    expected[2] = 1;
    assert_eq!(b, expected);
}

#[test]
fn largest_delta_on_full_bytes() {
    let mut b = [0xFFu8; 32];
    add_big_int(&mut b, u32::MAX);
    // 2^256 - 1 + 2^32 - 1 wraps to 2^32 - 2.
    let mut expected = [0u8; 32];
    expected[0] = 0xFE;
    expected[1] = 0xFF;
    expected[2] = 0xFF;
    expected[3] = 0xFF;
    assert_eq!(b, expected);
}

#[test]
fn matches_integer_addition() {
    let cases: [(u128, u32); 4] = [
        (0, 524_288 * 64),
        (0x1234_5678_9abc_def0, 0xdead_beef),
        (u64::MAX as u128, 1),
        (0xFF_FFFF_FFFF, 0xFFFF_FFFF),
    ];
    for (start, delta) in cases {
        let mut b = from_u128(start);
        add_big_int(&mut b, delta);
        assert_eq!(b, from_u128(start + delta as u128));
    }
}

#[test]
fn two_adds_equal_one_add_of_the_sum() {
    let starts: [[u8; 32]; 3] = [[0u8; 32], [0xFFu8; 32], {
        let mut s = [0u8; 32];
        for (i, x) in s.iter_mut().enumerate() {
            *x = (i as u8).wrapping_mul(37).wrapping_add(11);
        }
        s
    }];
    let deltas: [(u32, u32); 4] = [(0, 0), (1, 255), (0x8000_0000, 0x7FFF_FFFF), (12_345, 67_890)];
    for start in starts {
        for (n1, n2) in deltas {
            let mut twice = start;
            add_big_int(&mut twice, n1);
            add_big_int(&mut twice, n2);
            let mut once = start;
            add_big_int(&mut once, n1 + n2);
            assert_eq!(twice, once);
        }
    }
}
