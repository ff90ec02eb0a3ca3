use fortune_cookie::engine::{derive_fortune, rarity_tier};

fn counting_identity() -> [u8; 32] {
    let mut identity = [0u8; 32];
    for (i, byte) in identity.iter_mut().enumerate() {
        *byte = (i + 1) as u8;
    }
    identity
}

#[test]
fn golden_vector() {
    // seed = 100 + (1 + 4 + 9 + ... + 1024) + 2 + 5 = 11547
    // rarity seed = (700 + 7040 + 2) * 13 = 100646
    assert_eq!(derive_fortune(100, &counting_identity(), 2, 5), (47, 0));
}

#[test]
fn golden_vector_is_reproducible() {
    let first = derive_fortune(100, &counting_identity(), 2, 5);
    let second = derive_fortune(100, &counting_identity(), 2, 5);
    assert_eq!(first, second);
}

#[test]
fn all_zero_inputs() {
    assert_eq!(derive_fortune(0, &[0u8; 32], 0, 0), (0, 0));
}

#[test]
fn all_maximal_inputs_wrap_around() {
    assert_eq!(derive_fortune(u64::MAX, &[255u8; 32], 3, u64::MAX), (41, 0));
}

#[test]
fn maximal_clock_alone() {
    // 2^64 - 1 = 15 (mod 50); 7 * (2^64 - 1) wraps to 2^64 - 7
    assert_eq!(derive_fortune(u64::MAX, &[0u8; 32], 0, 0), (15, 0));
}

#[test]
fn clock_near_the_limit_wraps_the_fortune_seed() {
    assert_eq!(derive_fortune(18446744073709551606, &counting_identity(), 2, 5), (37, 0));
}

#[test]
fn clock_times_seven_wraps_the_rarity_seed() {
    assert_eq!(
        derive_fortune(2635249153387078807, &[7u8; 32], 1, 18446744073709551613),
        (1, 0)
    );
}

#[test]
fn rarity_thresholds_by_clock() {
    let identity = [0u8; 32];
    // score = 91 * clock (mod 100)
    assert_eq!(derive_fortune(59, &identity, 0, 0), (9, 0)); // score 69
    assert_eq!(derive_fortune(70, &identity, 0, 0), (20, 1)); // score 70
    assert_eq!(derive_fortune(79, &identity, 0, 0), (29, 1)); // score 89
    assert_eq!(derive_fortune(90, &identity, 0, 0), (40, 2)); // score 90
    assert_eq!(derive_fortune(78, &identity, 0, 0), (28, 2)); // score 98
    assert_eq!(derive_fortune(89, &identity, 0, 0), (39, 3)); // score 99
}

#[test]
fn rarity_tier_boundaries() {
    assert_eq!(rarity_tier(0), 0);
    assert_eq!(rarity_tier(69), 0);
    assert_eq!(rarity_tier(70), 1);
    assert_eq!(rarity_tier(89), 1);
    assert_eq!(rarity_tier(90), 2);
    assert_eq!(rarity_tier(98), 2);
    assert_eq!(rarity_tier(99), 3);
    assert_eq!(rarity_tier(u64::MAX), 3);
}

#[test]
fn identity_is_walked_forward_for_fortune_and_backward_for_rarity() {
    let mut first = [0u8; 32];
    first[0] = 1;
    let mut last = [0u8; 32];
    last[31] = 1;
    // first byte: weight 1 forward, weight 34 backward
    assert_eq!(derive_fortune(5, &first, 0, 0), (6, 2));
    // last byte: weight 32 forward, weight 3 backward
    assert_eq!(derive_fortune(5, &last, 0, 0), (37, 2));
}

#[test]
fn outputs_stay_in_range() {
    let identity = counting_identity();
    let mut clock: u64 = 0;
    while clock < 2000 {
        let mut archetype: u8 = 0;
        while archetype < 4 {
            let (fortune_id, rarity) =
                derive_fortune(clock.wrapping_mul(0x9E3779B97F4A7C15), &identity, archetype, clock);
            assert!(fortune_id < 50);
            assert!(rarity <= 3);
            archetype += 1;
        }
        clock += 1;
    }
}

#[test]
fn rarity_distribution_over_consecutive_clocks() {
    let identity = counting_identity();
    let mut tiers = [0u32; 4];
    let mut fortunes = [0u32; 50];
    let mut clock: u64 = 0;
    while clock < 10000 {
        let (fortune_id, rarity) = derive_fortune(clock, &identity, 1, 9);
        tiers[rarity as usize] += 1;
        fortunes[fortune_id as usize] += 1;
        clock += 1;
    }
    assert_eq!(tiers, [7000, 2000, 900, 100]);
    assert!(fortunes.iter().all(|&n| n == 200));
}

#[test]
fn single_input_changes_change_the_outcome() {
    let identity = counting_identity();
    let base = derive_fortune(100, &identity, 2, 5);
    assert_eq!(base, (47, 0));

    assert_ne!(derive_fortune(101, &identity, 2, 5), base);
    assert_eq!(derive_fortune(101, &identity, 2, 5), (48, 0));

    assert_ne!(derive_fortune(100, &identity, 3, 5), base);
    assert_ne!(derive_fortune(100, &identity, 2, 6), base);
    assert_eq!(derive_fortune(100, &identity, 2, 6), (48, 0));

    let mut changed_first = identity;
    changed_first[0] = 2;
    assert_eq!(derive_fortune(100, &changed_first, 2, 5), (48, 1));

    let mut changed_last = identity;
    changed_last[31] = 33;
    assert_eq!(derive_fortune(100, &changed_last, 2, 5), (29, 1));
}

#[test]
fn next_counter_always_changes_the_fortune() {
    let identity = counting_identity();
    let mut counter: u64 = u64::MAX - 12000;
    while counter < u64::MAX {
        let here = derive_fortune(100, &identity, 2, counter).0;
        let next = derive_fortune(100, &identity, 2, counter + 1).0;
        assert_ne!(here, next);
        counter += 1;
    }
}
