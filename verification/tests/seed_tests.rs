use montecarlo::seed::{derive_trial_seeds, XorShift128};
use rand::{Rng, RngCore, SeedableRng};
use rand_xorshift::XorShiftRng;

#[test]
fn next_u32_matches_reference_generator() {
    let master: [u8; 16] = [7, 1, 9, 3, 200, 12, 0, 55, 4, 4, 4, 4, 90, 13, 17, 250];
    let mut ours = XorShift128::from_seed_bytes(&master);
    let mut theirs = XorShiftRng::from_seed(master);
    for _ in 0..1000 {
        assert_eq!(ours.next_u32(), theirs.next_u32());
    }
}

#[test]
fn zero_seed_fallback_matches_reference_generator() {
    let master = [0u8; 16];
    let mut ours = XorShift128::from_seed_bytes(&master);
    let mut theirs = XorShiftRng::from_seed(master);
    for _ in 0..100 {
        assert_eq!(ours.next_u32(), theirs.next_u32());
    }
}

#[test]
fn derived_seeds_match_reference_derivation() {
    let master: [u8; 16] = [42, 0, 1, 2, 3, 4, 5, 6, 7, 8, 9, 10, 11, 12, 13, 14];
    let derived = derive_trial_seeds(&master, 50);
    assert_eq!(derived.len(), 50);
    let mut seed_rng = XorShiftRng::from_seed(master);
    for sub in &derived {
        let reference: [u8; 16] = seed_rng.gen();
        assert_eq!(*sub, reference);
    }
}

#[test]
fn first_draw_has_known_value() {
    // For state (1, 0, 0, 0): t = 1 ^ (1 << 11) = 0x801 and the fresh word is
    // 0 ^ 0 ^ (0x801 ^ (0x801 >> 8)) = 0x809 = 2057.
    let mut master = [0u8; 16];
    master[0] = 1;
    let mut rng = XorShift128::from_seed_bytes(&master);
    assert_eq!(rng.next_u32(), 2057);
    let derived = derive_trial_seeds(&master, 1);
    assert_eq!(derived[0][0], 0x09);
}

#[test]
fn derivation_is_reproducible() {
    let master: [u8; 16] = [9; 16];
    let first = derive_trial_seeds(&master, 300);
    let second = derive_trial_seeds(&master, 300);
    assert_eq!(first, second);
}

#[test]
fn trial_seed_does_not_depend_on_batch_size() {
    let master: [u8; 16] = [1, 2, 3, 4, 5, 6, 7, 8, 9, 10, 11, 12, 13, 14, 15, 16];
    let small = derive_trial_seeds(&master, 10);
    let large = derive_trial_seeds(&master, 500);
    assert_eq!(&large[..10], &small[..]);
}

#[test]
fn empty_batch_needs_no_seeds() {
    let derived = derive_trial_seeds(&[8; 16], 0);
    assert!(derived.is_empty());
}

#[test]
fn distinct_masters_give_distinct_streams() {
    let a = derive_trial_seeds(&[3; 16], 4);
    let b = derive_trial_seeds(&[4; 16], 4);
    assert_ne!(a, b);
}
