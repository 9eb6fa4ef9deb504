use walker::WalkError;
use walker::ensemble_seeds;
use walker::random::IM1;
use walker::random::IMM1;
use walker::random::Ran2Generator;
use walker::random::ran2;
use walker::walk_draws;

/// Two invocations with identical inputs give identical draw sequences.
#[test]
fn determinism_same_inputs_same_draws() {
    let first = walk_draws(10, 7);
    let second = walk_draws(10, 7);
    assert_eq!(first, second);
}

/// Every raw output lies in 1 ..= IM1 - 1; scaled by 1 / IM1 and clamped
/// the way the binding layer does, it lies in (0, 1 - 1.2e-7].
#[test]
fn prng_range_raw_and_scaled() {
    let rnmx: f64 = 1.0 - 1.2e-7;
    let mut rng = Ran2Generator::new(-9);
    for _ in 0..1000 {
        let raw = rng.next_raw();
        assert!(1 <= raw && raw <= IMM1);
        let scaled = raw as f64 / IM1 as f64;
        let value = if scaled > rnmx { rnmx } else { scaled };
        assert!(value > 0.0);
        assert!(value <= rnmx);
    }
}

/// The exact output sequence for known seeds: pins the constants and the
/// shuffle discipline to the reference recurrence.
#[test]
fn regression_known_seed_outputs() {
    let mut rng = Ran2Generator::new(-1);
    let first5: Vec<i32> = (0..5).map(|_| rng.next_raw()).collect();
    assert_eq!(first5, vec![612850790, 544082547, 200722134, 1306737071, 1940080159]);

    // A positive seed skips the reseed: the zeroed table is used as-is.
    let mut positive = Ran2Generator::new(1);
    let first3: Vec<i32> = (0..3).map(|_| positive.next_raw()).collect();
    assert_eq!(first3, vec![1407495835, 431633857, 1919039389]);

    let mut seeded5 = Ran2Generator::new(-5);
    assert_eq!(seeded5.next_raw(), 10926628);
}

/// The draws a walk consumes: seed 1, three steps, so six draws after the
/// 100-draw warm-up.
#[test]
fn walk_draw_sequence_regression() {
    let draws = walk_draws(3, 1);
    assert_eq!(
        draws,
        vec![797246060, 408751186, 628963818, 150578898, 356167694, 996818510]
    );
}

/// A walk of n steps consumes exactly 2 * n draws.
#[test]
fn walk_draws_length() {
    for n in [0usize, 1, 5, 17] {
        assert_eq!(walk_draws(n, 2).len(), 2 * n);
    }
}

/// No steps, no draws: the walk with num_steps = 0 stays at the origin
/// and never touches the generator beyond the warm-up.
#[test]
fn no_steps_no_draws() {
    assert!(walk_draws(0, 1).is_empty());
}

/// A seed of 0 is normalized to the minimum working seed: it consumes
/// exactly the draws of seed 1.
#[test]
fn seed_zero_normalizes_to_one() {
    assert_eq!(walk_draws(2, 0), walk_draws(2, 1));
}

/// An empty ensemble is rejected with the invalid-argument error.
#[test]
fn ensemble_size_zero_rejected() {
    assert_eq!(ensemble_seeds(0), Err(WalkError::InvalidArgument));
}

/// Ensemble member i always runs the walk with seed i.
#[test]
fn ensemble_seed_schedule() {
    assert_eq!(ensemble_seeds(3).unwrap(), vec![0, 1, 2]);
}

/// The free `ran2` step and the generator agree, starting from the state
/// a fresh generator holds.
#[test]
fn free_ran2_matches_generator() {
    let mut iv = vec![0i32; 32];
    let (_, _, iy) = ran2(-3, 123456789, 0, &mut iv);
    assert_eq!(iy, 1661451419);

    let mut rng = Ran2Generator::new(-3);
    assert_eq!(rng.next_raw(), 1661451419);
}
