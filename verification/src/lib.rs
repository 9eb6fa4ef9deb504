//! Deterministic three-dimensional random walks and their ensemble
//! average, built on a bit-reproducible pseudo-random-number generator.
//!
//! Everything that is integer-valued is verified here: the generator's
//! state transitions, the sequence of raw draws a walk consumes, and the
//! seed schedule of an ensemble. The floating-point tail — scaling a raw
//! draw into (0, 1), turning a pair of draws into angles, accumulating
//! positions and averaging squared displacements — cannot be stated in
//! this library and lives with the (unverified) caller, which feeds on
//! the exact draw sequences proved here.

use vstd::prelude::*;

pub mod random;

use crate::random::GenState;
use crate::random::IMM1;
use crate::random::NTAB;
use crate::random::Ran2Generator;
use crate::random::advance;
use crate::random::iterate;
use crate::random::lemma_iterate_wf;
use crate::random::lemma_next_out_range;
use crate::random::next_out;
use crate::random::next_state;
use crate::random::reseed;
use crate::random::working_seed;

verus! {

/// How many outputs a walk discards before its first step: a fixed
/// decorrelation warm-up, separate from the 40 advances inside the
/// generator's own reseed.
pub const WARM_UP_DRAWS: usize = 100;

/// The generator state a walk starts from: the walk negates its seed, so
/// the first call always triggers the full reseed (and a seed of zero is
/// normalized to one there).
pub open spec fn walk_initial_state(seed: int) -> GenState {
    GenState {
        idum: -seed,
        idum2: 123456789,
        iy: 0,
        iv: Seq::new(NTAB as nat, |j: int| 0int),
    }
}

/// Raw draw `i` (counting from zero) consumed by the walk with this seed:
/// the output of the call after the warm-up draws and `i` earlier ones.
/// A walk's steps use draws in pairs, draw `2 * k` for step `k`'s polar
/// angle and draw `2 * k + 1` for its azimuthal angle.
pub open spec fn walk_draw(seed: int, i: nat) -> int {
    next_out(iterate(walk_initial_state(seed), (WARM_UP_DRAWS + i) as nat))
}

/// The raw generator outputs a walk of `num_steps` steps consumes, in
/// order: two per step, after the fixed 100-draw warm-up. Each scaled by
/// `2 * pi / IM1` becomes one of the step's two angles; that scaling, the
/// trigonometry and the position bookkeeping are floating-point and live
/// with the caller, which this sequence pins down exactly.
pub fn walk_draws(num_steps: usize, seed: usize) -> (r: Vec<i32>)
    requires
        seed <= i32::MAX as usize,
        num_steps <= usize::MAX / 2,
    ensures
        r@.len() == 2 * num_steps,
        forall|i: int| 0 <= i < r@.len() ==> #[trigger] r@[i] as int == walk_draw(
            seed as int,
            i as nat,
        ),
        forall|i: int| 0 <= i < r@.len() ==> 1 <= #[trigger] r@[i] <= IMM1,
{
    let ghost s0 = walk_initial_state(seed as int);
    let idum: i32 = -(seed as i32);
    let mut rng = Ran2Generator::new(idum);
    proof {
        assert(rng@.iv =~= s0.iv);
        assert(rng@ == iterate(s0, 0));
    }
    let mut t: usize = 0;
    while t < WARM_UP_DRAWS
        invariant
            t <= WARM_UP_DRAWS,
            s0 == walk_initial_state(seed as int),
            rng@.wf(),
            rng@ == iterate(s0, t as nat),
        decreases WARM_UP_DRAWS - t,
    {
        rng.next_raw();
        t += 1;
    }
    let mut draws: Vec<i32> = Vec::new();
    let mut i: usize = 0;
    while i < num_steps
        invariant
            i <= num_steps,
            num_steps <= usize::MAX / 2,
            s0 == walk_initial_state(seed as int),
            rng@.wf(),
            rng@ == iterate(s0, (WARM_UP_DRAWS + 2 * i) as nat),
            draws@.len() == 2 * i,
            forall|k: int| 0 <= k < draws@.len() ==> #[trigger] draws@[k] as int == walk_draw(
                seed as int,
                k as nat,
            ),
            forall|k: int| 0 <= k < draws@.len() ==> 1 <= #[trigger] draws@[k] <= IMM1,
        decreases num_steps - i,
    {
        let ghost n0 = (WARM_UP_DRAWS + 2 * i) as nat;
        let theta_draw = rng.next_raw();
        let phi_draw = rng.next_raw();
        proof {
            assert(iterate(s0, (n0 + 1) as nat) == next_state(iterate(s0, n0)));
            assert(iterate(s0, (n0 + 2) as nat) == next_state(iterate(s0, (n0 + 1) as nat)));
            assert(theta_draw as int == walk_draw(seed as int, (2 * i) as nat));
            assert(phi_draw as int == walk_draw(seed as int, (2 * i + 1) as nat));
        }
        draws.push(theta_draw);
        draws.push(phi_draw);
        i += 1;
    }
    draws
}

/// What a boundary operation rejects: an argument outside the range the
/// computation is defined on, as opposed to any internal failure (the
/// core itself cannot fail — all its loops are bounded and verified).
#[derive(Clone, Copy, Debug, PartialEq, Eq, Structural)]
pub enum WalkError {
    InvalidArgument,
}

/// The seed schedule of an ensemble: member `i` always runs the walk with
/// seed `i`, for `i` in `0 .. ensemble_size`. An empty ensemble is
/// rejected — its average would divide by zero — rather than reduced.
pub fn ensemble_seeds(ensemble_size: usize) -> (r: Result<Vec<usize>, WalkError>)
    ensures
        ensemble_size == 0 <==> r is Err,
        r is Err ==> r == Result::<Vec<usize>, WalkError>::Err(WalkError::InvalidArgument),
        r is Ok ==> r->Ok_0@.len() == ensemble_size,
        r is Ok ==> forall|i: int| 0 <= i < ensemble_size ==> #[trigger] r->Ok_0@[i] == i,
{
    if ensemble_size == 0 {
        return Err(WalkError::InvalidArgument);
    }
    let mut seeds: Vec<usize> = Vec::new();
    let mut s: usize = 0;
    while s < ensemble_size
        invariant
            s <= ensemble_size,
            seeds@.len() == s,
            forall|i: int| 0 <= i < s ==> #[trigger] seeds@[i] == i,
        decreases ensemble_size - s,
    {
        seeds.push(s);
        s += 1;
    }
    Ok(seeds)
}

/// Law: a walk's draw sequence is a function of its seed alone — two
/// walks given equal seeds consume identical draws at every index, so
/// two invocations with identical inputs produce identical trajectories.
pub proof fn lemma_walk_deterministic(seed1: int, seed2: int, i: nat)
    requires
        seed1 == seed2,
    ensures
        walk_draw(seed1, i) == walk_draw(seed2, i),
{
}

/// Law: every draw any walk consumes lies in `1 ..= IM1 - 1`, so every
/// value the walk's angles are scaled from lies strictly inside (0, 1).
pub proof fn lemma_walk_draw_range(seed: int, i: nat)
    requires
        0 <= seed <= i32::MAX,
    ensures
        1 <= walk_draw(seed, i) <= IMM1,
{
    let s0 = walk_initial_state(seed);
    assert(s0.wf());
    lemma_iterate_wf(s0, (WARM_UP_DRAWS + i) as nat);
    lemma_next_out_range(iterate(s0, (WARM_UP_DRAWS + i) as nat));
}

/// Equal states after `n` calls when the initial seeds 0 and 1 are used,
/// for any positive `n`: both trigger the same reseed on the first call.
proof fn lemma_iterate_seed_zero(n: nat)
    requires
        n >= 1,
    ensures
        iterate(walk_initial_state(0), n) == iterate(walk_initial_state(1), n),
    decreases n,
{
    let a = walk_initial_state(0);
    let b = walk_initial_state(1);
    if n == 1 {
        reveal(crate::random::reseed);
        assert(working_seed(0) == 1);
        assert(working_seed(-1) == 1);
        assert(reseed(0) == reseed(-1));
        assert(iterate(a, 0) == a);
        assert(iterate(b, 0) == b);
        assert(iterate(a, 1) == next_state(a));
        assert(iterate(b, 1) == next_state(b));
        assert(next_state(a) == advance(reseed(0)));
        assert(next_state(b) == advance(reseed(-1)));
    } else {
        lemma_iterate_seed_zero((n - 1) as nat);
        assert(iterate(a, n) == next_state(iterate(a, (n - 1) as nat)));
        assert(iterate(b, n) == next_state(iterate(b, (n - 1) as nat)));
    }
}

/// Law: a seed of zero is not a special case — the generator normalizes
/// it to the minimum working seed, so the walk for seed 0 consumes
/// exactly the draws of the walk for seed 1.
pub proof fn lemma_seed_zero_draws(i: nat)
    ensures
        walk_draw(0, i) == walk_draw(1, i),
{
    lemma_iterate_seed_zero((WARM_UP_DRAWS + i) as nat);
}

} // verus!
