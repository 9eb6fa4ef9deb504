//! A portable, deterministic pseudo-random-number generator: two
//! linear-congruential generators combined through a Bays-Durham shuffle
//! table, each advanced with Schrage's overflow-safe decomposition.
//!
//! The generator's whole evolution is integer arithmetic on `i32` values;
//! only the very last scaling of an output `iy` into a float in (0, 1) is
//! left to the caller, who divides by `IM1` and clamps to `1 - 1.2e-7`.
//! Everything here is proved: each advance is a pure function of the prior
//! state, no step overflows, and every output lies in `1 ..= IM1 - 1`.

use vstd::arithmetic::div_mod::{
    lemma_div_is_ordered, lemma_fundamental_div_mod, lemma_fundamental_div_mod_converse_mod,
};
use vstd::prelude::*;

verus! {

/// Modulus of the primary linear-congruential generator.
pub const IM1: i32 = 2147483563;

/// Modulus of the secondary linear-congruential generator.
pub const IM2: i32 = 2147483399;

/// Largest raw output: `IM1 - 1`.
pub const IMM1: i32 = 2147483562;

/// Multiplier of the primary generator.
pub const IA1: i32 = 40014;

/// Multiplier of the secondary generator.
pub const IA2: i32 = 40692;

/// Schrage quotient for the primary generator: `IM1 / IA1`.
pub const IQ1: i32 = 53668;

/// Schrage quotient for the secondary generator: `IM2 / IA2`.
pub const IQ2: i32 = 52774;

/// Schrage remainder for the primary generator: `IM1 % IA1`.
pub const IR1: i32 = 12211;

/// Schrage remainder for the secondary generator: `IM2 % IA2`.
pub const IR2: i32 = 3791;

/// Size of the shuffle table.
pub const NTAB: i32 = 32;

/// Divisor mapping an output to a shuffle-table slot: `1 + (IM1 - 1) / NTAB`.
pub const NDIV: i32 = 67108862;

/// Mathematical model of a generator: the two congruential seeds, the last
/// output, and the shuffle table, all as unbounded integers.
pub ghost struct GenState {
    pub idum: int,
    pub idum2: int,
    pub iy: int,
    pub iv: Seq<int>,
}

impl GenState {
    /// States reachable through `Ran2Generator`: the table holds 32 slots of
    /// reduced primary-generator outputs, both seeds and the last output are
    /// within the ranges the update steps keep them in, and `idum` can be
    /// negated without leaving `i32`.
    pub open spec fn wf(self) -> bool {
        &&& self.iv.len() == NTAB
        &&& forall|j: int| 0 <= j < NTAB ==> 0 <= #[trigger] self.iv[j] < IM1
        &&& i32::MIN < self.idum <= i32::MAX
        &&& 0 <= self.idum2 <= i32::MAX
        &&& 0 <= self.iy <= IMM1
    }
}

/// One Schrage step: `(a * x) mod m` computed as
/// `a * (x mod q) - r * (x / q)`, plus `m` if that is negative, which never
/// leaves the `i32` range for the constants used here.
pub open spec fn schrage(a: int, q: int, r: int, m: int, x: int) -> int {
    let k = x / q;
    let t = a * (x - k * q) - k * r;
    if t < 0 {
        t + m
    } else {
        t
    }
}

/// Advance the primary linear-congruential generator once.
pub open spec fn lcg1(x: int) -> int {
    schrage(IA1 as int, IQ1 as int, IR1 as int, IM1 as int, x)
}

/// Advance the secondary linear-congruential generator once.
pub open spec fn lcg2(x: int) -> int {
    schrage(IA2 as int, IQ2 as int, IR2 as int, IM2 as int, x)
}

/// Advance the primary generator `n` times.
pub open spec fn lcg1_iter(x: int, n: nat) -> int
    decreases n,
{
    if n == 0 {
        x
    } else {
        lcg1(lcg1_iter(x, (n - 1) as nat))
    }
}

/// The working seed when reseeding from `idum <= 0`: the absolute value,
/// but at least 1, so a seed of 0 behaves as a seed of 1.
pub open spec fn working_seed(idum: int) -> int {
    if -idum < 1 {
        1
    } else {
        -idum
    }
}

/// The shuffle table after reseeding from working seed `w`: 40 warm-up
/// advances of the primary generator, of which the last 32 are recorded,
/// the most recent in slot 0.
pub open spec fn reseed_table(w: int) -> Seq<int> {
    Seq::new(NTAB as nat, |j: int| lcg1_iter(w, (40 - j) as nat))
}

/// The state after a full reseed, triggered whenever the primary seed is
/// not positive: both seeds are set from the working seed, the table is
/// warmed up, and the last output starts as slot 0 of the table.
///
/// Opaque for proof performance: revealed only where a proof steps
/// through the reseed itself.
#[verifier::opaque]
pub open spec fn reseed(idum: int) -> GenState {
    let w = working_seed(idum);
    GenState {
        idum: lcg1_iter(w, 40),
        idum2: w,
        iy: reseed_table(w)[0],
        iv: reseed_table(w),
    }
}

/// One update of a state whose primary seed is already positive: advance
/// both congruential generators, draw the output from the shuffle slot
/// selected by the previous output, refill that slot from the primary
/// generator, and reduce the output into `1 ..= IM1 - 1`.
///
/// Opaque for proof performance: revealed only where a proof steps
/// through the update itself.
#[verifier::opaque]
pub open spec fn advance(s: GenState) -> GenState {
    let idum = lcg1(s.idum);
    let idum2 = lcg2(s.idum2);
    let j = s.iy / (NDIV as int);
    let raw = s.iv[j] - idum2;
    let iy = if raw < 1 {
        raw + IMM1
    } else {
        raw
    };
    GenState { idum, idum2, iy, iv: s.iv.update(j, idum) }
}

/// The state after one call of the generator: reseed first if the primary
/// seed is not positive, then advance.
pub open spec fn next_state(s: GenState) -> GenState {
    if s.idum <= 0 {
        advance(reseed(s.idum))
    } else {
        advance(s)
    }
}

/// The raw output of one call of the generator.
pub open spec fn next_out(s: GenState) -> int {
    next_state(s).iy
}

/// The model of a generator held in explicit `i32` values.
pub open spec fn state_of(idum: i32, idum2: i32, iy: i32, iv: Seq<i32>) -> GenState {
    GenState {
        idum: idum as int,
        idum2: idum2 as int,
        iy: iy as int,
        iv: Seq::new(iv.len(), |j: int| iv[j] as int),
    }
}

/// Schrage's decomposition for the primary generator never leaves the
/// `i32` range, and its result is a reduced residue below `IM1`.
proof fn lemma_lcg1_bounds(x: int)
    requires
        0 <= x <= i32::MAX,
    ensures
        0 <= x / (IQ1 as int) <= 40014,
        0 <= x - (x / (IQ1 as int)) * (IQ1 as int) < IQ1,
        0 <= (IA1 as int) * (x - (x / (IQ1 as int)) * (IQ1 as int)) <= 2147431338,
        0 <= (x / (IQ1 as int)) * (IR1 as int) <= 488610954,
        0 <= lcg1(x) < IM1,
{
    lemma_fundamental_div_mod(x, IQ1 as int);
    lemma_div_is_ordered(x, i32::MAX as int, IQ1 as int);
    assert(i32::MAX as int / (IQ1 as int) == 40014);
}

/// Schrage's decomposition for the secondary generator never leaves the
/// `i32` range, and its result is a reduced residue below `IM2`.
proof fn lemma_lcg2_bounds(x: int)
    requires
        0 <= x <= i32::MAX,
    ensures
        0 <= x / (IQ2 as int) <= 40692,
        0 <= x - (x / (IQ2 as int)) * (IQ2 as int) < IQ2,
        0 <= (IA2 as int) * (x - (x / (IQ2 as int)) * (IQ2 as int)) <= 2147438916,
        0 <= (x / (IQ2 as int)) * (IR2 as int) <= 154263372,
        0 <= lcg2(x) < IM2,
{
    lemma_fundamental_div_mod(x, IQ2 as int);
    lemma_div_is_ordered(x, i32::MAX as int, IQ2 as int);
    assert(i32::MAX as int / (IQ2 as int) == 40692);
}

/// One exec advance of the primary linear-congruential generator.
fn lcg1_step(x: i32) -> (r: i32)
    requires
        x >= 0,
    ensures
        r as int == lcg1(x as int),
        0 <= r < IM1,
{
    proof {
        lemma_lcg1_bounds(x as int);
    }
    let k: i32 = x / IQ1;
    let t: i32 = IA1 * (x - k * IQ1) - k * IR1;
    if t < 0 {
        t + IM1
    } else {
        t
    }
}

/// One exec advance of the secondary linear-congruential generator.
fn lcg2_step(x: i32) -> (r: i32)
    requires
        x >= 0,
    ensures
        r as int == lcg2(x as int),
        0 <= r < IM2,
{
    proof {
        lemma_lcg2_bounds(x as int);
    }
    let k: i32 = x / IQ2;
    let t: i32 = IA2 * (x - k * IQ2) - k * IR2;
    if t < 0 {
        t + IM2
    } else {
        t
    }
}

/// One full call of the `ran2` recurrence on explicit state values:
/// reseed if the primary seed is not positive, then advance both
/// congruential generators and draw through the shuffle table. Returns
/// the new `(idum, idum2, iy)`; `iy` is the raw output, which the caller
/// scales by `1 / IM1` into a float in (0, 1) and clamps to `1 - 1.2e-7`.
pub fn ran2(idum: i32, idum2: i32, iy: i32, iv: &mut Vec<i32>) -> (r: (i32, i32, i32))
    requires
        state_of(idum, idum2, iy, old(iv)@).wf(),
    ensures
        state_of(r.0, r.1, r.2, final(iv)@) == next_state(state_of(idum, idum2, iy, old(iv)@)),
        state_of(r.0, r.1, r.2, final(iv)@).wf(),
        r.2 as int == next_out(state_of(idum, idum2, iy, old(iv)@)),
        1 <= r.2 <= IMM1,
        final(iv)@.len() == old(iv)@.len(),
{
    let ghost s0 = state_of(idum, idum2, iy, old(iv)@);
    let mut idum = idum;
    let mut idum2 = idum2;
    let mut iy = iy;
    if idum <= 0 {
        // Reseed: normalize the seed and warm the shuffle table up with
        // 40 advances of the primary generator, recording the last 32.
        if -idum < 1 {
            idum = 1;
        } else {
            idum = -idum;
        }
        idum2 = idum;
        let ghost w = idum as int;
        assert(w == working_seed(s0.idum));
        assert forall|i: int| 0 <= i < 32 implies 0 <= #[trigger] iv@[i] < IM1 by {
            assert(s0.iv[i] == iv@[i] as int);
        }
        let mut j: i32 = NTAB + 7;
        while j >= 0
            invariant
                -1 <= j <= 39,
                iv@.len() == 32,
                1 <= w <= i32::MAX,
                idum2 as int == w,
                idum >= 0,
                idum as int == lcg1_iter(w, (39 - j) as nat),
                forall|i: int| j < i < 32 ==> #[trigger] iv@[i] as int == lcg1_iter(
                    w,
                    (40 - i) as nat,
                ),
                forall|i: int| 0 <= i < 32 ==> 0 <= #[trigger] iv@[i] < IM1,
            decreases j + 1,
        {
            idum = lcg1_step(idum);
            if j < NTAB {
                iv[j as usize] = idum;
            }
            j -= 1;
        }
        iy = iv[0];
        proof {
            reveal(reseed);
            let s1 = reseed(s0.idum);
            assert(state_of(idum, idum2, iy, iv@).iv =~= s1.iv);
            assert(state_of(idum, idum2, iy, iv@) == s1);
        }
    }
    let ghost pre = if s0.idum <= 0 {
        reseed(s0.idum)
    } else {
        s0
    };
    assert(state_of(idum, idum2, iy, iv@) == pre);
    assert forall|i: int| 0 <= i < 32 implies 0 <= #[trigger] iv@[i] < IM1 by {
        assert(pre.iv[i] == iv@[i] as int);
    }
    idum = lcg1_step(idum);
    idum2 = lcg2_step(idum2);
    proof {
        lemma_div_is_ordered(iy as int, IMM1 as int, NDIV as int);
        assert(IMM1 as int / (NDIV as int) == 31);
    }
    let j: i32 = iy / NDIV;
    let slot: i32 = iv[j as usize];
    iy = slot - idum2;
    iv[j as usize] = idum;
    if iy < 1 {
        iy += IMM1;
    }
    proof {
        reveal(advance);
        assert(state_of(idum, idum2, iy, iv@).iv =~= advance(pre).iv);
        assert(state_of(idum, idum2, iy, iv@) == advance(pre));
    }
    (idum, idum2, iy)
}

/// A deterministic pseudo-random-number generator: state for the `ran2`
/// recurrence. Constructing two of these from the same seed and advancing
/// them equally gives identical outputs.
#[derive(Clone)]
pub struct Ran2Generator {
    idum: i32,
    idum2: i32,
    iy: i32,
    iv: Vec<i32>,
}

impl View for Ran2Generator {
    type V = GenState;

    closed spec fn view(&self) -> GenState {
        GenState {
            idum: self.idum as int,
            idum2: self.idum2 as int,
            iy: self.iy as int,
            iv: Seq::new(self.iv@.len(), |j: int| self.iv@[j] as int),
        }
    }
}

impl Ran2Generator {
    /// A fresh generator. The seed is stored as given; the first call of
    /// `next_raw` sees it non-positive (the canonical caller negates its
    /// seed) and performs the full reseed then. `i32::MIN` is excluded
    /// because its negation does not fit in `i32`.
    pub fn new(idum: i32) -> (g: Ran2Generator)
        requires
            idum > i32::MIN,
        ensures
            g@ == (GenState {
                idum: idum as int,
                idum2: 123456789int,
                iy: 0int,
                iv: Seq::new(NTAB as nat, |j: int| 0int),
            }),
            g@.wf(),
    {
        let mut iv: Vec<i32> = Vec::new();
        let mut n: usize = 0;
        while n < 32
            invariant
                n <= 32,
                iv@.len() == n,
                forall|j: int| 0 <= j < n ==> iv@[j] == 0i32,
            decreases 32 - n,
        {
            iv.push(0);
            n += 1;
        }
        let g = Ran2Generator { idum, idum2: 123456789, iy: 0, iv };
        proof {
            assert(g@.iv =~= Seq::new(NTAB as nat, |j: int| 0int));
        }
        g
    }

    /// One call of the generator: the raw integer output, in
    /// `1 ..= IM1 - 1`. The caller scales it by `1 / IM1` into a float in
    /// (0, 1) and clamps to `1 - 1.2e-7`; that final step is the only part
    /// of the recurrence that is not integer arithmetic, and it lives with
    /// the host-binding layer.
    pub fn next_raw(&mut self) -> (r: i32)
        requires
            old(self)@.wf(),
        ensures
            final(self)@ == next_state(old(self)@),
            final(self)@.wf(),
            r as int == next_out(old(self)@),
            1 <= r <= IMM1,
    {
        let (idum, idum2, iy) = ran2(self.idum, self.idum2, self.iy, &mut self.iv);
        self.idum = idum;
        self.idum2 = idum2;
        self.iy = iy;
        iy
    }
}

/// The state after `n` calls of the generator.
pub open spec fn iterate(s: GenState, n: nat) -> GenState
    decreases n,
{
    if n == 0 {
        s
    } else {
        next_state(iterate(s, (n - 1) as nat))
    }
}

/// The primary generator's outputs stay reduced residues below `IM1`
/// once it has been advanced at least once.
proof fn lemma_lcg1_iter_bounds(x: int, n: nat)
    requires
        0 <= x <= i32::MAX,
        1 <= n,
    ensures
        0 <= lcg1_iter(x, n) < IM1,
    decreases n,
{
    assert(lcg1_iter(x, n) == lcg1(lcg1_iter(x, (n - 1) as nat)));
    if n == 1 {
        assert(lcg1_iter(x, 0) == x);
        lemma_lcg1_bounds(x);
    } else {
        lemma_lcg1_iter_bounds(x, (n - 1) as nat);
        lemma_lcg1_bounds(lcg1_iter(x, (n - 1) as nat));
    }
}

/// Reseeding from any representable non-positive seed yields a
/// well-formed state whose primary seed is a reduced residue.
proof fn lemma_reseed_wf(idum: int)
    requires
        i32::MIN < idum <= 0,
    ensures
        reseed(idum).wf(),
        0 <= reseed(idum).idum < IM1,
{
    reveal(reseed);
    let w = working_seed(idum);
    assert(1 <= w <= i32::MAX);
    assert forall|j: int| 0 <= j < 32 implies 0 <= #[trigger] reseed_table(w)[j] < IM1 by {
        lemma_lcg1_iter_bounds(w, (40 - j) as nat);
    }
    lemma_lcg1_iter_bounds(w, 40);
}

/// Advancing a well-formed state with a non-negative primary seed keeps
/// it well-formed, and the drawn output lies in `1 ..= IM1 - 1`.
proof fn lemma_advance_wf(s: GenState)
    requires
        s.wf(),
        s.idum >= 0,
    ensures
        advance(s).wf(),
        1 <= advance(s).iy <= IMM1,
{
    reveal(advance);
    lemma_lcg1_bounds(s.idum);
    lemma_lcg2_bounds(s.idum2);
    lemma_div_is_ordered(s.iy, IMM1 as int, NDIV as int);
    assert(IMM1 as int / (NDIV as int) == 31);
    let j = s.iy / (NDIV as int);
    assert(0 <= j < 32);
    assert forall|i: int| 0 <= i < 32 implies 0 <= #[trigger] advance(s).iv[i] < IM1 by {
        if i != j {
            assert(advance(s).iv[i] == s.iv[i]);
        }
    }
}

/// Law: Schrage's decomposition is the textbook congruential step — the
/// primary advance of any representable non-negative value is
/// `(IA1 * x) mod IM1`, computed without ever overflowing 32 bits.
pub proof fn lemma_lcg1_is_mod(x: int)
    requires
        0 <= x <= i32::MAX,
    ensures
        lcg1(x) == (IA1 as int) * x % (IM1 as int),
{
    lemma_lcg1_bounds(x);
    let k = x / (IQ1 as int);
    let t = (IA1 as int) * (x - k * (IQ1 as int)) - k * (IR1 as int);
    assert((IA1 as int) * (IQ1 as int) + (IR1 as int) == IM1 as int);
    assert(t == (IA1 as int) * x - k * (IM1 as int));
    if t < 0 {
        lemma_fundamental_div_mod_converse_mod((IA1 as int) * x, IM1 as int, k - 1, t + IM1 as int);
    } else {
        lemma_fundamental_div_mod_converse_mod((IA1 as int) * x, IM1 as int, k, t);
    }
}

/// Law: the same, for the secondary generator: the advance of any
/// representable non-negative value is `(IA2 * x) mod IM2`.
pub proof fn lemma_lcg2_is_mod(x: int)
    requires
        0 <= x <= i32::MAX,
    ensures
        lcg2(x) == (IA2 as int) * x % (IM2 as int),
{
    lemma_lcg2_bounds(x);
    let k = x / (IQ2 as int);
    let t = (IA2 as int) * (x - k * (IQ2 as int)) - k * (IR2 as int);
    assert((IA2 as int) * (IQ2 as int) + (IR2 as int) == IM2 as int);
    assert(t == (IA2 as int) * x - k * (IM2 as int));
    if t < 0 {
        lemma_fundamental_div_mod_converse_mod((IA2 as int) * x, IM2 as int, k - 1, t + IM2 as int);
    } else {
        lemma_fundamental_div_mod_converse_mod((IA2 as int) * x, IM2 as int, k, t);
    }
}

/// Law: from every well-formed state, one call keeps the state
/// well-formed and its raw output lies in `1 ..= IM1 - 1` — scaled by
/// `1 / IM1`, strictly inside (0, 1), so the caller's clamp to
/// `1 - 1.2e-7` keeps every emitted value in (0, 1 - 1.2e-7].
pub proof fn lemma_next_out_range(s: GenState)
    requires
        s.wf(),
    ensures
        next_state(s).wf(),
        1 <= next_out(s) <= IMM1,
{
    if s.idum <= 0 {
        lemma_reseed_wf(s.idum);
        lemma_advance_wf(reseed(s.idum));
    } else {
        lemma_advance_wf(s);
    }
}

/// Law: state transitions are referentially transparent — the next state
/// and output are functions of the current state alone, so two generators
/// constructed from the same seed and advanced the same number of times
/// produce identical outputs.
pub proof fn lemma_next_deterministic(s1: GenState, s2: GenState)
    requires
        s1 == s2,
    ensures
        next_state(s1) == next_state(s2),
        next_out(s1) == next_out(s2),
{
}

/// Law: well-formedness is an invariant of every number of calls.
pub proof fn lemma_iterate_wf(s: GenState, n: nat)
    requires
        s.wf(),
    ensures
        iterate(s, n).wf(),
    decreases n,
{
    if n > 0 {
        lemma_iterate_wf(s, (n - 1) as nat);
        lemma_next_out_range(iterate(s, (n - 1) as nat));
    }
}

} // verus!
