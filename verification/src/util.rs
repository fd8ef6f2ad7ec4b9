//! A small generator of well-spread numbers.

use vstd::prelude::*;

verus! {

/// The step between two states of the generator.
pub const GOLDEN_GAMMA: u64 = 0x9e37_79b9_7f4a_7c15;

/// The number that the state `state` gives.
pub open spec fn mixed(state: u64) -> u64 {
    let a = (state ^ (state >> 30)).wrapping_mul(0xbf58_476d_1ce4_e5b9);
    let b = (a ^ (a >> 27)).wrapping_mul(0x94d0_49bb_1331_11eb);
    b ^ (b >> 31)
}

/// A generator whose state advances by a fixed odd step.
#[derive(Debug)]
pub struct RandomSource {
    pub state: u64,
}

impl RandomSource {
    /// A generator seeded with a number of nanoseconds.
    pub fn from_nanos(nanos: u64) -> (r: RandomSource)
        ensures
            r.state == nanos ^ GOLDEN_GAMMA,
    {
        RandomSource { state: nanos ^ GOLDEN_GAMMA }
    }

    /// The next number.
    pub fn rand_u64(&mut self) -> (r: u64)
        ensures
            final(self).state == old(self).state.wrapping_add(GOLDEN_GAMMA),
            r == mixed(final(self).state),
    {
        self.state = self.state.wrapping_add(GOLDEN_GAMMA);
        let a: u64 = (self.state ^ (self.state >> 30)).wrapping_mul(0xbf58_476d_1ce4_e5b9);
        let b: u64 = (a ^ (a >> 27)).wrapping_mul(0x94d0_49bb_1331_11eb);
        b ^ (b >> 31)
    }
}

proof fn lemma_first_factor(a: u64, b: u64)
    requires
        a.wrapping_mul(0xbf58476d1ce4e5b9) == b.wrapping_mul(0xbf58476d1ce4e5b9),
    ensures
        a == b,
{
    let m = 0x1_0000_0000_0000_0000int;
    let c = 0xbf58476d1ce4e5b9int;
    let p = a.wrapping_mul(0xbf58476d1ce4e5b9) as int;
    let qa = (a * c) / m;
    let qb = (b * c) / m;
    assert(a * c == qa * m + p);
    assert(b * c == qb * m + p);
    assert((a - b) * c == (qa - qb) * m) by (nonlinear_arith)
        requires
            a * c == qa * m + p,
            b * c == qb * m + p,
    ;
    let d = a - b;
    let q = qa - qb;
    assert(d * c == q * m);
    // The inverse of `c` modulo two to the power of sixty-four.
    assert(d == m * (q * 0x96de1b173f119089int - d * 0x70c3bca78f27f46cint)) by (nonlinear_arith)
        requires
            d * c == q * m,
            m == 0x1_0000_0000_0000_0000int,
            c == 0xbf58476d1ce4e5b9int,
    ;
    let t = q * 0x96de1b173f119089int - d * 0x70c3bca78f27f46cint;
    assert(d == m * t);
    assert(t == 0) by (nonlinear_arith)
        requires
            d == m * t,
            -m < d < m,
            m > 0,
    ;
}

proof fn lemma_second_factor(a: u64, b: u64)
    requires
        a.wrapping_mul(0x94d049bb133111eb) == b.wrapping_mul(0x94d049bb133111eb),
    ensures
        a == b,
{
    let m = 0x1_0000_0000_0000_0000int;
    let c = 0x94d049bb133111ebint;
    let p = a.wrapping_mul(0x94d049bb133111eb) as int;
    let qa = (a * c) / m;
    let qb = (b * c) / m;
    assert(a * c == qa * m + p);
    assert(b * c == qb * m + p);
    assert((a - b) * c == (qa - qb) * m) by (nonlinear_arith)
        requires
            a * c == qa * m + p,
            b * c == qb * m + p,
    ;
    let d = a - b;
    let q = qa - qb;
    assert(d * c == q * m);
    // The inverse of `c` modulo two to the power of sixty-four.
    assert(d == m * (q * 0x319642b2d24d8ec3int - d * 0x1cd336eda85f1453int)) by (nonlinear_arith)
        requires
            d * c == q * m,
            m == 0x1_0000_0000_0000_0000int,
            c == 0x94d049bb133111ebint,
    ;
    let t = q * 0x319642b2d24d8ec3int - d * 0x1cd336eda85f1453int;
    assert(d == m * t);
    assert(t == 0) by (nonlinear_arith)
        requires
            d == m * t,
            -m < d < m,
            m > 0,
    ;
}

/// Different states give different numbers.
pub proof fn different_states_give_different_numbers(a: u64, b: u64)
    requires
        a != b,
    ensures
        mixed(a) != mixed(b),
{
    if mixed(a) == mixed(b) {
        let a1 = (a ^ (a >> 30)).wrapping_mul(0xbf58_476d_1ce4_e5b9);
        let b1 = (b ^ (b >> 30)).wrapping_mul(0xbf58_476d_1ce4_e5b9);
        let a2 = (a1 ^ (a1 >> 27)).wrapping_mul(0x94d0_49bb_1331_11eb);
        let b2 = (b1 ^ (b1 >> 27)).wrapping_mul(0x94d0_49bb_1331_11eb);
        assert(a2 ^ (a2 >> 31) == b2 ^ (b2 >> 31) ==> a2 == b2) by (bit_vector);
        lemma_second_factor(a1 ^ (a1 >> 27), b1 ^ (b1 >> 27));
        assert(a1 ^ (a1 >> 27) == b1 ^ (b1 >> 27) ==> a1 == b1) by (bit_vector);
        lemma_first_factor(a ^ (a >> 30), b ^ (b >> 30));
        assert(a ^ (a >> 30) == b ^ (b >> 30) ==> a == b) by (bit_vector);
    }
}

/// The state after a number of draws.
pub open spec fn state_after(state: u64, draws: nat) -> u64
    decreases draws,
{
    if draws == 0 {
        state
    } else {
        state_after(state, (draws - 1) as nat).wrapping_add(GOLDEN_GAMMA)
    }
}

proof fn lemma_state_after(state: u64, draws: nat) -> (turns: nat)
    ensures
        state + draws * GOLDEN_GAMMA == state_after(state, draws) + turns
            * 0x1_0000_0000_0000_0000int,
    decreases draws,
{
    if draws == 0 {
        0
    } else {
        let before = lemma_state_after(state, (draws - 1) as nat);
        let s = state_after(state, (draws - 1) as nat);
        assert(draws * GOLDEN_GAMMA == (draws - 1) * GOLDEN_GAMMA + GOLDEN_GAMMA)
            by (nonlinear_arith);
        if s + GOLDEN_GAMMA > u64::MAX {
            before + 1
        } else {
            before
        }
    }
}

/// Numbers drawn from one source differ, however far apart they are drawn, until the source has gone
/// through all its states.
pub proof fn draws_differ(state: u64, first: nat, second: nat)
    requires
        first < second < first + 0x1_0000_0000_0000_0000int,
    ensures
        mixed(state_after(state, first)) != mixed(state_after(state, second)),
{
    let m = 0x1_0000_0000_0000_0000int;
    let c = GOLDEN_GAMMA as int;
    let qa = lemma_state_after(state, first);
    let qb = lemma_state_after(state, second);
    if state_after(state, first) == state_after(state, second) {
        let d = second - first;
        let q = qb - qa;
        assert(d * c == q * m) by (nonlinear_arith)
            requires
                d == second - first,
                q == qb - qa,
                state + first * c == state_after(state, first) + qa * m,
                state + second * c == state_after(state, second) + qb * m,
                state_after(state, first) == state_after(state, second),
        ;
        // The inverse of `c` modulo two to the power of sixty-four.
        assert(d == m * (q * 0xf1de83e19937733dint - d * 0x957bbf35006ed677int)) by (nonlinear_arith)
            requires
                d * c == q * m,
                m == 0x1_0000_0000_0000_0000int,
                c == 0x9e3779b97f4a7c15int,
        ;
        let t = q * 0xf1de83e19937733dint - d * 0x957bbf35006ed677int;
        assert(d == m * t);
        assert(false) by (nonlinear_arith)
            requires
                d == m * t,
                0 < d < m,
                m > 0,
        ;
    }
    different_states_give_different_numbers(
        state_after(state, first),
        state_after(state, second),
    );
}

/// Two numbers drawn one after the other from any state differ.
pub proof fn consecutive_numbers_differ(state: u64)
    ensures
        mixed(state.wrapping_add(GOLDEN_GAMMA)) != mixed(
            state.wrapping_add(GOLDEN_GAMMA).wrapping_add(GOLDEN_GAMMA),
        ),
{
    different_states_give_different_numbers(
        state.wrapping_add(GOLDEN_GAMMA),
        state.wrapping_add(GOLDEN_GAMMA).wrapping_add(GOLDEN_GAMMA),
    );
}

/// The steps between a state and its number: three times the state is mixed with its own upper bits,
/// by 30, 27 and 31 places, with a multiplication between.
pub proof fn numbers_come_from_three_mixings(state: u64, a: u64, b: u64)
    requires
        a == (state ^ (state >> 30)).wrapping_mul(13787848793156543929),
        b == (a ^ (a >> 27)).wrapping_mul(10723151780598845931),
    ensures
        mixed(state) == b ^ (b >> 31),
        state_after(state, 0) == state,
        state_after(state, 1) == state.wrapping_add(11400714819323198485),
{
    reveal_with_fuel(state_after, 2);
}

} // verus!
