//! The derivation engine: a pure map from (clock value, identity, archetype,
//! counter) to (fortune id, rarity tier).
//!
//! Both outputs are residues of a 64-bit wrapping mix. The spec functions
//! state each mix as one sum over the mathematical integers, reduced modulo
//! 2^64 once; the executable code performs the wrapping steps one by one and
//! is proved to arrive at the same residue.

use vstd::prelude::*;
use vstd::wrapping::u64_specs;

verus! {

/// The modulus of 64-bit wrapping arithmetic, 2^64.
pub open spec fn word() -> int {
    0x1_0000_0000_0000_0000
}

/// The sum of `bytes[i] * (i + offset)` over the first `n` positions.
pub open spec fn weighted_sum(bytes: Seq<u8>, offset: int, n: nat) -> int
    decreases n,
{
    if n == 0 {
        0
    } else {
        weighted_sum(bytes, offset, (n - 1) as nat) + bytes[n - 1] * (n - 1 + offset)
    }
}

/// The fortune seed: the clock value, plus every identity byte weighted by its
/// one-based position, plus archetype and counter, modulo 2^64.
pub open spec fn fortune_seed(clock: u64, identity: Seq<u8>, archetype: u8, counter: u64) -> int {
    (clock + weighted_sum(identity, 1, identity.len()) + archetype + counter) % word()
}

/// The fortune id: the fortune seed modulo 50.
pub open spec fn fortune_id_of(clock: u64, identity: Seq<u8>, archetype: u8, counter: u64) -> int {
    fortune_seed(clock, identity, archetype, counter) % 50
}

/// The rarity seed: seven times the clock value, plus every identity byte
/// weighted by three plus its distance from the last byte, plus the archetype,
/// the whole times thirteen, modulo 2^64.
pub open spec fn rarity_seed(clock: u64, identity: Seq<u8>, archetype: u8) -> int {
    ((clock * 7 + weighted_sum(identity.reverse(), 3, identity.len()) + archetype) * 13) % word()
}

/// The rarity score: the rarity seed modulo 100.
pub open spec fn rarity_score_of(clock: u64, identity: Seq<u8>, archetype: u8) -> int {
    rarity_seed(clock, identity, archetype) % 100
}

/// The tier of a score: common below 70, uncommon below 90, rare below 99,
/// legendary from 99 on.
pub open spec fn tier_of_score(score: int) -> int {
    if score < 70 {
        0
    } else if score < 90 {
        1
    } else if score < 99 {
        2
    } else {
        3
    }
}

/// The rarity tier of a derivation.
pub open spec fn rarity_tier_of(clock: u64, identity: Seq<u8>, archetype: u8) -> int {
    tier_of_score(rarity_score_of(clock, identity, archetype))
}

/// Every derivation yields a fortune id in `[0, 50)`, a rarity score in
/// `[0, 100)` and a rarity tier in `{0, 1, 2, 3}`.
pub proof fn lemma_outcome_in_range(clock: u64, identity: Seq<u8>, archetype: u8, counter: u64)
    ensures
        0 <= fortune_id_of(clock, identity, archetype, counter) < 50,
        0 <= rarity_score_of(clock, identity, archetype) < 100,
        0 <= rarity_tier_of(clock, identity, archetype) <= 3,
{
}

/// The tiers split the scores 70 : 20 : 9 : 1.
pub proof fn lemma_tier_thresholds(score: int)
    requires
        0 <= score < 100,
    ensures
        tier_of_score(score) == 0 <==> score < 70,
        tier_of_score(score) == 1 <==> 70 <= score < 90,
        tier_of_score(score) == 2 <==> 90 <= score < 99,
        tier_of_score(score) == 3 <==> score == 99,
{
}

/// Two derivations from the same clock value, identity bytes, archetype and
/// counter have the same outcome.
pub proof fn lemma_derivation_deterministic(
    clock_a: u64,
    identity_a: [u8; 32],
    archetype_a: u8,
    counter_a: u64,
    clock_b: u64,
    identity_b: [u8; 32],
    archetype_b: u8,
    counter_b: u64,
)
    requires
        clock_a == clock_b,
        identity_a@ == identity_b@,
        archetype_a == archetype_b,
        counter_a == counter_b,
    ensures
        fortune_id_of(clock_a, identity_a@, archetype_a, counter_a) == fortune_id_of(
            clock_b,
            identity_b@,
            archetype_b,
            counter_b,
        ),
        rarity_tier_of(clock_a, identity_a@, archetype_a) == rarity_tier_of(
            clock_b,
            identity_b@,
            archetype_b,
        ),
{
}

/// Raising the counter by one always changes the fortune id, also where the
/// seed wraps around.
pub proof fn lemma_next_counter_changes_fortune(
    clock: u64,
    identity: Seq<u8>,
    archetype: u8,
    counter: u64,
)
    requires
        counter < u64::MAX,
    ensures
        fortune_id_of(clock, identity, archetype, counter) != fortune_id_of(
            clock,
            identity,
            archetype,
            (counter + 1) as u64,
        ),
{
    let total = clock + weighted_sum(identity, 1, identity.len()) + archetype + counter;
    let seed = total % word();
    vstd::arithmetic::div_mod::lemma_add_mod_noop(total, 1, word());
    vstd::arithmetic::div_mod::lemma_small_mod(1, word() as nat);
    assert((total + 1) % word() == (seed + 1) % word());
    if seed + 1 < word() {
        vstd::arithmetic::div_mod::lemma_small_mod((seed + 1) as nat, word() as nat);
    } else {
        assert(seed + 1 == word());
        assert(seed % 50 == 15);
    }
}

/// One weighted identity byte never exceeds the 64-bit range, so multiplying
/// with wraparound gives the exact product.
proof fn lemma_term_exact(byte: u8, weight: u64)
    requires
        weight <= 64,
    ensures
        0 <= byte * weight < word(),
        u64_specs::wrapping_mul(byte as u64, weight) == byte * weight,
{
    assert(0 <= byte * weight <= 255 * 64) by (nonlinear_arith)
        requires
            0 <= byte <= 255,
            0 <= weight <= 64,
    ;
    assert((byte as u64) as nat * (weight as nat) == byte * weight);
}

/// Adding with wraparound to a residue of `total` gives the residue of the
/// enlarged total.
proof fn lemma_wrapping_add_residue(acc: u64, total: int, term: u64)
    requires
        acc == total % word(),
    ensures
        u64_specs::wrapping_add(acc, term) == (total + term) % word(),
{
    vstd::arithmetic::div_mod::lemma_add_mod_noop(total, term as int, word());
    vstd::arithmetic::div_mod::lemma_small_mod(term as nat, word() as nat);
    assert((acc + term) % word() == u64_specs::wrapping_add(acc, term) as int) by {
        if acc + term > u64::MAX {
            vstd::arithmetic::div_mod::lemma_mod_sub_multiples_vanish(acc + term, word());
            vstd::arithmetic::div_mod::lemma_small_mod((acc + term - word()) as nat, word() as nat);
        } else {
            vstd::arithmetic::div_mod::lemma_small_mod((acc + term) as nat, word() as nat);
        }
    }
}

/// Multiplying a residue of `total` by `factor` with wraparound gives the
/// residue of `total * factor`.
proof fn lemma_wrapping_mul_residue(acc: u64, total: int, factor: u64)
    requires
        acc == total % word(),
    ensures
        u64_specs::wrapping_mul(acc, factor) == (total * factor) % word(),
{
    vstd::arithmetic::div_mod::lemma_mul_mod_noop_left(total, factor as int, word());
    assert(acc as nat * factor as nat == acc * factor) by (nonlinear_arith)
        requires
            0 <= acc,
            0 <= factor,
    ;
}

/// Mixes the fortune seed with wrapping 64-bit steps.
fn mix_fortune(clock: u64, identity: &[u8; 32], archetype: u8, counter: u64) -> (seed: u64)
    ensures
        seed == fortune_seed(clock, identity@, archetype, counter),
{
    let mut seed: u64 = clock;
    let mut i: usize = 0;
    proof {
        vstd::arithmetic::div_mod::lemma_small_mod(clock as nat, word() as nat);
    }
    while i < 32
        invariant
            0 <= i <= 32,
            identity@.len() == 32,
            seed == (clock + weighted_sum(identity@, 1, i as nat)) % word(),
        decreases 32 - i,
    {
        let weight: u64 = i as u64 + 1;
        let term: u64 = (identity[i] as u64).wrapping_mul(weight);
        proof {
            lemma_term_exact(identity[i as int], weight);
            lemma_wrapping_add_residue(seed, clock + weighted_sum(identity@, 1, i as nat), term);
        }
        seed = seed.wrapping_add(term);
        i = i + 1;
    }
    proof {
        let base = clock + weighted_sum(identity@, 1, 32);
        lemma_wrapping_add_residue(seed, base, archetype as u64);
        lemma_wrapping_add_residue(
            u64_specs::wrapping_add(seed, archetype as u64),
            base + archetype,
            counter,
        );
    }
    seed = seed.wrapping_add(archetype as u64);
    seed = seed.wrapping_add(counter);
    seed
}

/// Mixes the rarity seed with wrapping 64-bit steps, walking the identity
/// from its last byte to its first.
fn mix_rarity(clock: u64, identity: &[u8; 32], archetype: u8) -> (seed: u64)
    ensures
        seed == rarity_seed(clock, identity@, archetype),
{
    let mut seed: u64 = clock.wrapping_mul(7);
    let mut i: usize = 0;
    let ghost reversed = identity@.reverse();
    proof {
        vstd::arithmetic::div_mod::lemma_small_mod(clock as nat, word() as nat);
        lemma_wrapping_mul_residue(clock, clock as int, 7);
    }
    while i < 32
        invariant
            0 <= i <= 32,
            identity@.len() == 32,
            reversed == identity@.reverse(),
            seed == (clock * 7 + weighted_sum(reversed, 3, i as nat)) % word(),
        decreases 32 - i,
    {
        let weight: u64 = i as u64 + 3;
        let byte: u8 = identity[31 - i];
        let term: u64 = (byte as u64).wrapping_mul(weight);
        proof {
            assert(reversed[i as int] == byte);
            lemma_term_exact(byte, weight);
            lemma_wrapping_add_residue(seed, clock * 7 + weighted_sum(reversed, 3, i as nat), term);
        }
        seed = seed.wrapping_add(term);
        i = i + 1;
    }
    proof {
        let base = clock * 7 + weighted_sum(reversed, 3, 32);
        lemma_wrapping_add_residue(seed, base, archetype as u64);
        lemma_wrapping_mul_residue(
            u64_specs::wrapping_add(seed, archetype as u64),
            base + archetype,
            13,
        );
    }
    seed = seed.wrapping_add(archetype as u64).wrapping_mul(13);
    seed
}

/// Maps a rarity score to its tier.
pub fn rarity_tier(score: u64) -> (tier: u8)
    ensures
        tier == tier_of_score(score as int),
        tier <= 3,
{
    if score < 70 {
        0
    } else if score < 90 {
        1
    } else if score < 99 {
        2
    } else {
        3
    }
}

/// Derives the fortune id and the rarity tier of one opening.
///
/// Total and pure: every input has exactly one outcome, the fortune id lies
/// in `[0, 50)` and the tier in `{0, 1, 2, 3}`.
pub fn derive_fortune(clock: u64, identity: &[u8; 32], archetype: u8, counter: u64) -> (outcome: (
    u64,
    u8,
))
    ensures
        outcome.0 == fortune_id_of(clock, identity@, archetype, counter),
        outcome.1 == rarity_tier_of(clock, identity@, archetype),
        outcome.0 < 50,
        outcome.1 <= 3,
{
    let fortune_id: u64 = mix_fortune(clock, identity, archetype, counter) % 50;
    let score: u64 = mix_rarity(clock, identity, archetype) % 100;
    (fortune_id, rarity_tier(score))
}

} // verus!
