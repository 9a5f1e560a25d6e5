//! The banded palette: from a divergence to a red, green and blue byte.

use crate::divergence::Divergence;
use vstd::prelude::*;

verus! {

/// The fraction `step / budget` scaled by `2^32` and truncated to an integer.
pub open spec fn scaled_fraction(step: nat, budget: nat) -> nat {
    (step * 0x1_0000_0000) / budget
}

/// The three colour bytes of a scaled fraction: its lowest byte is red, the
/// next one green and the third one blue. The highest byte is not used.
pub open spec fn channels_of(scaled: nat) -> Seq<u8> {
    seq![
        (scaled % 256) as u8,
        ((scaled / 256) % 256) as u8,
        ((scaled / 65536) % 256) as u8,
    ]
}

/// The colour of a divergence: black for an interior point, and the channels
/// of the scaled fraction for a point that escaped.
pub open spec fn color_of(divergence: Option<(nat, nat)>) -> Seq<u8> {
    match divergence {
        Some((step, budget)) => channels_of(scaled_fraction(step, budget)),
        None => seq![0u8, 0u8, 0u8],
    }
}

/// A fraction below one scales to a value that fits in 32 bits.
pub proof fn lemma_scaled_fraction_fits(step: nat, budget: nat)
    requires
        step < budget,
    ensures
        scaled_fraction(step, budget) < 0x1_0000_0000,
{
    assert(step * 0x1_0000_0000 < budget * 0x1_0000_0000) by (nonlinear_arith)
        requires
            step < budget,
    ;
    vstd::arithmetic::div_mod::lemma_div_by_multiple_is_strongly_ordered(
        (step * 0x1_0000_0000) as int,
        (budget * 0x1_0000_0000) as int,
        0x1_0000_0000,
        budget as int,
    );
    assert(budget * 0x1_0000_0000 == 0x1_0000_0000 * budget) by (nonlinear_arith);
    vstd::arithmetic::div_mod::lemma_div_multiples_vanish(0x1_0000_0000, budget as int);
}

/// The colour depends on the value of the fraction alone: two divergences
/// that stand for the same fraction, whatever their budgets, get the same
/// colour.
pub proof fn lemma_color_of_equal_fractions(step: nat, budget: nat, other_step: nat, other_budget: nat)
    requires
        step < budget,
        other_step < other_budget,
        step * other_budget == other_step * budget,
    ensures
        color_of(Some((step, budget))) == color_of(Some((other_step, other_budget))),
{
    let k: int = 0x1_0000_0000;
    let q = scaled_fraction(step, budget) as int;
    vstd::arithmetic::div_mod::lemma_fundamental_div_mod(step * k, budget as int);
    let r = (step * k) % (budget as int);
    // Scale the division of `step * k` by `budget` up by `other_budget`, then
    // cancel `budget`.
    assert(other_step * k * budget == (other_budget * q) * budget + r * other_budget)
        by (nonlinear_arith)
        requires
            step * k == budget * q + r,
            step * other_budget == other_step * budget,
    ;
    assert(other_budget * q <= other_step * k < other_budget * q + other_budget)
        by (nonlinear_arith)
        requires
            other_step * k * budget == (other_budget * q) * budget + r * other_budget,
            0 <= r < budget,
            other_budget > 0,
            budget > 0,
    ;
    let rest = other_step * k - other_budget * q;
    vstd::arithmetic::div_mod::lemma_fundamental_div_mod_converse(
        other_step * k,
        other_budget as int,
        q,
        rest,
    );
}

/// Maps a divergence to its colour.
///
/// An interior point is black. For a point that escaped, the fraction
/// `step / budget` is scaled by `2^32` and truncated; the three lowest bytes
/// of the result, lowest first, are the red, green and blue channels.
pub fn map_color(x: Divergence) -> (rgb: [u8; 3])
    ensures
        rgb@ == color_of(x@),
{
    match x.parts() {
        None => [0u8, 0u8, 0u8],
        Some((step, budget)) => {
            proof {
                lemma_scaled_fraction_fits(step as nat, budget as nat);
                assert(step * 0x1_0000_0000 <= 0xffff_ffff * 0x1_0000_0000) by (nonlinear_arith)
                    requires
                        step <= 0xffff_ffff,
                ;
            }
            let wide: u64 = (step as u64 * 0x1_0000_0000u64) / (budget as u64);
            let num: u32 = wide as u32;
            let red: u8 = (num & 0xff) as u8;
            let green: u8 = ((num >> 8) & 0xff) as u8;
            let blue: u8 = ((num >> 16) & 0xff) as u8;
            proof {
                assert(num & 0xff == num % 256) by (bit_vector);
                assert((num >> 8) & 0xff == (num / 256) % 256) by (bit_vector);
                assert((num >> 16) & 0xff == (num / 65536) % 256) by (bit_vector);
            }
            let rgb: [u8; 3] = [red, green, blue];
            rgb
        },
    }
}

} // verus!
