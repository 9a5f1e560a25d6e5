//! The escape-time iteration `z -> z^2 + c` on fixed-point coordinates.
//!
//! The orbit of `c` starts at `z_0 = c`. A point has escaped once the squared
//! magnitude of `z`, computed in fixed point as `re*re + im*im`, exceeds four.
//! The divergence of `c` under a budget of `n` iterations is the first `i < n`
//! at which `z_i` has escaped, kept together with `n`, or the interior mark
//! when no such `i` exists.

use crate::fixed_real::product_bits;
use crate::fixed_real::FixedReal;
use crate::fixed_real::ONE_BITS;
use vstd::prelude::*;

verus! {

/// Whether the point with bit patterns `(re, im)` lies outside the escape
/// radius: its fixed-point squared magnitude exceeds four.
pub open spec fn outside_radius(re: int, im: int) -> bool {
    product_bits(re, re) + product_bits(im, im) > 4 * ONE_BITS
}

/// Real part of `z^2 + c` for `z = (re, im)`.
pub open spec fn next_re(re: int, im: int, c_re: int) -> int {
    product_bits(re, re) - product_bits(im, im) + c_re
}

/// Imaginary part of `z^2 + c` for `z = (re, im)`.
pub open spec fn next_im(re: int, im: int, c_im: int) -> int {
    product_bits(2 * re, im) + c_im
}

/// The `n`-th point of the orbit of `c`, with `z_0 = c`.
pub open spec fn orbit(c_re: int, c_im: int, n: nat) -> (int, int)
    decreases n,
{
    if n == 0 {
        (c_re, c_im)
    } else {
        let z = orbit(c_re, c_im, (n - 1) as nat);
        (next_re(z.0, z.1, c_re), next_im(z.0, z.1, c_im))
    }
}

/// Whether the `n`-th point of the orbit of `c` lies outside the escape radius.
pub open spec fn escaped_at(c_re: int, c_im: int, n: nat) -> bool {
    outside_radius(orbit(c_re, c_im, n).0, orbit(c_re, c_im, n).1)
}

/// The first iteration below `budget` at which the orbit of `c` has escaped.
pub open spec fn first_escape(c_re: int, c_im: int, budget: nat) -> Option<nat>
    decreases budget,
{
    if budget == 0 {
        None
    } else {
        match first_escape(c_re, c_im, (budget - 1) as nat) {
            Some(step) => Some(step),
            None => if escaped_at(c_re, c_im, (budget - 1) as nat) {
                Some((budget - 1) as nat)
            } else {
                None
            },
        }
    }
}

/// The divergence of `c` under `budget` iterations: the escape iteration paired
/// with the budget, or `None` for a point that stays inside.
pub open spec fn divergence_of(c_re: int, c_im: int, budget: nat) -> Option<(nat, nat)> {
    match first_escape(c_re, c_im, budget) {
        Some(step) => Some((step, budget)),
        None => None,
    }
}

/// `first_escape` is the least escaping iteration below the budget: it is
/// `Some(step)` exactly when `step` is below the budget, the orbit has escaped
/// at `step`, and it has not escaped at any earlier iteration.
pub proof fn lemma_first_escape(c_re: int, c_im: int, budget: nat, step: nat)
    ensures
        first_escape(c_re, c_im, budget) == Some(step) <==> {
            &&& step < budget
            &&& escaped_at(c_re, c_im, step)
            &&& forall|j: nat| j < step ==> !escaped_at(c_re, c_im, j)
        },
        first_escape(c_re, c_im, budget) is None <==> forall|j: nat|
            j < budget ==> !escaped_at(c_re, c_im, j),
    decreases budget,
{
    if budget > 0 {
        let before = (budget - 1) as nat;
        lemma_first_escape(c_re, c_im, before, step);
        match first_escape(c_re, c_im, before) {
            Some(earlier) => {
                lemma_first_escape(c_re, c_im, before, earlier);
            },
            None => {},
        }
    }
}

/// A divergence lies in `[0, (n - 1) / n]` for the budget `n` it was computed
/// under, or is the interior mark: an escape iteration is always below the
/// budget, and the budget is the one that was given.
pub proof fn lemma_divergence_range(c_re: int, c_im: int, budget: nat)
    ensures
        match divergence_of(c_re, c_im, budget) {
            Some((step, of)) => of == budget && step < budget && step * budget <= (budget - 1)
                * budget,
            None => true,
        },
{
    match first_escape(c_re, c_im, budget) {
        Some(step) => {
            lemma_first_escape(c_re, c_im, budget, step);
            assert(step * budget <= (budget - 1) * budget) by (nonlinear_arith)
                requires
                    step < budget,
            ;
        },
        None => {},
    }
}

/// Raising the budget never moves an escape: a point that escapes at `step`
/// under `budget` escapes at the same `step` under every larger budget, twice
/// the budget among them.
pub proof fn lemma_refinement(c_re: int, c_im: int, budget: nat, larger: nat, step: nat)
    requires
        budget <= larger,
        first_escape(c_re, c_im, budget) == Some(step),
    ensures
        first_escape(c_re, c_im, larger) == Some(step),
        first_escape(c_re, c_im, 2 * budget) == Some(step),
{
    lemma_first_escape(c_re, c_im, budget, step);
    lemma_first_escape(c_re, c_im, larger, step);
    lemma_first_escape(c_re, c_im, 2 * budget, step);
}

/// The orbit of the origin never leaves the origin.
pub proof fn lemma_origin_orbit(n: nat)
    ensures
        orbit(0, 0, n) == (0int, 0int),
        !escaped_at(0, 0, n),
    decreases n,
{
    if n > 0 {
        lemma_origin_orbit((n - 1) as nat);
    }
}

/// The origin is an interior point under every budget.
pub proof fn lemma_origin_interior(budget: nat)
    ensures
        divergence_of(0, 0, budget) is None,
{
    assert forall|j: nat| j < budget implies !escaped_at(0, 0, j) by {
        lemma_origin_orbit(j);
    }
    lemma_first_escape(0, 0, budget, 0);
}

/// A point with a coordinate of magnitude above two lies outside the escape
/// radius, so under any budget of at least one iteration it escapes at
/// iteration zero.
pub proof fn lemma_far_point_escapes_at_once(c_re: int, c_im: int, budget: nat)
    requires
        !within_two(c_re) || !within_two(c_im),
        budget >= 1,
    ensures
        divergence_of(c_re, c_im, budget) == Some((0nat, budget)),
{
    lemma_square(c_re);
    lemma_square(c_im);
    lemma_first_escape(c_re, c_im, budget, 0);
}

/// A point of an orbit that lies within the escape radius has both
/// coordinates of magnitude at most two.
pub proof fn lemma_orbit_stays_within_two(c_re: int, c_im: int, n: nat)
    requires
        !escaped_at(c_re, c_im, n),
    ensures
        within_two(orbit(c_re, c_im, n).0),
        within_two(orbit(c_re, c_im, n).1),
{
    lemma_square(orbit(c_re, c_im, n).0);
    lemma_square(orbit(c_re, c_im, n).1);
}

/// How fast a point leaves the escape radius: an escape iteration together
/// with the budget it was found under, or the interior mark for a point that
/// did not escape. The view is `Some((step, budget))` with `step < budget`,
/// standing for the fraction `step / budget`, or `None` for the interior mark,
/// which is therefore distinct from an escape at iteration zero.
#[derive(Clone, Copy, Debug, PartialEq, Eq, Structural)]
pub struct Divergence {
    escaped: bool,
    step: u32,
    budget: u32,
}

impl View for Divergence {
    type V = Option<(nat, nat)>;

    closed spec fn view(&self) -> Option<(nat, nat)> {
        if self.escaped {
            Some((self.step as nat, self.budget as nat))
        } else {
            None
        }
    }
}

impl Divergence {
    #[verifier::type_invariant]
    spec fn well_formed(&self) -> bool {
        if self.escaped {
            self.step < self.budget
        } else {
            self.step == 0 && self.budget == 0
        }
    }

    /// The interior mark.
    pub fn interior() -> (d: Divergence)
        ensures
            d@ is None,
    {
        Divergence { escaped: false, step: 0, budget: 0 }
    }

    /// An escape at iteration `step` under `budget` iterations, or `None` when
    /// `step` is not below `budget`.
    pub fn escaped(step: u32, budget: u32) -> (r: Option<Divergence>)
        ensures
            match r {
                Some(d) => step < budget && d@ == Some((step as nat, budget as nat)),
                None => step >= budget,
            },
    {
        if step < budget {
            Some(Divergence { escaped: true, step, budget })
        } else {
            None
        }
    }

    /// Whether this is the interior mark.
    pub fn is_interior(&self) -> (r: bool)
        ensures
            r == (self@ is None),
    {
        !self.escaped
    }

    /// The escape iteration and the budget, with the iteration below the
    /// budget, or `None` for the interior mark.
    pub fn parts(&self) -> (r: Option<(u32, u32)>)
        ensures
            match r {
                Some((step, budget)) => step < budget && self@ == Some(
                    (step as nat, budget as nat),
                ),
                None => self@ is None,
            },
    {
        proof {
            use_type_invariant(self);
        }
        if self.escaped {
            Some((self.step, self.budget))
        } else {
            None
        }
    }
}

/// Whether the value with bit pattern `v` has a magnitude of at most two.
pub open spec fn within_two(v: int) -> bool {
    -2 * ONE_BITS <= v <= 2 * ONE_BITS
}

/// A fixed-point square is never negative, and one that is at most four
/// belongs to a value of magnitude at most two.
pub proof fn lemma_square(v: int)
    ensures
        product_bits(v, v) >= 0,
        product_bits(v, v) <= 4 * ONE_BITS ==> within_two(v),
{
    let s = ONE_BITS as int;
    assert(v * v >= 0) by (nonlinear_arith);
    if v > 2 * s {
        assert(v * v >= (2 * s + 1) * (2 * s + 1)) by (nonlinear_arith)
            requires
                v >= 2 * s + 1,
                s > 0,
        ;
    }
    if v < -2 * s {
        assert(v * v >= (2 * s + 1) * (2 * s + 1)) by (nonlinear_arith)
            requires
                -v >= 2 * s + 1,
                s > 0,
        ;
    }
}

/// The fixed-point product of a value of magnitude at most four with one of
/// magnitude at most two has magnitude at most eight.
proof fn lemma_product_bound(p: int, q: int)
    requires
        -4 * ONE_BITS <= p <= 4 * ONE_BITS,
        within_two(q),
    ensures
        -8 * ONE_BITS <= product_bits(p, q) <= 8 * ONE_BITS,
{
    let s = ONE_BITS as int;
    assert(-(8 * s * s) <= p * q <= 8 * s * s) by (nonlinear_arith)
        requires
            -4 * s <= p <= 4 * s,
            -2 * s <= q <= 2 * s,
            s > 0,
    ;
}

/// Tests a point against the escape radius. Returns `None` when it lies
/// outside, and its two fixed-point squares when it lies inside.
fn squares_within_radius(re: FixedReal, im: FixedReal) -> (r: Option<(FixedReal, FixedReal)>)
    ensures
        match r {
            Some((re_sq, im_sq)) => {
                &&& !outside_radius(re@, im@)
                &&& re_sq@ == product_bits(re@, re@)
                &&& im_sq@ == product_bits(im@, im@)
            },
            None => outside_radius(re@, im@),
        },
{
    proof {
        lemma_square(re@);
        lemma_square(im@);
    }
    let four = FixedReal::from_bits(4 * ONE_BITS);
    let re_sq = match re.checked_mul(re) {
        Some(v) => v,
        None => {
            return None;
        },
    };
    let im_sq = match im.checked_mul(im) {
        Some(v) => v,
        None => {
            return None;
        },
    };
    match re_sq.checked_add(im_sq) {
        Some(magnitude_sq) => if magnitude_sq.gt(four) {
            None
        } else {
            Some((re_sq, im_sq))
        },
        None => None,
    }
}

/// Divergence of the point `(a, b)` under `max_iter` iterations.
///
/// The orbit starts at `z_0 = (a, b)`. Iteration `i` tests `z_i` against the
/// escape radius and, if it has not escaped, moves on to `z_i^2 + (a, b)`. A
/// point whose squared magnitude is too large to represent lies outside the
/// radius; past that test no step of the iteration can leave the
/// representable range.
pub fn calc_mandle_divergence(a: FixedReal, b: FixedReal, max_iter: u32) -> (r: Divergence)
    ensures
        r@ == divergence_of(a@, b@, max_iter as nat),
        r@ matches Some((step, budget)) ==> step < budget && budget == max_iter,
{
    let mut re = a;
    let mut im = b;
    let mut i: u32 = 0;
    while i < max_iter
        invariant
            i <= max_iter,
            (re@, im@) == orbit(a@, b@, i as nat),
            first_escape(a@, b@, i as nat) is None,
            i > 0 ==> within_two(a@) && within_two(b@),
        decreases max_iter - i,
    {
        let (re_sq, im_sq) = match squares_within_radius(re, im) {
            Some(squares) => squares,
            None => {
                proof {
                    lemma_first_escape(a@, b@, i as nat, i as nat);
                    lemma_first_escape(a@, b@, max_iter as nat, i as nat);
                }
                return Divergence::escaped(i, max_iter).unwrap();
            },
        };
        proof {
            lemma_square(re@);
            lemma_square(im@);
            lemma_product_bound(2 * re@, im@);
        }
        let next_re = re_sq.checked_sub(im_sq).unwrap().checked_add(a).unwrap();
        let doubled = re.checked_mul_int(2).unwrap();
        let next_im = doubled.checked_mul(im).unwrap().checked_add(b).unwrap();
        re = next_re;
        im = next_im;
        i = i + 1;
    }
    proof {
        lemma_first_escape(a@, b@, max_iter as nat, 0);
    }
    Divergence::interior()
}

} // verus!
