use fixed::types::extra::U117;
use fixed::FixedI128;
use mandelbrot::divergence::calc_mandle_divergence;
use mandelbrot::divergence::Divergence;
use mandelbrot::fixed_real::FixedReal;

type Fixed117 = FixedI128<U117>;

fn fx(value: f64) -> FixedReal {
    FixedReal::from_bits(Fixed117::from_num(value).to_bits())
}

fn divergence(re: f64, im: f64, budget: u32) -> Divergence {
    calc_mandle_divergence(fx(re), fx(im), budget)
}

/// The iteration written directly on the fixed-point crate, with the same
/// escape test. Only called on points of magnitude below 32.
fn escape_on_fixed(re: f64, im: f64, budget: u32) -> Option<u32> {
    let c_re: Fixed117 = Fixed117::from_num(re);
    let c_im: Fixed117 = Fixed117::from_num(im);
    let mut a: Fixed117 = c_re;
    let mut b: Fixed117 = c_im;
    for i in 0..budget {
        if a * a + b * b > Fixed117::from_num(4) {
            return Some(i);
        }
        let next_a: Fixed117 = a * a - b * b + c_re;
        let next_b: Fixed117 = Fixed117::from_num(2) * a * b + c_im;
        a = next_a;
        b = next_b;
    }
    None
}

#[test]
fn divergence_constructors() {
    assert!(Divergence::interior().is_interior());
    assert_eq!(Divergence::interior().parts(), None);
    let escaped: Divergence = Divergence::escaped(3, 10).unwrap();
    assert!(!escaped.is_interior());
    assert_eq!(escaped.parts(), Some((3, 10)));
    assert_eq!(Divergence::escaped(0, 1).unwrap().parts(), Some((0, 1)));
    assert_eq!(Divergence::escaped(10, 10), None);
    assert_eq!(Divergence::escaped(11, 10), None);
    assert_eq!(Divergence::escaped(0, 0), None);
}

#[test]
fn escape_at_zero_is_not_the_interior_mark() {
    let at_zero: Divergence = Divergence::escaped(0, 10).unwrap();
    assert_ne!(at_zero, Divergence::interior());
    assert_ne!(divergence(3.0, 0.0, 10), divergence(0.0, 0.0, 10));
    assert_eq!(divergence(3.0, 0.0, 10).parts(), Some((0, 10)));
    assert_eq!(divergence(0.0, 0.0, 10).parts(), None);
}

#[test]
fn origin_is_interior_for_every_budget() {
    let budgets: [u32; 6] = [1, 2, 10, 300, 1000, 5000];
    for budget in budgets {
        assert!(divergence(0.0, 0.0, budget).is_interior());
    }
}

#[test]
fn zero_budget_gives_the_interior_mark() {
    assert!(divergence(0.0, 0.0, 0).is_interior());
    assert!(divergence(100.0, 100.0, 0).is_interior());
}

#[test]
fn known_orbits() {
    // 2: |z_0|^2 = 4 does not exceed four, z_1 = 6 does.
    assert_eq!(divergence(2.0, 0.0, 10).parts(), Some((1, 10)));
    // 1: 1, 2, 5.
    assert_eq!(divergence(1.0, 0.0, 10).parts(), Some((2, 10)));
    // 1 + i: 1 + i, 1 + 3i.
    assert_eq!(divergence(1.0, 1.0, 10).parts(), Some((1, 10)));
    // -2 - 2i starts outside.
    assert_eq!(divergence(-2.0, -2.0, 10).parts(), Some((0, 10)));
    // -1 cycles between -1 and 0.
    assert!(divergence(-1.0, 0.0, 1000).is_interior());
    // i: i, -1 + i, -i, -1 + i, ...
    assert!(divergence(0.0, 1.0, 1000).is_interior());
    // -2 stays at 2 in magnitude: 4 does not exceed four.
    assert!(divergence(-2.0, 0.0, 1000).is_interior());
    // 0.5: 0.5, 0.75, 1.0625, 1.62890625, 3.1533...
    assert_eq!(divergence(0.5, 0.0, 100).parts(), Some((4, 100)));
}

#[test]
fn budget_cuts_the_orbit_short() {
    assert!(divergence(1.0, 0.0, 1).is_interior());
    assert!(divergence(1.0, 0.0, 2).is_interior());
    assert_eq!(divergence(1.0, 0.0, 3).parts(), Some((2, 3)));
    assert_eq!(divergence(3.0, 0.0, 1).parts(), Some((0, 1)));
}

#[test]
fn far_points_escape_at_once() {
    let extremes: [i128; 4] = [i128::MAX, i128::MIN, i128::MAX - 1, i128::MIN + 1];
    for re in extremes {
        for im in extremes {
            let d: Divergence =
                calc_mandle_divergence(FixedReal::from_bits(re), FixedReal::from_bits(im), 7);
            assert_eq!(d.parts(), Some((0, 7)));
        }
        let d: Divergence =
            calc_mandle_divergence(FixedReal::from_bits(re), FixedReal::from_bits(0), 7);
        assert_eq!(d.parts(), Some((0, 7)));
        let d: Divergence =
            calc_mandle_divergence(FixedReal::from_bits(0), FixedReal::from_bits(re), 7);
        assert_eq!(d.parts(), Some((0, 7)));
    }
    assert_eq!(divergence(32.0, 0.0, 7).parts(), Some((0, 7)));
    assert_eq!(divergence(0.0, -1023.0, 7).parts(), Some((0, 7)));
    assert_eq!(divergence(45.0, 45.0, 7).parts(), Some((0, 7)));
}

#[test]
fn result_lies_in_range() {
    let budgets: [u32; 4] = [1, 2, 17, 64];
    for budget in budgets {
        for xi in -12i32..=12 {
            for yi in -12i32..=12 {
                let d: Divergence = divergence(xi as f64 * 0.21, yi as f64 * 0.21, budget);
                match d.parts() {
                    Some((step, of)) => {
                        assert_eq!(of, budget);
                        assert!(step < budget);
                        let fraction: f64 = step as f64 / of as f64;
                        assert!(0.0 <= fraction);
                        assert!(fraction <= (budget - 1) as f64 / budget as f64);
                    }
                    None => assert!(d.is_interior()),
                }
            }
        }
    }
}

#[test]
fn doubling_the_budget_keeps_the_escape() {
    for budget in 1u32..=12 {
        for xi in -10i32..=10 {
            for yi in -10i32..=10 {
                let re: f64 = xi as f64 * 0.23;
                let im: f64 = yi as f64 * 0.23;
                if let Some((step, _)) = divergence(re, im, budget).parts() {
                    assert_eq!(divergence(re, im, 2 * budget).parts(), Some((step, 2 * budget)));
                }
            }
        }
    }
}

#[test]
fn agrees_with_the_iteration_on_the_fixed_point_crate() {
    for xi in -25i32..=25 {
        for yi in -25i32..=25 {
            let re: f64 = xi as f64 * 0.1 - 0.013;
            let im: f64 = yi as f64 * 0.1 + 0.007;
            let expected: Option<(u32, u32)> = escape_on_fixed(re, im, 60).map(|step| (step, 60));
            assert_eq!(divergence(re, im, 60).parts(), expected);
        }
    }
}

#[test]
fn deep_zoom_neighbours_are_told_apart() {
    // Two points 2^-100 apart near the boundary keep distinct coordinates.
    let base: FixedReal = fx(-0.75);
    let step: FixedReal = FixedReal::from_bits(1i128 << 17);
    let neighbour: FixedReal = base.checked_add(step).unwrap();
    assert_ne!(base, neighbour);
    let d: Divergence = calc_mandle_divergence(neighbour, fx(0.05), 200);
    assert_eq!(d.parts(), escape_on_fixed_bits(neighbour.bits, fx(0.05).bits, 200));
}

fn escape_on_fixed_bits(re: i128, im: i128, budget: u32) -> Option<(u32, u32)> {
    let c_re: Fixed117 = Fixed117::from_bits(re);
    let c_im: Fixed117 = Fixed117::from_bits(im);
    let mut a: Fixed117 = c_re;
    let mut b: Fixed117 = c_im;
    for i in 0..budget {
        if a * a + b * b > Fixed117::from_num(4) {
            return Some((i, budget));
        }
        let next_a: Fixed117 = a * a - b * b + c_re;
        let next_b: Fixed117 = Fixed117::from_num(2) * a * b + c_im;
        a = next_a;
        b = next_b;
    }
    None
}
