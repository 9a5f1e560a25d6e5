//! The viewport, the input actions that change it, and the store that the
//! input side and the rendering side share.

use crate::fixed_real::product_bits;
use crate::fixed_real::representable;
use crate::fixed_real::FixedReal;
use crate::fixed_real::ONE_BITS;
use vstd::prelude::*;
use vstd::rwlock::RwLock;

verus! {

/// Bit pattern of the factor of one zoom-in step, the double `0.95`.
pub const ZOOM_IN_BITS: i128 = 0x001E_6666_6666_6666_0000_0000_0000_0000;

/// Bit pattern of the factor of one zoom-out step, the double `1.05`.
pub const ZOOM_OUT_BITS: i128 = 0x0021_9999_9999_999A_0000_0000_0000_0000;

/// What a viewport holds, as mathematical values: the bit patterns of the
/// centre and of the zoom, and the iteration budget.
pub struct Viewport {
    pub x: int,
    pub y: int,
    pub zoom: int,
    pub iterations: nat,
}

/// A discrete action of the input side.
#[derive(Clone, Copy, Debug, PartialEq, Eq, Structural)]
pub enum InputAction {
    ZoomIn,
    ZoomOut,
    Quit,
}

/// What the input side does after an action.
#[derive(Clone, Copy, Debug, PartialEq, Eq, Structural)]
pub enum ControlFlow {
    /// Wait for the next action.
    Wait,
    /// Leave the event loop.
    Exit,
}

/// The zoom after one zoom-in step, or `None` when the step would take it to
/// zero.
pub open spec fn zoomed_in(zoom: int) -> Option<int> {
    let scaled = product_bits(zoom, ZOOM_IN_BITS as int);
    if scaled > 0 {
        Some(scaled)
    } else {
        None
    }
}

/// The zoom after one zoom-out step, or `None` when the step would take it out
/// of the representable range.
pub open spec fn zoomed_out(zoom: int) -> Option<int> {
    let scaled = product_bits(zoom, ZOOM_OUT_BITS as int);
    if representable(scaled) {
        Some(scaled)
    } else {
        None
    }
}

/// The viewport after an action. A zoom step that cannot be taken leaves the
/// viewport as it is, and so does `Quit`.
pub open spec fn applied(before: Viewport, action: InputAction) -> Viewport {
    match action {
        InputAction::ZoomIn => match zoomed_in(before.zoom) {
            Some(zoom) => Viewport { zoom, ..before },
            None => before,
        },
        InputAction::ZoomOut => match zoomed_out(before.zoom) {
            Some(zoom) => Viewport { zoom, ..before },
            None => before,
        },
        InputAction::Quit => before,
    }
}

/// Zooming in by one step never enlarges a positive zoom and takes it to zero
/// only from the smallest positive value; zooming out never shrinks it.
pub proof fn lemma_zoom_direction(zoom: int)
    requires
        zoom > 0,
    ensures
        0 <= product_bits(zoom, ZOOM_IN_BITS as int) <= zoom,
        zoom >= 2 ==> zoomed_in(zoom) is Some,
        product_bits(zoom, ZOOM_OUT_BITS as int) >= zoom,
{
    let s = ONE_BITS as int;
    let shrink = ZOOM_IN_BITS as int;
    let grow = ZOOM_OUT_BITS as int;
    assert(0 <= zoom * shrink <= zoom * s) by (nonlinear_arith)
        requires
            zoom > 0,
            0 <= shrink <= s,
    ;
    assert(zoom * grow >= zoom * s) by (nonlinear_arith)
        requires
            zoom > 0,
            grow >= s,
    ;
    assert(zoom * s == s * zoom) by (nonlinear_arith);
    vstd::arithmetic::div_mod::lemma_div_multiples_vanish(zoom, s);
    vstd::arithmetic::div_mod::lemma_div_is_ordered(zoom * shrink, zoom * s, s);
    vstd::arithmetic::div_mod::lemma_div_is_ordered(zoom * s, zoom * grow, s);
    if zoom >= 2 {
        assert(zoom * shrink >= 2 * shrink) by (nonlinear_arith)
            requires
                zoom >= 2,
                shrink >= 0,
        ;
        vstd::arithmetic::div_mod::lemma_div_is_ordered(2 * shrink, zoom * shrink, s);
    }
}

/// A viewport: the centre of the visible region, the zoom, which is the
/// distance in the plane between neighbouring pixels, and the iteration
/// budget. The zoom is always positive and the budget at least one.
#[derive(Clone, Copy, Debug, PartialEq, Eq, Structural)]
pub struct MandleParams {
    x: FixedReal,
    y: FixedReal,
    zoom: FixedReal,
    iterations: u32,
}

impl View for MandleParams {
    type V = Viewport;

    closed spec fn view(&self) -> Viewport {
        Viewport {
            x: self.x@,
            y: self.y@,
            zoom: self.zoom@,
            iterations: self.iterations as nat,
        }
    }
}

impl MandleParams {
    #[verifier::type_invariant]
    spec fn well_formed(&self) -> bool {
        self.zoom@ > 0 && self.iterations >= 1
    }

    /// A viewport with the given centre, zoom and budget, or `None` unless the
    /// zoom is positive and the budget at least one.
    pub fn new(x: FixedReal, y: FixedReal, zoom: FixedReal, iterations: u32) -> (r: Option<
        MandleParams,
    >)
        ensures
            match r {
                Some(params) => {
                    &&& zoom@ > 0
                    &&& iterations >= 1
                    &&& params@ == (Viewport {
                        x: x@,
                        y: y@,
                        zoom: zoom@,
                        iterations: iterations as nat,
                    })
                },
                None => zoom@ <= 0 || iterations == 0,
            },
    {
        if zoom.to_bits() > 0 && iterations >= 1 {
            Some(MandleParams { x, y, zoom, iterations })
        } else {
            None
        }
    }

    /// Real part of the centre.
    pub fn x(&self) -> (x: FixedReal)
        ensures
            x@ == self@.x,
    {
        self.x
    }

    /// Imaginary part of the centre.
    pub fn y(&self) -> (y: FixedReal)
        ensures
            y@ == self@.y,
    {
        self.y
    }

    /// The zoom, which is positive.
    pub fn zoom(&self) -> (zoom: FixedReal)
        ensures
            zoom@ == self@.zoom,
            zoom@ > 0,
    {
        proof {
            use_type_invariant(self);
        }
        self.zoom
    }

    /// The iteration budget, which is at least one.
    pub fn iterations(&self) -> (iterations: u32)
        ensures
            iterations == self@.iterations,
            iterations >= 1,
    {
        proof {
            use_type_invariant(self);
        }
        self.iterations
    }

    /// This viewport with the zoom multiplied by `0.95`, or `None` when the
    /// product rounds to zero.
    pub fn zoom_in(&self) -> (r: Option<MandleParams>)
        ensures
            match r {
                Some(params) => zoomed_in(self@.zoom) == Some(params@.zoom) && params@ == (Viewport {
                    zoom: params@.zoom,
                    ..self@
                }),
                None => zoomed_in(self@.zoom) is None,
            },
    {
        proof {
            use_type_invariant(self);
            lemma_zoom_direction(self.zoom@);
        }
        let factor = FixedReal::from_bits(ZOOM_IN_BITS);
        let zoom = self.zoom.checked_mul(factor).unwrap();
        if zoom.to_bits() > 0 {
            Some(MandleParams { x: self.x, y: self.y, zoom, iterations: self.iterations })
        } else {
            None
        }
    }

    /// This viewport with the zoom multiplied by `1.05`, or `None` when the
    /// product is not representable.
    pub fn zoom_out(&self) -> (r: Option<MandleParams>)
        ensures
            match r {
                Some(params) => zoomed_out(self@.zoom) == Some(params@.zoom) && params@ == (
                Viewport { zoom: params@.zoom, ..self@ }),
                None => zoomed_out(self@.zoom) is None,
            },
    {
        proof {
            use_type_invariant(self);
            lemma_zoom_direction(self.zoom@);
        }
        let factor = FixedReal::from_bits(ZOOM_OUT_BITS);
        match self.zoom.checked_mul(factor) {
            Some(zoom) => Some(
                MandleParams { x: self.x, y: self.y, zoom, iterations: self.iterations },
            ),
            None => None,
        }
    }

    /// The viewport after `action`.
    pub fn apply(&self, action: InputAction) -> (r: MandleParams)
        ensures
            r@ == applied(self@, action),
    {
        let changed = match action {
            InputAction::ZoomIn => self.zoom_in(),
            InputAction::ZoomOut => self.zoom_out(),
            InputAction::Quit => None,
        };
        match changed {
            Some(params) => params,
            None => *self,
        }
    }
}

/// What follows an action on the input side: `Quit` leaves the event loop,
/// every other action waits for the next one.
pub open spec fn control_flow_of(action: InputAction) -> ControlFlow {
    if action == InputAction::Quit {
        ControlFlow::Exit
    } else {
        ControlFlow::Wait
    }
}

/// The viewport shared by the input side, which writes it, and the rendering
/// side, which reads it.
///
/// The viewport sits behind one reader-writer lock and is only ever read or
/// replaced as a whole, under one hold of the lock. A store is made with a set
/// of viewports that it admits; every write must stay within that set, and in
/// return every snapshot lies within it. Taking the set of the viewports that
/// the writers actually write, a snapshot is always one of those, never the
/// fields of two of them side by side.
pub struct ParamStore {
    lock: RwLock<MandleParams, spec_fn(MandleParams) -> bool>,
}

impl ParamStore {
    /// Whether the store admits `params`.
    pub closed spec fn admits(&self, params: MandleParams) -> bool {
        self.lock.inv(params)
    }

    /// Whether applying `action` to an admitted viewport always gives an
    /// admitted viewport. A store that admits every viewport preserves every
    /// action.
    pub open spec fn preserves(&self, action: InputAction) -> bool {
        forall|before: MandleParams, after: MandleParams|
            #![trigger self.admits(before), self.admits(after)]
            self.admits(before) && after@ == applied(before@, action) ==> self.admits(after)
    }

    /// A store that holds `initial` and admits every viewport.
    pub fn new(initial: MandleParams) -> (store: ParamStore)
        ensures
            forall|params: MandleParams| store.admits(params),
    {
        ParamStore::admitting(initial, Ghost(|params: MandleParams| true))
    }

    /// A store that holds `initial` and admits the viewports in `allowed`.
    pub fn admitting(initial: MandleParams, Ghost(allowed): Ghost<spec_fn(MandleParams) -> bool>)
        -> (store: ParamStore)
        requires
            allowed(initial),
        ensures
            forall|params: MandleParams| store.admits(params) == allowed(params),
    {
        ParamStore { lock: RwLock::new(initial, Ghost(allowed)) }
    }

    /// The viewport as one write left it: all four fields are copied under one
    /// hold of the lock.
    pub fn snapshot(&self) -> (params: MandleParams)
        ensures
            self.admits(params),
            params@.zoom > 0,
            params@.iterations >= 1,
    {
        let handle = self.lock.acquire_read();
        let params = *handle.borrow();
        handle.release_read();
        proof {
            use_type_invariant(&params);
        }
        params
    }

    /// Replaces the viewport by `params`, and returns the one it replaced.
    pub fn write(&self, params: MandleParams) -> (previous: MandleParams)
        requires
            self.admits(params),
        ensures
            self.admits(previous),
    {
        let (previous, handle) = self.lock.acquire_write();
        handle.release_write(params);
        previous
    }

    /// Applies `action` to the viewport under one exclusive hold of the lock,
    /// and returns the viewport before and after.
    pub fn update(&self, action: InputAction) -> (r: (MandleParams, MandleParams))
        requires
            self.preserves(action),
        ensures
            self.admits(r.0),
            self.admits(r.1),
            r.1@ == applied(r.0@, action),
    {
        let (before, handle) = self.lock.acquire_write();
        let after = before.apply(action);
        assert(self.admits(before) && self.admits(after));
        handle.release_write(after);
        (before, after)
    }

    /// Handles one action of the input side: a zoom action is applied to the
    /// stored viewport, `Quit` leaves the store alone and ends the event loop.
    pub fn dispatch(&self, action: InputAction) -> (flow: ControlFlow)
        requires
            self.preserves(action),
        ensures
            flow == control_flow_of(action),
    {
        match action {
            InputAction::Quit => ControlFlow::Exit,
            _ => {
                let _ = self.update(action);
                ControlFlow::Wait
            },
        }
    }
}

} // verus!
