//! The rendering side: one frame from one snapshot of the viewport, and the
//! decisions of the loop that draws frame after frame.
//!
//! The loop itself performs the presentation and so lives with the caller. On
//! each turn it calls [`draw_snapshot`], presents the buffer, and hands what
//! happened to [`update`], which says whether to go on.

use crate::divergence::Divergence;
use crate::grid::Grid;
use crate::params::MandleParams;
use crate::params::ParamStore;
use crate::params::Viewport;
use crate::render::calc_mandlebrot_set;
use crate::render::frame_fits;
use crate::render::render_mandlebrot;
use crate::render::rendered;
use crate::render::shows;
use crate::render::PlaneError;
use vstd::prelude::*;

verus! {

/// Why the loop has stopped.
#[derive(Clone, Copy, Debug, PartialEq, Eq, Structural)]
pub enum StopReason {
    /// A frame could not be presented.
    PresentationFailed,
    /// The owner of the loop asked it to stop.
    Cancelled,
}

/// Whether the loop is still drawing.
#[derive(Clone, Copy, Debug, PartialEq, Eq, Structural)]
pub enum WorkerState {
    Running,
    Stopped(StopReason),
}

/// What happened on one turn of the loop.
#[derive(Clone, Copy, Debug, PartialEq, Eq, Structural)]
pub enum WorkerEvent {
    /// The frame was computed and presented.
    Presented,
    /// The viewport had a pixel outside the representable plane; nothing was
    /// drawn and nothing was presented.
    FrameSkipped,
    /// The frame was computed, and presenting it failed.
    PresentFailed,
    /// A stop was requested before the turn began.
    CancelRequested,
}

/// What the loop does next.
#[derive(Clone, Copy, Debug, PartialEq, Eq, Structural)]
pub enum WorkerAction {
    /// Take a new snapshot and draw the next frame.
    NextFrame,
    /// Report the presentation failure and leave the loop.
    ReportFailure,
    /// Leave the loop.
    Halt,
}

/// State and action after `event` in `state`.
///
/// A running loop stops on a failed presentation, which it reports, and on a
/// request to stop; after anything else it draws the next frame. A stopped
/// loop stays stopped for the reason it stopped for.
pub open spec fn transition(state: WorkerState, event: WorkerEvent) -> (WorkerState, WorkerAction) {
    match state {
        WorkerState::Stopped(reason) => (WorkerState::Stopped(reason), WorkerAction::Halt),
        WorkerState::Running => match event {
            WorkerEvent::Presented => (WorkerState::Running, WorkerAction::NextFrame),
            WorkerEvent::FrameSkipped => (WorkerState::Running, WorkerAction::NextFrame),
            WorkerEvent::PresentFailed => (
                WorkerState::Stopped(StopReason::PresentationFailed),
                WorkerAction::ReportFailure,
            ),
            WorkerEvent::CancelRequested => (
                WorkerState::Stopped(StopReason::Cancelled),
                WorkerAction::Halt,
            ),
        },
    }
}

/// The state after a run of events, starting from `state`.
pub open spec fn state_after(state: WorkerState, events: Seq<WorkerEvent>) -> WorkerState
    decreases events.len(),
{
    if events.len() == 0 {
        state
    } else {
        transition(state_after(state, events.drop_last()), events.last()).0
    }
}

/// Whether `event` ends a running loop.
pub open spec fn is_final(event: WorkerEvent) -> bool {
    event == WorkerEvent::PresentFailed || event == WorkerEvent::CancelRequested
}

/// A loop that has stopped never runs again and never changes its reason:
/// there are no retries.
pub proof fn lemma_stopped_is_final(reason: StopReason, events: Seq<WorkerEvent>)
    ensures
        state_after(WorkerState::Stopped(reason), events) == WorkerState::Stopped(reason),
    decreases events.len(),
{
    if events.len() > 0 {
        lemma_stopped_is_final(reason, events.drop_last());
    }
}

/// A loop is still running after a run of events exactly when none of them
/// was a failed presentation or a request to stop.
pub proof fn lemma_runs_until_final(events: Seq<WorkerEvent>)
    ensures
        state_after(WorkerState::Running, events) == WorkerState::Running <==> forall|i: int|
            0 <= i < events.len() ==> !is_final(#[trigger] events[i]),
    decreases events.len(),
{
    if events.len() > 0 {
        let before = events.drop_last();
        lemma_runs_until_final(before);
        if forall|i: int| 0 <= i < events.len() ==> !is_final(#[trigger] events[i]) {
            assert forall|i: int| 0 <= i < before.len() implies !is_final(#[trigger] before[i]) by {
                assert(before[i] == events[i]);
            }
        } else {
            let i = choose|i: int| 0 <= i < events.len() && is_final(#[trigger] events[i]);
            if i < before.len() {
                assert(before[i] == events[i]);
            }
        }
    }
}

/// Decides what the loop does after one turn.
pub fn update(state: WorkerState, event: WorkerEvent) -> (r: (WorkerState, WorkerAction))
    ensures
        r == transition(state, event),
{
    match state {
        WorkerState::Stopped(reason) => (WorkerState::Stopped(reason), WorkerAction::Halt),
        WorkerState::Running => match event {
            WorkerEvent::Presented => (WorkerState::Running, WorkerAction::NextFrame),
            WorkerEvent::FrameSkipped => (WorkerState::Running, WorkerAction::NextFrame),
            WorkerEvent::PresentFailed => (
                WorkerState::Stopped(StopReason::PresentationFailed),
                WorkerAction::ReportFailure,
            ),
            WorkerEvent::CancelRequested => (
                WorkerState::Stopped(StopReason::Cancelled),
                WorkerAction::Halt,
            ),
        },
    }
}

/// What drawing one frame for `view` does to a grid and a frame buffer.
///
/// The dimensions of the grid stay. When every pixel has a representable
/// point, the grid shows the view and the buffer shows the grid; otherwise the
/// outcome is `Unrepresentable` and neither has changed.
pub open spec fn frame_drawn(
    view: Viewport,
    grid_before: &Grid<Divergence>,
    grid_after: &Grid<Divergence>,
    frame_before: Seq<u8>,
    frame_after: Seq<u8>,
    outcome: Result<(), PlaneError>,
) -> bool {
    let fits = frame_fits(
        view.x,
        view.y,
        view.zoom,
        grid_before.spec_width(),
        grid_before.spec_height(),
    );
    &&& grid_after.spec_width() == grid_before.spec_width()
    &&& grid_after.spec_height() == grid_before.spec_height()
    &&& match outcome {
        Ok(_) => {
            &&& fits
            &&& shows(grid_after, view.x, view.y, view.zoom, view.iterations)
            &&& frame_after == rendered(grid_after)
        },
        Err(e) => {
            &&& e == PlaneError::Unrepresentable
            &&& !fits
            &&& grid_after.cells() == grid_before.cells()
            &&& frame_after == frame_before
        },
    }
}

/// Draws one frame for the viewport `params`: fills `grid` with the divergence
/// of every pixel and writes its picture into `frame`.
///
/// When the viewport has a pixel outside the representable plane, neither the
/// grid nor the frame is touched.
pub fn render_frame(params: &MandleParams, grid: &mut Grid<Divergence>, frame: &mut [u8]) -> (r:
    Result<(), PlaneError>)
    requires
        old(frame)@.len() == 4 * old(grid).spec_width() * old(grid).spec_height(),
    ensures
        frame_drawn(params@, old(grid), final(grid), old(frame)@, final(frame)@, r),
{
    match calc_mandlebrot_set(grid, params.x(), params.y(), params.zoom(), params.iterations()) {
        Ok(_) => {
            render_mandlebrot(grid, frame);
            Ok(())
        },
        Err(e) => Err(e),
    }
}

/// Draws one frame from one snapshot of the store.
///
/// The store is read once, as a whole; the frame is then computed from that
/// snapshot alone, which is handed back with the outcome. A write that arrives
/// while the frame is being drawn shows in the next snapshot.
pub fn draw_snapshot(store: &ParamStore, grid: &mut Grid<Divergence>, frame: &mut [u8]) -> (r: (
    MandleParams,
    Result<(), PlaneError>,
))
    requires
        old(frame)@.len() == 4 * old(grid).spec_width() * old(grid).spec_height(),
    ensures
        store.admits(r.0),
        frame_drawn(r.0@, old(grid), final(grid), old(frame)@, final(frame)@, r.1),
{
    let snapshot = store.snapshot();
    let outcome = render_frame(&snapshot, grid, frame);
    (snapshot, outcome)
}

} // verus!
