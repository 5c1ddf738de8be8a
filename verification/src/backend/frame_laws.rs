//! Laws of the frame clock: when a frame is drawn, and how long it takes.

use crate::backend::redraw;
use crate::backend::redraw::{FrameClock, RenderOutcome};
use vstd::prelude::*;

verus! {

/// The frames of a second fit into a second, and would not if each took a microsecond more.
pub proof fn frames_fill_a_second(rate: u32)
    requires
        rate >= 1_000,
    ensures
        ({
            let hertz = rate as int / 1_000;
            let micros = redraw::frame_micros(Some(rate));
            micros * hertz <= 1_000_000 < (micros + 1) * hertz
        }),
{
    let hertz = rate as int / 1_000;
    let micros = 1_000_000int / hertz;
    assert(micros * hertz <= 1_000_000 < (micros + 1) * hertz) by (nonlinear_arith)
        requires
            hertz >= 1,
            micros == 1_000_000int / hertz,
    ;
}

/// A frame is drawn once for being asked for: once drawing has begun nothing is left to draw, and a frame
/// that is asked for meanwhile is drawn again.
pub proof fn asked_frame_is_drawn_once(clock: FrameClock)
    requires
        clock.redraw_state.may_draw(),
    ensures
        !clock.begun().redraw_state.may_draw(),
        !clock.begun().redraw_state.will_draw(),
        clock.begun().redraw_state.queued().may_draw(),
        clock.begun().frame_callback_sequence == clock.frame_callback_sequence,
{
}

/// A frame that went to the screen counts as one more, and no other is drawn before it is shown; one that
/// did not get there is drawn again and does not count.
pub proof fn shown_frame_counts(clock: FrameClock)
    ensures
        ({
            let shown = clock.rendered(RenderOutcome::Submitted);
            &&& !shown.redraw_state.may_draw()
            &&& !shown.redraw_state.queued().may_draw()
            &&& shown.frame_callback_sequence != clock.frame_callback_sequence
            &&& clock.frame_callback_sequence < u32::MAX ==> shown.frame_callback_sequence
                == clock.frame_callback_sequence + 1
        }),
        forall|outcome: RenderOutcome|
            outcome is Failed || outcome is NotSubmitted ==> (#[trigger] clock.rendered(
                outcome,
            )).redraw_state.may_draw() && clock.rendered(outcome).frame_callback_sequence
                == clock.frame_callback_sequence,
{
}

} // verus!
