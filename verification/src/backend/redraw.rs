//! When an output is drawn: one frame at a time, and never twice for one change.

use crate::render_helpers::solid_color::SolidColorBuffer;
use crate::state::lists::SurfaceId;
use crate::state::toplevel::OutputId;
use std::collections::HashSet;
use vstd::prelude::*;

verus! {

broadcast use vstd::std_specs::hash::group_hash_axioms;

/// The number that a timer is known by.
pub type TimerId = u64;

/// The number that the drawing surface of an output is known by.
pub type ScreenId = u64;

/// Where an output is between two frames.
#[derive(Clone, Copy, Debug, PartialEq, Eq, Structural)]
pub enum RedrawState {
    /// Nothing is to be drawn.
    Idle,
    /// A frame is to be drawn.
    Queued,
    /// A frame is on its way to the screen.
    WaitingForVBlank { redraw_needed: bool },
    /// There was nothing to show; a timer stands for the screen.
    WaitingForEstimatedVBlank(TimerId),
    /// As before, but meanwhile a frame is to be drawn.
    WaitingForEstimatedVBlankAndQueued(TimerId),
}

impl RedrawState {
    /// The state with a frame to be drawn.
    pub open spec fn queued(self) -> RedrawState {
        match self {
            RedrawState::Idle => RedrawState::Queued,
            RedrawState::WaitingForEstimatedVBlank(
                timer,
            ) => RedrawState::WaitingForEstimatedVBlankAndQueued(timer),
            RedrawState::WaitingForVBlank { .. } => RedrawState::WaitingForVBlank {
                redraw_needed: true,
            },
            other => other,
        }
    }

    /// The state with a frame to be drawn.
    pub fn queue_redraw(self) -> (state: RedrawState)
        ensures
            state == self.queued(),
    {
        match self {
            RedrawState::Idle => RedrawState::Queued,
            RedrawState::WaitingForEstimatedVBlank(
                timer,
            ) => RedrawState::WaitingForEstimatedVBlankAndQueued(timer),
            RedrawState::WaitingForVBlank { .. } => RedrawState::WaitingForVBlank {
                redraw_needed: true,
            },
            RedrawState::Queued => RedrawState::Queued,
            RedrawState::WaitingForEstimatedVBlankAndQueued(
                timer,
            ) => RedrawState::WaitingForEstimatedVBlankAndQueued(timer),
        }
    }

    /// Whether a frame will be drawn without anything else being asked for.
    pub open spec fn will_draw(self) -> bool {
        match self {
            RedrawState::Queued => true,
            RedrawState::WaitingForVBlank { redraw_needed } => redraw_needed,
            RedrawState::WaitingForEstimatedVBlankAndQueued(_) => true,
            _ => false,
        }
    }

    /// Whether a frame may be drawn now.
    pub open spec fn may_draw(self) -> bool {
        match self {
            RedrawState::Queued => true,
            RedrawState::WaitingForEstimatedVBlankAndQueued(_) => true,
            _ => false,
        }
    }
}

/// Whatever state an output is in, asking for a frame gets one drawn; asking twice is asking once.
pub proof fn asking_gets_a_frame(state: RedrawState)
    ensures
        state.queued().will_draw(),
        state.queued().queued() == state.queued(),
{
}

/// What comes of drawing a frame.
#[derive(Clone, Copy, Debug, PartialEq, Eq, Structural)]
pub enum RenderOutcome {
    /// There was nothing to draw with.
    NoRenderer,
    /// Drawing failed.
    Failed,
    /// There was something to show, and the frame went to the screen.
    Submitted,
    /// There was something to show, but the frame did not go to the screen.
    NotSubmitted,
    /// There was nothing to show; the timer that stands for the screen, where there is one.
    Empty(Option<TimerId>),
}

/// What is to be done for an output.
#[derive(Clone, Copy, Debug, PartialEq, Eq, Structural)]
pub enum FrameAction {
    Nothing,
    /// Draw a frame when there is nothing else to do.
    RenderWhenIdle,
    /// Draw a frame after so many nanoseconds.
    RenderAfter(u64),
    /// Tell clients that a frame with this number was shown.
    SendFrameCallbacks(u32),
}

/// An output between two frames, and the number of the last one.
#[derive(Clone, Copy, Debug, PartialEq, Eq, Structural)]
pub struct FrameClock {
    pub redraw_state: RedrawState,
    pub frame_callback_sequence: u32,
}

impl FrameClock {
    /// An output that is to be drawn for the first time.
    pub fn new() -> (clock: FrameClock)
        ensures
            clock == (FrameClock { redraw_state: RedrawState::Queued, frame_callback_sequence: 0 }),
    {
        FrameClock { redraw_state: RedrawState::Queued, frame_callback_sequence: 0 }
    }

    /// The clock with drawing begun, where a frame may be drawn.
    pub open spec fn begun(self) -> FrameClock {
        if self.redraw_state.may_draw() {
            FrameClock { redraw_state: RedrawState::Idle, ..self }
        } else {
            self
        }
    }

    /// Begins a frame: the timer to be stopped for it, or nothing where no frame may be drawn.
    pub fn begin_render(&mut self) -> (start: Option<Option<TimerId>>)
        ensures
            *final(self) == old(self).begun(),
            start == match old(self).redraw_state {
                RedrawState::Queued => Some(None),
                RedrawState::WaitingForEstimatedVBlankAndQueued(timer) => Some(Some(timer)),
                _ => None,
            },
    {
        match self.redraw_state {
            RedrawState::Queued => {
                self.redraw_state = RedrawState::Idle;
                Some(None)
            },
            RedrawState::WaitingForEstimatedVBlankAndQueued(timer) => {
                self.redraw_state = RedrawState::Idle;
                Some(Some(timer))
            },
            _ => None,
        }
    }

    /// The clock after a frame is drawn.
    pub open spec fn rendered(self, outcome: RenderOutcome) -> FrameClock {
        match outcome {
            RenderOutcome::NoRenderer => self,
            RenderOutcome::Failed => FrameClock { redraw_state: RedrawState::Queued, ..self },
            RenderOutcome::NotSubmitted => FrameClock { redraw_state: RedrawState::Queued, ..self },
            RenderOutcome::Submitted => FrameClock {
                redraw_state: RedrawState::WaitingForVBlank { redraw_needed: false },
                frame_callback_sequence: self.frame_callback_sequence.wrapping_add(1),
            },
            RenderOutcome::Empty(timer) => FrameClock {
                redraw_state: match timer {
                    Some(timer) => RedrawState::WaitingForEstimatedVBlank(timer),
                    None => RedrawState::Idle,
                },
                ..self
            },
        }
    }

    /// Takes in what came of drawing a frame.
    pub fn finish_render(&mut self, outcome: RenderOutcome) -> (action: FrameAction)
        ensures
            *final(self) == old(self).rendered(outcome),
            action == (if outcome == RenderOutcome::Submitted {
                FrameAction::SendFrameCallbacks(final(self).frame_callback_sequence)
            } else {
                FrameAction::Nothing
            }),
    {
        match outcome {
            RenderOutcome::NoRenderer => FrameAction::Nothing,
            RenderOutcome::Failed => {
                self.redraw_state = RedrawState::Queued;
                FrameAction::Nothing
            },
            RenderOutcome::NotSubmitted => {
                self.redraw_state = RedrawState::Queued;
                FrameAction::Nothing
            },
            RenderOutcome::Submitted => {
                self.redraw_state = RedrawState::WaitingForVBlank { redraw_needed: false };
                self.frame_callback_sequence = self.frame_callback_sequence.wrapping_add(1);
                FrameAction::SendFrameCallbacks(self.frame_callback_sequence)
            },
            RenderOutcome::Empty(timer) => {
                self.redraw_state = match timer {
                    Some(timer) => RedrawState::WaitingForEstimatedVBlank(timer),
                    None => RedrawState::Idle,
                };
                FrameAction::Nothing
            },
        }
    }

    /// The clock after the timer that stands for the screen.
    pub open spec fn timer_passed(self) -> FrameClock {
        FrameClock {
            redraw_state: match self.redraw_state {
                RedrawState::WaitingForEstimatedVBlank(_) => RedrawState::Idle,
                RedrawState::WaitingForEstimatedVBlankAndQueued(_) => RedrawState::Queued,
                other => other,
            },
            frame_callback_sequence: self.frame_callback_sequence.wrapping_add(1),
        }
    }

    /// The timer that stands for the screen has passed.
    pub fn on_estimated_vblank_timer(&mut self) -> (action: FrameAction)
        ensures
            *final(self) == old(self).timer_passed(),
            action == match old(self).redraw_state {
                RedrawState::WaitingForEstimatedVBlank(_) => FrameAction::SendFrameCallbacks(
                    final(self).frame_callback_sequence,
                ),
                RedrawState::WaitingForEstimatedVBlankAndQueued(_) => FrameAction::RenderWhenIdle,
                _ => FrameAction::Nothing,
            },
    {
        self.frame_callback_sequence = self.frame_callback_sequence.wrapping_add(1);
        match self.redraw_state {
            RedrawState::WaitingForEstimatedVBlank(_) => {
                self.redraw_state = RedrawState::Idle;
                FrameAction::SendFrameCallbacks(self.frame_callback_sequence)
            },
            RedrawState::WaitingForEstimatedVBlankAndQueued(_) => {
                self.redraw_state = RedrawState::Queued;
                FrameAction::RenderWhenIdle
            },
            _ => FrameAction::Nothing,
        }
    }

    /// Whether a frame is to be drawn once the last one is on the screen. A frame that was not
    /// waited for counts as one that needs another.
    pub open spec fn needs_another(self) -> bool {
        match self.redraw_state {
            RedrawState::WaitingForVBlank { redraw_needed } => redraw_needed,
            _ => true,
        }
    }

    /// The clock after the word that a frame is on the screen. Word that comes too early is put off,
    /// and word of a frame that the screen does not know is dropped.
    pub open spec fn finished(self, put_off: bool, known: bool) -> FrameClock {
        if put_off || !known {
            self
        } else {
            FrameClock {
                redraw_state: if self.needs_another() {
                    RedrawState::Queued
                } else {
                    RedrawState::Idle
                },
                ..self
            }
        }
    }

    /// Takes in the word that the last frame is on the screen, at a refresh rate in thousandths of a
    /// hertz. Where another frame is to be drawn, it is drawn late in the time that it has, so that
    /// clients can still get into it.
    pub fn frame_finish(&mut self, put_off: bool, known: bool, refresh: Option<u32>) -> (action:
        FrameAction)
        ensures
            *final(self) == old(self).finished(put_off, known),
            action == (if !put_off && known && old(self).needs_another() {
                FrameAction::RenderAfter(repaint_delay(refresh) as u64)
            } else {
                FrameAction::Nothing
            }),
            repaint_delay(refresh) <= u64::MAX,
    {
        let delay = repaint_delay_nanos(refresh);
        if put_off || !known {
            return FrameAction::Nothing;
        }
        let redraw_needed = match self.redraw_state {
            RedrawState::WaitingForVBlank { redraw_needed } => redraw_needed,
            _ => true,
        };
        if redraw_needed {
            self.redraw_state = RedrawState::Queued;
            FrameAction::RenderAfter(delay)
        } else {
            self.redraw_state = RedrawState::Idle;
            FrameAction::Nothing
        }
    }
}

/// How many nanoseconds a frame lasts at a refresh rate in thousandths of a hertz; where the rate is
/// not known, that of sixty hertz in whole microseconds.
pub open spec fn frame_nanos(refresh: Option<u32>) -> int {
    match refresh {
        Some(refresh) if refresh > 0 => 1_000_000_000_000int / refresh as int,
        _ => 16_667_000,
    }
}

/// How many nanoseconds the next frame waits: three fifths of its time.
pub open spec fn repaint_delay(refresh: Option<u32>) -> int {
    frame_nanos(refresh) * 60 / 100
}

/// How many nanoseconds the next frame waits at a refresh rate in thousandths of a hertz.
pub fn repaint_delay_nanos(refresh: Option<u32>) -> (nanos: u64)
    ensures
        nanos == repaint_delay(refresh),
{
    let frame: u64 = match refresh {
        Some(refresh) if refresh > 0 => {
            let nanos: u64 = 1_000_000_000_000 / (refresh as u64);
            assert(nanos <= 1_000_000_000_000) by (nonlinear_arith)
                requires
                    refresh > 0,
                    nanos == 1_000_000_000_000int / refresh as int,
            ;
            nanos
        },
        _ => 16_667_000,
    };
    frame * 60 / 100
}

/// The next frame is drawn before its time is over.
pub proof fn repaint_is_in_time(refresh: Option<u32>)
    ensures
        0 <= repaint_delay(refresh) <= frame_nanos(refresh),
{
    match refresh {
        Some(rate) if rate > 0 => {
            assert(1_000_000_000_000int / rate as int >= 0) by (nonlinear_arith)
                requires
                    rate > 0,
            ;
        },
        _ => {},
    }
}

/// A frame that is asked for while another is on its way is not lost: it is drawn when that one is
/// on the screen.
pub proof fn late_request_is_drawn(clock: FrameClock)
    requires
        clock.redraw_state is WaitingForVBlank,
    ensures
        (FrameClock { redraw_state: clock.redraw_state.queued(), ..clock }).finished(
            false,
            true,
        ).redraw_state == RedrawState::Queued,
{
}

/// A frame that is asked for while a timer stands for the screen is drawn when the timer has passed.
pub proof fn request_outlives_timer(clock: FrameClock)
    requires
        clock.redraw_state is WaitingForEstimatedVBlank,
    ensures
        (FrameClock { redraw_state: clock.redraw_state.queued(), ..clock }).timer_passed().redraw_state
            == RedrawState::Queued,
{
}

/// How many microseconds a frame takes at a refresh rate in thousandths of a hertz; sixty hertz
/// where the rate is not known.
pub open spec fn frame_micros(refresh: Option<u32>) -> int {
    match refresh {
        Some(refresh) => 1_000_000int / (refresh as int / 1_000),
        None => 16_666,
    }
}

/// How many microseconds a frame takes at a refresh rate of at least one hertz.
pub fn estimated_frame_micros(refresh: Option<u32>) -> (micros: u64)
    requires
        refresh matches Some(refresh) ==> refresh >= 1_000,
    ensures
        micros == frame_micros(refresh),
{
    match refresh {
        Some(refresh) => {
            let hertz: u64 = refresh as u64 / 1_000;
            1_000_000 / hertz
        },
        None => 16_666,
    }
}

/// What a client is told of how a frame reached the screen.
#[derive(Clone, Copy, Debug, PartialEq, Eq, Structural)]
pub struct PresentationFlags {
    pub vsync: bool,
    pub hw_clock: bool,
    pub hw_completion: bool,
}

/// The time that a frame reached the screen, by the screen's own clock where that is known, and
/// what clients are told of it.
pub fn presentation_of(hardware_nanos: Option<u64>, now_nanos: u64) -> (presentation: (
    u64,
    PresentationFlags,
))
    ensures
        presentation == match hardware_nanos {
            Some(nanos) => if nanos != 0 {
                (nanos, PresentationFlags { vsync: true, hw_clock: true, hw_completion: true })
            } else {
                (
                    now_nanos,
                    PresentationFlags { vsync: true, hw_clock: false, hw_completion: false },
                )
            },
            None => (
                now_nanos,
                PresentationFlags { vsync: true, hw_clock: false, hw_completion: false },
            ),
        },
{
    if let Some(nanos) = hardware_nanos {
        if nanos != 0 {
            return (
                nanos,
                PresentationFlags { vsync: true, hw_clock: true, hw_completion: true },
            );
        }
    }
    (now_nanos, PresentationFlags { vsync: true, hw_clock: false, hw_completion: false })
}

/// The output and the frame that a surface was last told of.
#[derive(Clone, Copy, Debug, PartialEq, Eq)]
pub struct FrameThrottle {
    pub last_sent_at: Option<(OutputId, u32)>,
}

impl FrameThrottle {
    /// A surface that was told of no frame.
    pub fn new() -> (throttle: FrameThrottle)
        ensures
            throttle.last_sent_at is None,
    {
        FrameThrottle { last_sent_at: None }
    }

    /// Whether a surface is told of a frame: it is shown on that output first of all, and was not
    /// told of that frame yet.
    pub open spec fn sends(self, primary: Option<OutputId>, output: OutputId, sequence: u32) -> bool {
        primary == Some(output) && self.last_sent_at != Some((output, sequence))
    }

    /// Whether a surface is told of a frame; that it was is kept.
    pub fn should_send(&mut self, primary: Option<OutputId>, output: OutputId, sequence: u32) -> (send:
        bool)
        ensures
            send == old(self).sends(primary, output, sequence),
            *final(self) == (if send {
                FrameThrottle { last_sent_at: Some((output, sequence)) }
            } else {
                *old(self)
            }),
    {
        let shown = match primary {
            Some(primary) => primary == output,
            None => false,
        };
        if !shown {
            return false;
        }
        if let Some((last_output, last_sequence)) = self.last_sent_at {
            if last_output == output && last_sequence == sequence {
                return false;
            }
        }
        self.last_sent_at = Some((output, sequence));
        true
    }
}

/// No surface is told of one frame of an output twice.
pub proof fn frame_is_told_once(throttle: FrameThrottle, output: OutputId, sequence: u32)
    ensures
        !(FrameThrottle { last_sent_at: Some((output, sequence)) }).sends(
            Some(output),
            output,
            sequence,
        ),
        throttle.sends(Some(output), output, sequence) || throttle.last_sent_at == Some(
            (output, sequence),
        ),
{
}

/// A surface of a window or a layer: the outputs that the window or layer is on, the one that the
/// surface is shown on first of all, and what it was told.
#[derive(Debug)]
pub struct ShownSurface {
    pub surface: SurfaceId,
    pub outputs: Vec<OutputId>,
    pub primary: Option<OutputId>,
    pub throttle: FrameThrottle,
}

/// A `ShownSurface` as plain values.
pub struct Shown {
    pub surface: SurfaceId,
    pub outputs: Seq<OutputId>,
    pub primary: Option<OutputId>,
    pub throttle: FrameThrottle,
}

impl View for ShownSurface {
    type V = Shown;

    open spec fn view(&self) -> Shown {
        Shown {
            surface: self.surface,
            outputs: self.outputs@,
            primary: self.primary,
            throttle: self.throttle,
        }
    }
}

/// Surfaces as plain values.
pub open spec fn shown_view(surfaces: Seq<ShownSurface>) -> Seq<Shown> {
    Seq::new(surfaces.len(), |i: int| surfaces[i]@)
}

impl Shown {
    /// Whether a surface is told of a frame of an output.
    pub open spec fn hears(self, output: OutputId, sequence: u32) -> bool {
        self.outputs.contains(output) && self.throttle.sends(self.primary, output, sequence)
    }

    /// A surface that was told of a frame, where it is.
    pub open spec fn told(self, output: OutputId, sequence: u32) -> Shown {
        if self.hears(output, sequence) {
            Shown {
                throttle: FrameThrottle { last_sent_at: Some((output, sequence)) },
                ..self
            }
        } else {
            self
        }
    }
}

/// The surfaces that are told of a frame, in order.
pub open spec fn frame_hearers(surfaces: Seq<Shown>, output: OutputId, sequence: u32) -> Seq<
    SurfaceId,
>
    decreases surfaces.len(),
{
    if surfaces.len() == 0 {
        Seq::<SurfaceId>::empty()
    } else if surfaces.last().hears(output, sequence) {
        frame_hearers(surfaces.drop_last(), output, sequence).push(surfaces.last().surface)
    } else {
        frame_hearers(surfaces.drop_last(), output, sequence)
    }
}

/// The surfaces after a frame was told.
pub open spec fn frame_told(surfaces: Seq<Shown>, output: OutputId, sequence: u32) -> Seq<Shown> {
    Seq::new(surfaces.len(), |i: int| surfaces[i].told(output, sequence))
}

fn is_on(outputs: &Vec<OutputId>, output: OutputId) -> (result: bool)
    ensures
        result == outputs@.contains(output),
{
    let mut index: usize = 0;
    while index < outputs.len()
        invariant
            index <= outputs.len(),
            forall|i: int| 0 <= i < index ==> outputs@[i] != output,
        decreases outputs.len() - index,
    {
        if outputs[index] == output {
            assert(outputs@.contains(outputs@[index as int]));
            return true;
        }
        index = index + 1;
    }
    false
}

/// Tells the surfaces on an output that a frame was shown: which they are, in order.
pub fn send_frame_callbacks_for_output(
    surfaces: &mut Vec<ShownSurface>,
    output: OutputId,
    frame_callback_sequence: u32,
) -> (told: Vec<SurfaceId>)
    ensures
        told@ == frame_hearers(shown_view(old(surfaces)@), output, frame_callback_sequence),
        shown_view(final(surfaces)@) == frame_told(
            shown_view(old(surfaces)@),
            output,
            frame_callback_sequence,
        ),
{
    let ghost all = shown_view(surfaces@);
    let ghost after = frame_told(all, output, frame_callback_sequence);
    let mut told: Vec<SurfaceId> = Vec::new();
    let mut index: usize = 0;
    assert(all.take(0) =~= seq![]);
    while index < surfaces.len()
        invariant
            index <= surfaces.len(),
            surfaces.len() == all.len(),
            after == frame_told(all, output, frame_callback_sequence),
            forall|i: int| 0 <= i < index ==> (#[trigger] surfaces@[i])@ == after[i],
            forall|i: int| index <= i < all.len() ==> (#[trigger] surfaces@[i])@ == all[i],
            told@ == frame_hearers(all.take(index as int), output, frame_callback_sequence),
        decreases surfaces.len() - index,
    {
        assert(all.take(index + 1).drop_last() =~= all.take(index as int));
        assert(surfaces@[index as int]@ == all[index as int]);
        if is_on(&surfaces[index].outputs, output) {
            let surface = surfaces[index].surface;
            let primary = surfaces[index].primary;
            let mut throttle = surfaces[index].throttle;
            if throttle.should_send(primary, output, frame_callback_sequence) {
                surfaces[index].throttle = throttle;
                told.push(surface);
            }
        }
        index = index + 1;
    }
    assert(all.take(all.len() as int) =~= all);
    assert(shown_view(surfaces@) =~= after);
    told
}

/// However often it is shown, no surface is told of one frame of an output twice.
pub proof fn frame_callbacks_come_once(surfaces: Seq<Shown>, output: OutputId, sequence: u32)
    ensures
        frame_hearers(frame_told(surfaces, output, sequence), output, sequence).len() == 0,
        frame_told(frame_told(surfaces, output, sequence), output, sequence) == frame_told(
            surfaces,
            output,
            sequence,
        ),
    decreases surfaces.len(),
{
    let told = frame_told(surfaces, output, sequence);
    assert(frame_told(told, output, sequence) =~= told);
    if surfaces.len() > 0 {
        frame_callbacks_come_once(surfaces.drop_last(), output, sequence);
        assert(told.drop_last() =~= frame_told(surfaces.drop_last(), output, sequence));
    }
}

/// The drawing surface of an output.
#[derive(Clone, Copy, Debug, PartialEq, Eq, Structural)]
pub struct Screen {
    pub id: ScreenId,
    pub output: OutputId,
    pub clock: FrameClock,
    /// What is behind everything else.
    pub backdrop: SolidColorBuffer,
}

/// All drawing surfaces, and those that are to be drawn next.
pub struct Screens {
    pub screens: Vec<Screen>,
    pub queued_redraws: HashSet<ScreenId>,
}

/// The screens with a frame to be drawn for those of `output`, or for all. Their backdrops count a
/// change, so that there is something to draw.
pub open spec fn screens_queued(screens: Seq<Screen>, output: Option<OutputId>) -> Seq<Screen> {
    Seq::new(
        screens.len(),
        |i: int|
            if output is None || output == Some(screens[i].output) {
                Screen {
                    clock: FrameClock {
                        redraw_state: screens[i].clock.redraw_state.queued(),
                        ..screens[i].clock
                    },
                    backdrop: screens[i].backdrop.changed(),
                    ..screens[i]
                }
            } else {
                screens[i]
            },
    )
}

/// Whether a screen is one of those of `output`, or of all.
pub open spec fn is_among(screens: Seq<Screen>, output: Option<OutputId>, id: ScreenId) -> bool {
    exists|i: int|
        0 <= i < screens.len() && (#[trigger] screens[i]).id == id && (output is None || output
            == Some(screens[i].output))
}

impl Screens {
    fn queue(&mut self, output: Option<OutputId>)
        ensures
            final(self).screens@ == screens_queued(old(self).screens@, output),
            forall|id: ScreenId| #[trigger]
                final(self).queued_redraws@.contains(id) <==> old(self).queued_redraws@.contains(id)
                    || is_among(old(self).screens@, output, id),
    {
        let ghost before = self.screens@;
        let ghost asked = self.queued_redraws@;
        let mut index: usize = 0;
        while index < self.screens.len()
            invariant
                index <= self.screens.len(),
                self.screens.len() == before.len(),
                forall|i: int|
                    0 <= i < index ==> #[trigger] self.screens@[i] == screens_queued(
                        before,
                        output,
                    )[i],
                forall|i: int|
                    index <= i < before.len() ==> #[trigger] self.screens@[i] == before[i],
                forall|id: ScreenId| #[trigger]
                    self.queued_redraws@.contains(id) <==> asked.contains(id) || is_among(
                        before.take(index as int),
                        output,
                        id,
                    ),
            decreases self.screens.len() - index,
        {
            let mut screen = self.screens[index];
            let meant = match output {
                Some(output) => output == screen.output,
                None => true,
            };
            proof {
                let taken = before.take(index as int);
                let next = before.take(index + 1);
                assert forall|id: ScreenId| is_among(next, output, id) <==> is_among(
                    taken,
                    output,
                    id,
                ) || (meant && id == screen.id) by {
                    if is_among(taken, output, id) {
                        let i = choose|i: int|
                            0 <= i < taken.len() && (#[trigger] taken[i]).id == id && (output is None
                                || output == Some(taken[i].output));
                        assert(next[i] == taken[i]);
                    }
                    if is_among(next, output, id) {
                        let i = choose|i: int|
                            0 <= i < next.len() && (#[trigger] next[i]).id == id && (output is None
                                || output == Some(next[i].output));
                        if i < index {
                            assert(taken[i] == next[i]);
                        }
                    }
                    if meant && id == screen.id {
                        assert(next[index as int].id == id);
                    }
                }
            }
            if meant {
                screen.backdrop.touch();
                screen.clock.redraw_state = screen.clock.redraw_state.queue_redraw();
                self.screens.set(index, screen);
                self.queued_redraws.insert(screen.id);
            }
            index = index + 1;
        }
        assert(before.take(before.len() as int) =~= before);
        assert(self.screens@ =~= screens_queued(before, output));
    }

    /// Asks for all outputs to be drawn anew.
    pub fn queue_redraw_all(&mut self)
        ensures
            final(self).screens@ == screens_queued(old(self).screens@, None),
            forall|id: ScreenId| #[trigger]
                final(self).queued_redraws@.contains(id) <==> old(self).queued_redraws@.contains(id)
                    || is_among(old(self).screens@, None, id),
    {
        self.queue(None);
    }

    /// Asks for an output to be drawn anew.
    pub fn queue_redraw_for_output(&mut self, output: OutputId)
        ensures
            final(self).screens@ == screens_queued(old(self).screens@, Some(output)),
            forall|id: ScreenId| #[trigger]
                final(self).queued_redraws@.contains(id) <==> old(self).queued_redraws@.contains(id)
                    || is_among(old(self).screens@, Some(output), id),
    {
        self.queue(Some(output));
    }

    /// Takes out the surfaces that are to be drawn next, each once.
    pub fn drain_queued_redraws(&mut self) -> (drained: Vec<ScreenId>)
        ensures
            final(self).screens@ == old(self).screens@,
            final(self).queued_redraws@ == Set::<ScreenId>::empty(),
            drained@.to_set() == old(self).queued_redraws@,
            drained@.no_duplicates(),
    {
        let mut queued: HashSet<ScreenId> = HashSet::new();
        std::mem::swap(&mut queued, &mut self.queued_redraws);
        let mut drained: Vec<ScreenId> = Vec::new();
        for id in ids: queued.iter()
            invariant
                ids.seq().unref().to_set() == queued@,
                ids.seq().no_duplicates(),
                drained@ =~= ids.seq().unref().take(ids.index() as int),
                ids.index() == ids.seq().len() ==> drained@ =~= ids.seq().unref(),
        {
            drained.push(*id);
        }
        drained
    }
}

/// A frame that is asked for has something to draw, though nothing looks different.
pub proof fn asked_frame_shows(screens: Seq<Screen>, output: Option<OutputId>, index: int)
    requires
        0 <= index < screens.len(),
        output is None || output == Some(screens[index].output),
    ensures
        screens_queued(screens, output)[index].backdrop.commit != screens[index].backdrop.commit,
{
}

} // verus!
