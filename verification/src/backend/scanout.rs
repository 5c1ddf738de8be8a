//! Whether a window's picture may go to the screen without being drawn into another, and what is
//! written down of the frames.

use crate::config::scalars;
use crate::config::scalars::is_affirmative;
use crate::geometry::Rectangle;
use crate::numbers;
use crate::numbers::write_signed;
use crate::text;
use crate::text::{same_text, to_lowercase};
use vstd::prelude::*;

verus! {

/// How many lines are written about the frames.
pub const TRACE_MAX_LINES: usize = 4000;

/// What a switch says: nothing where it is not there, else whether it is on.
pub open spec fn switch(value: Option<Seq<char>>) -> Option<bool> {
    match value {
        Some(value) => Some(scalars::affirmative(text::lowercase(value))),
        None => None,
    }
}

/// What a switch says: nothing where it is not there, else whether it is on.
pub fn env_truthy(value: Option<&str>) -> (result: Option<bool>)
    ensures
        result == switch(text::slice_view(value)),
{
    match value {
        Some(value) => Some(is_affirmative(to_lowercase(value).as_str())),
        None => None,
    }
}

/// Whether pictures may go to the screen directly: the switch that disables it comes first, and with
/// no switch they may.
pub open spec fn direct(disable: Option<Seq<char>>, enable: Option<Seq<char>>) -> bool {
    match switch(disable) {
        Some(disabled) => !disabled,
        None => match switch(enable) {
            Some(enabled) => enabled,
            None => true,
        },
    }
}

/// Whether pictures may go to the screen directly, by the values of the two switches.
pub fn scanout_enabled(disable: Option<&str>, enable: Option<&str>) -> (enabled: bool)
    ensures
        enabled == direct(text::slice_view(disable), text::slice_view(enable)),
{
    match env_truthy(disable) {
        Some(disabled) => !disabled,
        None => match env_truthy(enable) {
            Some(enabled) => enabled,
            None => true,
        },
    }
}

/// Whether each frame is drawn whole.
pub fn force_full_redraw(value: Option<&str>) -> (forced: bool)
    ensures
        forced == (switch(text::slice_view(value)) == Some(true)),
{
    match env_truthy(value) {
        Some(forced) => forced,
        None => false,
    }
}

/// Why a fullscreen window is not shown directly.
#[derive(Clone, Copy, Debug, PartialEq, Eq, Structural)]
pub enum ScanoutRejection {
    Disabled,
    FullscreenNotActive,
    MissingOutputGeometry,
    CursorVisible,
    OverlayOrTopLayerVisible,
}

impl ScanoutRejection {
    /// The name of the reason.
    pub open spec fn text(self) -> Seq<char> {
        match self {
            ScanoutRejection::Disabled => "scanout-disabled"@,
            ScanoutRejection::FullscreenNotActive => "fullscreen-not-active"@,
            ScanoutRejection::MissingOutputGeometry => "missing-output-geometry"@,
            ScanoutRejection::CursorVisible => "cursor-visible"@,
            ScanoutRejection::OverlayOrTopLayerVisible => "overlay-or-top-layer-visible"@,
        }
    }

    /// The name of the reason.
    pub fn name(self) -> (name: &'static str)
        ensures
            name@ == self.text(),
    {
        match self {
            ScanoutRejection::Disabled => "scanout-disabled",
            ScanoutRejection::FullscreenNotActive => "fullscreen-not-active",
            ScanoutRejection::MissingOutputGeometry => "missing-output-geometry",
            ScanoutRejection::CursorVisible => "cursor-visible",
            ScanoutRejection::OverlayOrTopLayerVisible => "overlay-or-top-layer-visible",
        }
    }
}

/// What is seen on an output beside its windows.
#[derive(Clone, Copy, Debug, PartialEq, Eq, Structural)]
pub struct OutputSight {
    pub has_geometry: bool,
    pub pointer_inside: bool,
    pub cursor_hidden: bool,
    pub overlay_layers: bool,
    pub top_layers: bool,
}

/// Why a window on this output cannot be shown directly, if so.
pub open spec fn rejection(fullscreen: bool, sight: OutputSight) -> Option<ScanoutRejection> {
    if !fullscreen {
        Some(ScanoutRejection::FullscreenNotActive)
    } else if !sight.has_geometry {
        Some(ScanoutRejection::MissingOutputGeometry)
    } else if sight.pointer_inside && !sight.cursor_hidden {
        Some(ScanoutRejection::CursorVisible)
    } else if sight.overlay_layers || sight.top_layers {
        Some(ScanoutRejection::OverlayOrTopLayerVisible)
    } else {
        None
    }
}

/// Why a window on this output cannot be shown directly, if so.
pub fn scanout_rejection_reason(fullscreen_on_output: bool, sight: OutputSight) -> (reason: Option<
    ScanoutRejection,
>)
    ensures
        reason == rejection(fullscreen_on_output, sight),
{
    if !fullscreen_on_output {
        return Some(ScanoutRejection::FullscreenNotActive);
    }
    if !sight.has_geometry {
        return Some(ScanoutRejection::MissingOutputGeometry);
    }
    if sight.pointer_inside && !sight.cursor_hidden {
        return Some(ScanoutRejection::CursorVisible);
    }
    if sight.overlay_layers || sight.top_layers {
        return Some(ScanoutRejection::OverlayOrTopLayerVisible);
    }
    None
}

/// What is to be recorded before a frame: a reason, where a window is fullscreen and is not shown
/// directly.
pub open spec fn frame_rejection(fullscreen: bool, enabled: bool, sight: OutputSight) -> Option<
    ScanoutRejection,
> {
    if !fullscreen {
        None
    } else if !enabled {
        Some(ScanoutRejection::Disabled)
    } else {
        rejection(fullscreen, sight)
    }
}

/// What is to be recorded before a frame.
pub fn rejection_for_frame(fullscreen: bool, enabled: bool, sight: OutputSight) -> (reason: Option<
    ScanoutRejection,
>)
    ensures
        reason == frame_rejection(fullscreen, enabled, sight),
{
    if !fullscreen {
        None
    } else if !enabled {
        Some(ScanoutRejection::Disabled)
    } else {
        scanout_rejection_reason(fullscreen, sight)
    }
}

/// How often a reason came up on an output.
#[derive(Debug)]
pub struct RejectionCount {
    pub output: String,
    pub reason: ScanoutRejection,
    pub count: u64,
}

/// How often each reason came up.
#[derive(Debug)]
pub struct RejectionCounters {
    pub entries: Vec<RejectionCount>,
}

/// The place of the first entry for an output and a reason; past the end, where there is none.
pub open spec fn entry_place(
    entries: Seq<RejectionCount>,
    output: Seq<char>,
    reason: ScanoutRejection,
) -> nat
    decreases entries.len(),
{
    if entries.len() == 0 {
        0
    } else if entries[0].output@ == output && entries[0].reason == reason {
        0
    } else {
        1 + entry_place(entries.skip(1), output, reason)
    }
}

proof fn entry_place_is(
    entries: Seq<RejectionCount>,
    output: Seq<char>,
    reason: ScanoutRejection,
    place: int,
)
    requires
        0 <= place <= entries.len(),
        forall|i: int|
            0 <= i < place ==> !((#[trigger] entries[i]).output@ == output && entries[i].reason
                == reason),
        place < entries.len() ==> entries[place].output@ == output && entries[place].reason
            == reason,
    ensures
        entry_place(entries, output, reason) == place,
    decreases entries.len(),
{
    if entries.len() > 0 && place > 0 {
        assert forall|i: int| 0 <= i < place - 1 implies !((#[trigger] entries.skip(1)[i]).output@
            == output && entries.skip(1)[i].reason == reason) by {
            assert(entries.skip(1)[i] == entries[i + 1]);
        }
        entry_place_is(entries.skip(1), output, reason, place - 1);
    }
}

proof fn entry_place_holds(entries: Seq<RejectionCount>, output: Seq<char>, reason: ScanoutRejection)
    ensures
        entry_place(entries, output, reason) <= entries.len(),
        forall|i: int|
            0 <= i < entry_place(entries, output, reason) ==> !((#[trigger] entries[i]).output@
                == output && entries[i].reason == reason),
        entry_place(entries, output, reason) < entries.len() ==> entries[entry_place(
            entries,
            output,
            reason,
        ) as int].output@ == output && entries[entry_place(entries, output, reason) as int].reason
            == reason,
    decreases entries.len(),
{
    if entries.len() > 0 && !(entries[0].output@ == output && entries[0].reason == reason) {
        entry_place_holds(entries.skip(1), output, reason);
        assert forall|i: int| 0 <= i < entry_place(entries, output, reason) implies !((
        #[trigger] entries[i]).output@ == output && entries[i].reason == reason) by {
            if i > 0 {
                assert(entries[i] == entries.skip(1)[i - 1]);
            }
        }
    }
}

impl RejectionCounters {
    /// How often a reason came up on an output.
    pub open spec fn count_of(self, output: Seq<char>, reason: ScanoutRejection) -> u64 {
        let place = entry_place(self.entries@, output, reason);
        if place < self.entries@.len() {
            self.entries@[place as int].count
        } else {
            0
        }
    }

    /// Nothing came up yet.
    pub fn new() -> (counters: RejectionCounters)
        ensures
            forall|output: Seq<char>, reason: ScanoutRejection|
                counters.count_of(output, reason) == 0,
    {
        RejectionCounters { entries: Vec::new() }
    }

    /// Counts a reason, and says whether it is worth a line: the first three times, and each
    /// three-thousandth time.
    pub fn record_scanout_rejection(&mut self, output: &str, reason: ScanoutRejection) -> (log: bool)
        ensures
            forall|other: Seq<char>, cause: ScanoutRejection|
                final(self).count_of(other, cause) == (if other == output@ && cause == reason {
                    old(self).count_of(other, cause).saturating_add(1)
                } else {
                    old(self).count_of(other, cause)
                }),
            log == (final(self).count_of(output@, reason) <= 3 || final(self).count_of(
                output@,
                reason,
            ) % 3000 == 0),
    {
        let ghost before = self.entries@;
        let mut index: usize = 0;
        while index < self.entries.len()
            invariant
                index <= self.entries.len(),
                before == self.entries@,
                before == old(self).entries@,
                forall|i: int|
                    0 <= i < index ==> !((#[trigger] before[i]).output@ == output@
                        && before[i].reason == reason),
            decreases self.entries.len() - index,
        {
            if self.entries[index].reason == reason && same_text(
                self.entries[index].output.as_str(),
                output,
            ) {
                let count: u64 = self.entries[index].count.saturating_add(1);
                self.entries[index].count = count;
                proof {
                    let after = self.entries@;
                    entry_place_is(after, output@, reason, index as int);
                    assert forall|other: Seq<char>, cause: ScanoutRejection| self.count_of(
                        other,
                        cause,
                    ) == (if other == output@ && cause == reason {
                        old(self).count_of(other, cause).saturating_add(1)
                    } else {
                        old(self).count_of(other, cause)
                    }) by {
                        entry_place_holds(before, other, cause);
                        entry_place_is(
                            after,
                            other,
                            cause,
                            entry_place(before, other, cause) as int,
                        );
                        if other == output@ && cause == reason {
                            entry_place_is(before, other, cause, index as int);
                        }
                    }
                }
                return count <= 3 || count % 3000 == 0;
            }
            index = index + 1;
        }
        self.entries.push(RejectionCount { output: output.to_owned(), reason, count: 1 });
        proof {
            let after = self.entries@;
            entry_place_is(after, output@, reason, before.len() as int);
            assert forall|other: Seq<char>, cause: ScanoutRejection| self.count_of(other, cause)
                == (if other == output@ && cause == reason {
                old(self).count_of(other, cause).saturating_add(1)
            } else {
                old(self).count_of(other, cause)
            }) by {
                entry_place_holds(before, other, cause);
                let place = entry_place(before, other, cause);
                if other == output@ && cause == reason {
                    entry_place_is(before, other, cause, before.len() as int);
                    entry_place_is(after, other, cause, before.len() as int);
                } else if place < before.len() {
                    entry_place_is(after, other, cause, place as int);
                } else {
                    entry_place_is(after, other, cause, after.len() as int);
                }
            }
        }
        true
    }
}

/// The number of lines written, after one more is asked for, and whether it is written.
pub fn render_trace_line(enabled: bool, lines: usize) -> (result: (usize, bool))
    ensures
        result.1 == (enabled && lines < TRACE_MAX_LINES),
        result.0 == (if result.1 {
            lines + 1
        } else {
            lines as int
        }),
{
    if enabled && lines < TRACE_MAX_LINES {
        (lines + 1, true)
    } else {
        (lines, false)
    }
}

/// A rectangle with a label, as it is written down.
pub open spec fn rect_line(label: Seq<char>, rect: Rectangle) -> Seq<char> {
    label + "="@ + numbers::signed_decimal(rect.size.w as int) + "x"@ + numbers::signed_decimal(
        rect.size.h as int,
    ) + "@"@ + numbers::signed_decimal(rect.loc.x as int) + ","@ + numbers::signed_decimal(
        rect.loc.y as int,
    )
}

/// A rectangle with a label, as it is written down.
pub fn trace_rect(label: &str, rect: Rectangle) -> (line: String)
    ensures
        line@ == rect_line(label@, rect),
{
    let mut line = label.to_owned();
    line.append("=");
    line.append(write_signed(rect.size.w as i64).as_str());
    line.append("x");
    line.append(write_signed(rect.size.h as i64).as_str());
    line.append("@");
    line.append(write_signed(rect.loc.x as i64).as_str());
    line.append(",");
    line.append(write_signed(rect.loc.y as i64).as_str());
    line
}

/// A window that is fullscreen is shown directly exactly while that is enabled and nothing else is
/// to be seen on its output.
pub proof fn direct_when_alone(enabled: bool, sight: OutputSight)
    ensures
        frame_rejection(true, enabled, sight) is None <==> enabled && sight.has_geometry && (
        !sight.pointer_inside || sight.cursor_hidden) && !sight.overlay_layers
            && !sight.top_layers,
{
}

} // verus!
