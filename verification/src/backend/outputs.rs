//! Outputs: their names, their modes, and where they are put.

use crate::config::monitors;
use crate::config::monitors::{Monitor, MonitorConfig};
use crate::numbers;
use crate::numbers::write_decimal;
use crate::state::lists::SurfaceId;
use crate::state::raven::{Raven, State};
use crate::state::space::Output;
use crate::state::toplevel::OutputId;
use crate::text;
use crate::text::{
    eq_ignore_case, is_ascii_digit, is_ascii_letter, join, same_text, split, to_lowercase,
    to_uppercase, trim,
};
use vstd::prelude::*;

verus! {

/// Whether all characters are ASCII digits.
pub open spec fn all_digits(text: Seq<char>) -> bool {
    forall|i: int| 0 <= i < text.len() ==> text::ascii_digit(#[trigger] text[i])
}

/// The parts of an output's name without the single letter before the number, where there is one.
pub open spec fn short_parts(parts: Seq<Seq<char>>) -> Seq<Seq<char>> {
    if parts.len() >= 3 && parts[parts.len() - 2].len() == 1 && text::ascii_letter(
        parts[parts.len() - 2][0],
    ) && all_digits(parts.last()) {
        parts.remove(parts.len() - 2)
    } else {
        parts
    }
}

/// The name that an output is known by: in capitals, and without the single letter before the
/// number.
pub open spec fn canonical_name(name: Seq<char>) -> Seq<char> {
    text::joined(
        short_parts(text::segments(text::uppercase(text::trimmed(name)), '-')),
        "-"@,
    )
}

/// Whether a configured name means an output.
pub open spec fn names_output(configured: Seq<char>, actual: Seq<char>) -> bool {
    text::same_ignoring_case(configured, actual) || text::same_ignoring_case(
        canonical_name(configured),
        canonical_name(actual),
    )
}

fn has_only_digits(word: &str) -> (result: bool)
    ensures
        result == all_digits(word@),
{
    let chars = text::chars_of(word);
    let mut index: usize = 0;
    while index < chars.len()
        invariant
            index <= chars.len(),
            chars@ == word@,
            forall|i: int| 0 <= i < index ==> text::ascii_digit(#[trigger] word@[i]),
        decreases chars.len() - index,
    {
        if !is_ascii_digit(chars[index]) {
            assert(!text::ascii_digit(word@[index as int]));
            return false;
        }
        index = index + 1;
    }
    true
}

fn is_single_letter(word: &str) -> (result: bool)
    ensures
        result == (word@.len() == 1 && text::ascii_letter(word@[0])),
{
    let chars = text::chars_of(word);
    chars.len() == 1 && is_ascii_letter(chars[0])
}

/// The name that an output is known by.
pub fn canonical_output_name(name: &str) -> (canonical: String)
    ensures
        canonical@ == canonical_name(name@),
{
    let normalized = to_uppercase(trim(name).as_str());
    let mut parts = split(normalized.as_str(), '-');
    let ghost plain = text::texts(parts@);
    let count: usize = parts.len();
    if count >= 3 && is_single_letter(parts[count - 2].as_str()) && has_only_digits(
        parts[count - 1].as_str(),
    ) {
        assert(plain[count - 2] == parts@[count - 2]@);
        assert(plain.last() == parts@[count - 1]@);
        let _ = parts.remove(count - 2);
        assert(text::texts(parts@) =~= plain.remove(count - 2));
    } else if count >= 3 {
        assert(plain[count - 2] == parts@[count - 2]@);
        assert(plain.last() == parts@[count - 1]@);
    }
    let canonical = join(&parts, 0, "-");
    assert(text::texts(parts@).skip(0) =~= text::texts(parts@));
    canonical
}

/// Whether a configured name means an output.
pub fn output_name_matches(configured: &str, actual: &str) -> (result: bool)
    ensures
        result == names_output(configured@, actual@),
{
    eq_ignore_case(configured, actual) || eq_ignore_case(
        canonical_output_name(configured).as_str(),
        canonical_output_name(actual).as_str(),
    )
}

/// Every output is meant by its own name, and of two names either both mean each other's output or
/// neither does.
pub proof fn naming_is_mutual(left: Seq<char>, right: Seq<char>)
    ensures
        names_output(left, left),
        names_output(left, right) == names_output(right, left),
{
}

/// The first configuration that means an output.
pub open spec fn monitor_for(found: Seq<Monitor>, name: Seq<char>) -> Option<Monitor>
    decreases found.len(),
{
    if found.len() == 0 {
        None
    } else if names_output(found[0].name, name) {
        Some(found[0])
    } else {
        monitor_for(found.skip(1), name)
    }
}

/// A configuration as plain values, where there is one.
pub open spec fn monitor_view(monitor: Option<MonitorConfig>) -> Option<Monitor> {
    match monitor {
        Some(monitor) => Some(monitor@),
        None => None,
    }
}

/// The first configuration that means an output.
pub fn select_monitor_config(found: &Vec<MonitorConfig>, output_name: &str) -> (monitor: Option<
    MonitorConfig,
>)
    ensures
        monitor_view(monitor) == monitor_for(monitors::monitors_view(found@), output_name@),
{
    let ghost all = monitors::monitors_view(found@);
    let mut index: usize = 0;
    assert(all.skip(0) =~= all);
    while index < found.len()
        invariant
            index <= found.len(),
            all == monitors::monitors_view(found@),
            monitor_for(all.skip(index as int), output_name@) == monitor_for(all, output_name@),
        decreases found.len() - index,
    {
        assert(all.skip(index as int).skip(1) =~= all.skip(index + 1));
        assert(all.skip(index as int)[0] == found[index as int]@);
        if output_name_matches(found[index].name.as_str(), output_name) {
            return Some(found[index].copy());
        }
        index = index + 1;
    }
    None
}

/// A mode that an output offers; `refresh_diff` says how far its refresh rate is from the one that
/// the configuration asks for, in thousandths of a hertz, and is zero where it asks for none.
#[derive(Clone, Copy, Debug, PartialEq, Eq, Structural)]
pub struct ModeInfo {
    pub width: u16,
    pub height: u16,
    pub vrefresh: u32,
    pub preferred: bool,
    pub refresh_diff: u64,
}

/// Whether a mode has the size that is asked for, if any is.
pub open spec fn mode_fits(mode: ModeInfo, size: Option<(u16, u16)>) -> bool {
    match size {
        Some((width, height)) => mode.width == width && mode.height == height,
        None => true,
    }
}

/// Whether a mode is better than another: closer in its refresh rate, or as close and preferred, or
/// otherwise equal and faster.
pub open spec fn mode_beats(mode: ModeInfo, other: ModeInfo) -> bool {
    mode.refresh_diff < other.refresh_diff || (mode.refresh_diff == other.refresh_diff && (
    mode.preferred && !other.preferred || (mode.preferred == other.preferred && mode.vrefresh
        > other.vrefresh)))
}

/// The first preferred mode at or after `from`, or else the first of all.
pub open spec fn preferred_from(modes: Seq<ModeInfo>, from: int) -> int
    decreases modes.len() - from,
{
    if from < 0 || from >= modes.len() {
        0
    } else if modes[from].preferred {
        from
    } else {
        preferred_from(modes, from + 1)
    }
}

/// The best of the first `count` modes that fit.
pub open spec fn best_mode(modes: Seq<ModeInfo>, size: Option<(u16, u16)>, count: nat) -> Option<int>
    decreases count,
{
    if count == 0 {
        None
    } else {
        let at = count - 1;
        match best_mode(modes, size, (count - 1) as nat) {
            None => if mode_fits(modes[at], size) {
                Some(at)
            } else {
                None
            },
            Some(best) => if mode_fits(modes[at], size) && mode_beats(modes[at], modes[best]) {
                Some(at)
            } else {
                Some(best)
            },
        }
    }
}

/// The size that a configuration asks for.
pub open spec fn asked_size(monitor: Monitor) -> Option<(u16, u16)> {
    match (monitor.width, monitor.height) {
        (Some(width), Some(height)) => Some((width, height)),
        _ => None,
    }
}

/// The mode of an output: the best that fits what is asked for, or else the preferred one.
pub open spec fn chosen_mode(modes: Seq<ModeInfo>, monitor: Option<Monitor>) -> int {
    let preferred = preferred_from(modes, 0);
    match monitor {
        None => preferred,
        Some(monitor) => if asked_size(monitor) is None && monitor.refresh_hz is None {
            preferred
        } else {
            match best_mode(modes, asked_size(monitor), modes.len()) {
                Some(best) => best,
                None => preferred,
            }
        },
    }
}

/// The best mode fits, and no mode that fits is better.
pub proof fn best_mode_is_best(modes: Seq<ModeInfo>, size: Option<(u16, u16)>, count: nat)
    requires
        count <= modes.len(),
    ensures
        match best_mode(modes, size, count) {
            Some(best) => 0 <= best < count && mode_fits(modes[best], size) && forall|i: int|
                0 <= i < count && mode_fits(#[trigger] modes[i], size) ==> !mode_beats(
                    modes[i],
                    modes[best],
                ),
            None => forall|i: int| 0 <= i < count ==> !mode_fits(#[trigger] modes[i], size),
        },
    decreases count,
{
    if count > 0 {
        best_mode_is_best(modes, size, (count - 1) as nat);
    }
}

proof fn preferred_is_there(modes: Seq<ModeInfo>, from: int)
    requires
        0 <= from <= modes.len(),
        modes.len() > 0,
    ensures
        0 <= preferred_from(modes, from) < modes.len(),
    decreases modes.len() - from,
{
    if from < modes.len() && !modes[from].preferred {
        preferred_is_there(modes, from + 1);
    }
}

/// The mode that is chosen is one of those offered.
pub proof fn chosen_mode_is_offered(modes: Seq<ModeInfo>, monitor: Option<Monitor>)
    requires
        modes.len() > 0,
    ensures
        0 <= chosen_mode(modes, monitor) < modes.len(),
{
    preferred_is_there(modes, 0);
    if let Some(monitor) = monitor {
        best_mode_is_best(modes, asked_size(monitor), modes.len());
    }
}

fn preferred_mode_index(modes: &Vec<ModeInfo>) -> (index: usize)
    ensures
        index == preferred_from(modes@, 0),
{
    let mut index: usize = 0;
    while index < modes.len()
        invariant
            index <= modes.len(),
            preferred_from(modes@, 0) == preferred_from(modes@, index as int),
        decreases modes.len() - index,
    {
        if modes[index].preferred {
            return index;
        }
        index = index + 1;
    }
    0
}

fn is_better(mode: ModeInfo, other: ModeInfo) -> (result: bool)
    ensures
        result == mode_beats(mode, other),
{
    mode.refresh_diff < other.refresh_diff || (mode.refresh_diff == other.refresh_diff && ((
    mode.preferred && !other.preferred) || (mode.preferred == other.preferred && mode.vrefresh
        > other.vrefresh)))
}

/// The mode of an output: the best that fits what is asked for, or else the preferred one.
pub fn select_mode_index(modes: &Vec<ModeInfo>, monitor: Option<&MonitorConfig>) -> (index: usize)
    ensures
        index == chosen_mode(
            modes@,
            match monitor {
                Some(monitor) => Some(monitor@),
                None => None,
            },
        ),
{
    let preferred: usize = preferred_mode_index(modes);
    let monitor = match monitor {
        Some(monitor) => monitor,
        None => return preferred,
    };
    let size = match (monitor.width, monitor.height) {
        (Some(width), Some(height)) => Some((width, height)),
        _ => None,
    };
    assert(size == asked_size(monitor@));
    if size.is_none() && monitor.refresh_hz.is_none() {
        return preferred;
    }
    let mut best: Option<usize> = None;
    let mut index: usize = 0;
    while index < modes.len()
        invariant
            index <= modes.len(),
            best matches Some(best) ==> best < index,
            best_mode(modes@, size, index as nat) == (match best {
                Some(best) => Some(best as int),
                None => None,
            }),
        decreases modes.len() - index,
    {
        let mode = modes[index];
        let fits = match size {
            Some((width, height)) => mode.width == width && mode.height == height,
            None => true,
        };
        if fits {
            let better = match best {
                Some(best) => is_better(mode, modes[best]),
                None => true,
            };
            if better {
                best = Some(index);
            }
        }
        index = index + 1;
    }
    match best {
        Some(best) => best,
        None => preferred,
    }
}

/// How an output's picture is turned.
#[derive(Clone, Copy, Debug, PartialEq, Eq, Structural)]
pub enum Transform {
    Normal,
    Rotated90,
    Rotated180,
    Rotated270,
    Flipped,
    Flipped90,
    Flipped180,
    Flipped270,
}

/// The turn that a word names.
pub open spec fn named_transform(word: Seq<char>) -> Option<Transform> {
    if word == "normal"@ || word == "0"@ {
        Some(Transform::Normal)
    } else if word == "90"@ || word == "_90"@ || word == "rotate90"@ {
        Some(Transform::Rotated90)
    } else if word == "180"@ || word == "_180"@ || word == "rotate180"@ {
        Some(Transform::Rotated180)
    } else if word == "270"@ || word == "_270"@ || word == "rotate270"@ {
        Some(Transform::Rotated270)
    } else if word == "flipped"@ || word == "flip"@ || word == "4"@ {
        Some(Transform::Flipped)
    } else if word == "flipped90"@ || word == "flipped-90"@ || word == "flip90"@ || word == "5"@ {
        Some(Transform::Flipped90)
    } else if word == "flipped180"@ || word == "flipped-180"@ || word == "flip180"@ || word
        == "6"@ {
        Some(Transform::Flipped180)
    } else if word == "flipped270"@ || word == "flipped-270"@ || word == "flip270"@ || word
        == "7"@ {
        Some(Transform::Flipped270)
    } else {
        None
    }
}

/// The turn that a configuration asks for; none where it names none that there is.
pub open spec fn configured_transform(raw: Option<Seq<char>>) -> Transform {
    match raw {
        Some(raw) => match named_transform(text::lowercase(text::trimmed(raw))) {
            Some(transform) => transform,
            None => Transform::Normal,
        },
        None => Transform::Normal,
    }
}

fn read_transform(word: &str) -> (transform: Option<Transform>)
    ensures
        transform == named_transform(word@),
{
    if same_text(word, "normal") || same_text(word, "0") {
        Some(Transform::Normal)
    } else if same_text(word, "90") || same_text(word, "_90") || same_text(word, "rotate90") {
        Some(Transform::Rotated90)
    } else if same_text(word, "180") || same_text(word, "_180") || same_text(word, "rotate180") {
        Some(Transform::Rotated180)
    } else if same_text(word, "270") || same_text(word, "_270") || same_text(word, "rotate270") {
        Some(Transform::Rotated270)
    } else if same_text(word, "flipped") || same_text(word, "flip") || same_text(word, "4") {
        Some(Transform::Flipped)
    } else if same_text(word, "flipped90") || same_text(word, "flipped-90") || same_text(
        word,
        "flip90",
    ) || same_text(word, "5") {
        Some(Transform::Flipped90)
    } else if same_text(word, "flipped180") || same_text(word, "flipped-180") || same_text(
        word,
        "flip180",
    ) || same_text(word, "6") {
        Some(Transform::Flipped180)
    } else if same_text(word, "flipped270") || same_text(word, "flipped-270") || same_text(
        word,
        "flip270",
    ) || same_text(word, "7") {
        Some(Transform::Flipped270)
    } else {
        None
    }
}

/// The turn that a configuration asks for; none where it names none that there is.
pub fn monitor_transform_from_config(raw: Option<&str>) -> (transform: Transform)
    ensures
        transform == configured_transform(text::slice_view(raw)),
{
    match raw {
        Some(raw) => match read_transform(to_lowercase(trim(raw).as_str()).as_str()) {
            Some(transform) => transform,
            None => Transform::Normal,
        },
        None => Transform::Normal,
    }
}

/// The width of the outputs side by side.
pub open spec fn total_width(outputs: Seq<Output>) -> i32
    decreases outputs.len(),
{
    if outputs.len() == 0 {
        0
    } else {
        match outputs.last().geometry {
            Some(geometry) => total_width(outputs.drop_last()).wrapping_add(geometry.size.w),
            None => total_width(outputs.drop_last()),
        }
    }
}

fn width_of_outputs(outputs: &Vec<Output>) -> (width: i32)
    ensures
        width == total_width(outputs@),
{
    let mut width: i32 = 0;
    let mut index: usize = 0;
    assert(outputs@.take(0) =~= seq![]);
    while index < outputs.len()
        invariant
            index <= outputs.len(),
            width == total_width(outputs@.take(index as int)),
        decreases outputs.len() - index,
    {
        assert(outputs@.take(index + 1).drop_last() =~= outputs@.take(index as int));
        if let Some(geometry) = outputs[index].geometry {
            width = width.wrapping_add(geometry.size.w);
        }
        index = index + 1;
    }
    assert(outputs@.take(outputs@.len() as int) =~= outputs@);
    width
}

/// What a new output is set to. The scale is the text of a floating point number.
#[derive(Debug)]
pub struct OutputPlan {
    pub mode_index: usize,
    pub x: i32,
    pub y: i32,
    pub transform: Transform,
    pub scale: Option<String>,
}

/// An `OutputPlan` as plain values.
pub struct Plan {
    pub mode_index: int,
    pub x: i32,
    pub y: i32,
    pub transform: Transform,
    pub scale: Option<Seq<char>>,
}

impl View for OutputPlan {
    type V = Plan;

    open spec fn view(&self) -> Plan {
        Plan {
            mode_index: self.mode_index as int,
            x: self.x,
            y: self.y,
            transform: self.transform,
            scale: text::text_view(self.scale),
        }
    }
}

/// What a new output is set to: what its configuration asks for, and otherwise the preferred mode,
/// to the right of the others. Nothing, where the configuration disables it and it is not the only
/// one.
pub open spec fn plan_for(
    found: Seq<Monitor>,
    outputs: Seq<Output>,
    name: Seq<char>,
    modes: Seq<ModeInfo>,
) -> Option<Plan> {
    match monitor_for(found, name) {
        None => Some(
            Plan {
                mode_index: chosen_mode(modes, None),
                x: total_width(outputs),
                y: 0,
                transform: Transform::Normal,
                scale: None,
            },
        ),
        Some(monitor) => if !monitor.enabled && outputs.len() > 0 {
            None
        } else {
            Some(
                Plan {
                    mode_index: chosen_mode(modes, Some(monitor)),
                    x: match monitor.x {
                        Some(x) => x,
                        None => total_width(outputs),
                    },
                    y: match monitor.y {
                        Some(y) => y,
                        None => 0,
                    },
                    transform: configured_transform(monitor.transform),
                    scale: monitor.scale,
                },
            )
        },
    }
}

/// A plan as plain values, where there is one.
pub open spec fn plan_view(plan: Option<OutputPlan>) -> Option<Plan> {
    match plan {
        Some(plan) => Some(plan@),
        None => None,
    }
}

/// The name of an output: its kind and its number.
pub fn connector_name(interface: &str, id: u32) -> (name: String)
    ensures
        name@ == interface@ + "-"@ + numbers::decimal(id as nat),
{
    let mut name = interface.to_owned();
    name.append("-");
    name.append(write_decimal(id as u64).as_str());
    name
}

/// The outputs without one.
pub open spec fn outputs_without(outputs: Seq<Output>, id: OutputId) -> Seq<Output>
    decreases outputs.len(),
{
    if outputs.len() == 0 {
        outputs
    } else if outputs.last().id == id {
        outputs_without(outputs.drop_last(), id)
    } else {
        outputs_without(outputs.drop_last(), id).push(outputs.last())
    }
}

impl Raven {
    /// What a new output is set to; nothing where it is to stay off.
    pub fn plan_output(&self, name: &str, modes: &Vec<ModeInfo>) -> (plan: Option<OutputPlan>)
        ensures
            plan_view(plan) == plan_for(self@.settings.monitors, self@.outputs, name@, modes@),
    {
        match select_monitor_config(&self.config.monitors, name) {
            None => Some(
                OutputPlan {
                    mode_index: select_mode_index(modes, None),
                    x: width_of_outputs(&self.outputs),
                    y: 0,
                    transform: Transform::Normal,
                    scale: None,
                },
            ),
            Some(monitor) => {
                if !monitor.enabled && self.outputs.len() > 0 {
                    return None;
                }
                let transform = match &monitor.transform {
                    Some(raw) => monitor_transform_from_config(Some(raw.as_str())),
                    None => monitor_transform_from_config(None),
                };
                Some(
                    OutputPlan {
                        mode_index: select_mode_index(modes, Some(&monitor)),
                        x: match monitor.x {
                            Some(x) => x,
                            None => width_of_outputs(&self.outputs),
                        },
                        y: match monitor.y {
                            Some(y) => y,
                            None => 0,
                        },
                        transform,
                        scale: monitor.scale,
                    },
                )
            },
        }
    }

    /// Takes an output in, after the others.
    pub fn map_output(&mut self, output: Output)
        ensures
            final(self)@ == (State { outputs: old(self)@.outputs.push(output), ..old(self)@ }),
    {
        self.outputs.push(output);
    }

    /// Forgets an output.
    pub fn unmap_output(&mut self, id: OutputId)
        ensures
            final(self)@ == (State {
                outputs: outputs_without(old(self)@.outputs, id),
                ..old(self)@
            }),
    {
        let mut kept: Vec<Output> = Vec::new();
        let ghost all = self.outputs@;
        let mut index: usize = 0;
        assert(all.take(0) =~= seq![]);
        while index < self.outputs.len()
            invariant
                index <= self.outputs.len(),
                all == self.outputs@,
                self@ == old(self)@,
                kept@ == outputs_without(all.take(index as int), id),
            decreases self.outputs.len() - index,
        {
            assert(all.take(index + 1).drop_last() =~= all.take(index as int));
            if self.outputs[index].id != id {
                kept.push(self.outputs[index]);
            }
            index = index + 1;
        }
        assert(all.take(all.len() as int) =~= all);
        self.outputs = kept;
    }
}

/// While one output is there, at least one is shown: the configuration cannot turn the only one off.
pub proof fn only_output_stays_on(found: Seq<Monitor>, name: Seq<char>, modes: Seq<ModeInfo>)
    ensures
        plan_for(found, seq![], name, modes) is Some,
{
}

proof fn kept_outputs_were_there(outputs: Seq<Output>, id: OutputId)
    ensures
        forall|i: int|
            0 <= i < outputs_without(outputs, id).len() ==> #[trigger] outputs.contains(
                outputs_without(outputs, id)[i],
            ) && outputs_without(outputs, id)[i].id != id,
    decreases outputs.len(),
{
    if outputs.len() > 0 {
        let rest = outputs.drop_last();
        kept_outputs_were_there(rest, id);
        let kept = outputs_without(outputs, id);
        assert forall|i: int| 0 <= i < kept.len() implies #[trigger] outputs.contains(kept[i])
            && kept[i].id != id by {
            if i < outputs_without(rest, id).len() {
                assert(rest.contains(outputs_without(rest, id)[i]));
                let at = choose|at: int|
                    0 <= at < rest.len() && rest[at] == outputs_without(rest, id)[i];
                assert(outputs[at] == kept[i]);
            } else {
                assert(outputs[outputs.len() - 1] == kept[i]);
            }
        }
    }
}

/// Outputs may come and go: the windows stay in order.
pub proof fn outputs_come_and_go(state: State, output: Output, id: OutputId)
    requires
        state.orderly(),
        output.geometry matches Some(geometry) ==> geometry.size.roomy(),
    ensures
        (State { outputs: state.outputs.push(output), ..state }).orderly(),
        (State { outputs: outputs_without(state.outputs, id), ..state }).orderly(),
        forall|i: int|
            0 <= i < outputs_without(state.outputs, id).len() ==> (#[trigger] outputs_without(
                state.outputs,
                id,
            )[i]).id != id,
{
    let more = State { outputs: state.outputs.push(output), ..state };
    let fewer = State { outputs: outputs_without(state.outputs, id), ..state };
    kept_outputs_were_there(state.outputs, id);
    assert forall|i: int| 0 <= i < fewer.outputs.len() implies ((
    #[trigger] fewer.outputs[i]).geometry matches Some(geometry) ==> geometry.size.roomy()) by {
        assert(state.outputs.contains(fewer.outputs[i]));
    }
    assert forall|i: int| 0 <= i < fewer.outputs.len() implies (#[trigger] fewer.outputs[i]).id
        != id by {
        assert(state.outputs.contains(fewer.outputs[i]));
    }
    assert forall|window: SurfaceId|
        more.toplevel(window) == #[trigger] state.toplevel(window) && fewer.toplevel(window)
            == state.toplevel(window) by {}
    assert forall|i: int, window: SurfaceId|
        more.workspace_holds(i, window) == #[trigger] state.workspace_holds(i, window)
            && fewer.workspace_holds(i, window) == state.workspace_holds(i, window) by {}
}

} // verus!
