//! The windows that other programs are told of: which there are, and what changed of them.

use crate::state::lists::{workspace_contains_window_entry, SurfaceId};
use crate::state::raven::{Raven, State};
use crate::state::toplevel::OutputId;
use crate::text;
use crate::text::same_text;
use vstd::prelude::*;

verus! {

/// What is told of a window.
#[derive(Debug)]
pub struct ToplevelData {
    pub surface: SurfaceId,
    pub title: Option<String>,
    pub app_id: Option<String>,
    pub states: Vec<u32>,
    pub output: Option<OutputId>,
}

/// A `ToplevelData` as plain values.
pub struct Told {
    pub surface: SurfaceId,
    pub title: Option<Seq<char>>,
    pub app_id: Option<Seq<char>>,
    pub states: Seq<u32>,
    pub output: Option<OutputId>,
}

impl View for ToplevelData {
    type V = Told;

    open spec fn view(&self) -> Told {
        Told {
            surface: self.surface,
            title: text::text_view(self.title),
            app_id: text::text_view(self.app_id),
            states: self.states@,
            output: self.output,
        }
    }
}

/// What is told of windows as plain values.
pub open spec fn told_view(list: Seq<ToplevelData>) -> Seq<Told> {
    Seq::new(list.len(), |i: int| list[i]@)
}

/// What other programs are to be told.
#[derive(Clone, Copy, Debug, PartialEq, Eq, Structural)]
pub enum ToplevelEvent {
    /// A window is gone.
    Closed(SurfaceId),
    /// There is a new window.
    Created(SurfaceId),
    /// This is new of a window.
    Changed { surface: SurfaceId, title: bool, app_id: bool, states: bool, output: bool },
}

/// What a client says of its window, and the state that it last took on.
#[derive(Debug)]
pub struct WindowFacts {
    pub surface: SurfaceId,
    pub title: Option<String>,
    pub app_id: Option<String>,
    pub maximized: bool,
    pub fullscreen: bool,
}

/// A `WindowFacts` as plain values.
pub struct WindowSays {
    pub title: Option<Seq<char>>,
    pub app_id: Option<Seq<char>>,
    pub maximized: bool,
    pub fullscreen: bool,
}

/// What the first entry for a window says; nothing, where there is none.
pub open spec fn said_of(facts: Seq<WindowFacts>, window: SurfaceId) -> WindowSays
    decreases facts.len(),
{
    if facts.len() == 0 {
        WindowSays { title: None, app_id: None, maximized: false, fullscreen: false }
    } else if facts[0].surface == window {
        WindowSays {
            title: text::text_view(facts[0].title),
            app_id: text::text_view(facts[0].app_id),
            maximized: facts[0].maximized,
            fullscreen: facts[0].fullscreen,
        }
    } else {
        said_of(facts.skip(1), window)
    }
}

/// The numbers of a window's states: maximized is 0, fullscreen 3 and activated 2.
pub open spec fn state_numbers(maximized: bool, fullscreen: bool, has_focus: bool) -> Seq<u32> {
    (if maximized {
        seq![0u32]
    } else {
        seq![]
    }) + (if fullscreen {
        seq![3u32]
    } else {
        seq![]
    }) + (if has_focus {
        seq![2u32]
    } else {
        seq![]
    })
}

/// The numbers of a window's states.
pub fn to_state_vec(maximized: bool, fullscreen: bool, has_focus: bool) -> (states: Vec<u32>)
    ensures
        states@ == state_numbers(maximized, fullscreen, has_focus),
{
    let mut states: Vec<u32> = Vec::new();
    if maximized {
        states.push(0);
    }
    if fullscreen {
        states.push(3);
    }
    if has_focus {
        states.push(2);
    }
    assert(states@ =~= state_numbers(maximized, fullscreen, has_focus));
    states
}

/// What is told of the windows that are still there.
pub open spec fn still_there(told: Seq<Told>, windows: Seq<SurfaceId>) -> Seq<Told>
    decreases told.len(),
{
    if told.len() == 0 {
        told
    } else if windows.contains(told.last().surface) {
        still_there(told.drop_last(), windows).push(told.last())
    } else {
        still_there(told.drop_last(), windows)
    }
}

/// That windows are gone.
pub open spec fn closings(told: Seq<Told>, windows: Seq<SurfaceId>) -> Seq<ToplevelEvent>
    decreases told.len(),
{
    if told.len() == 0 {
        Seq::<ToplevelEvent>::empty()
    } else if windows.contains(told.last().surface) {
        closings(told.drop_last(), windows)
    } else {
        closings(told.drop_last(), windows).push(ToplevelEvent::Closed(told.last().surface))
    }
}

/// The place of a window among those that are told of; past the end, where it is not there.
pub open spec fn told_place(told: Seq<Told>, surface: SurfaceId) -> nat
    decreases told.len(),
{
    if told.len() == 0 || told[0].surface == surface {
        0
    } else {
        1 + told_place(told.skip(1), surface)
    }
}

/// What is told of windows, with one told anew.
pub open spec fn told_with(told: Seq<Told>, entry: Told) -> Seq<Told> {
    let place = told_place(told, entry.surface);
    if place < told.len() {
        told.update(place as int, entry)
    } else {
        told.push(entry)
    }
}

/// What other programs are to be told of a window: that it is new, or what is new of it.
pub open spec fn news_of(told: Seq<Told>, entry: Told) -> Option<ToplevelEvent> {
    let place = told_place(told, entry.surface);
    if place < told.len() {
        let old = told[place as int];
        if old.title != entry.title || old.app_id != entry.app_id || old.states != entry.states
            || old.output != entry.output {
            Some(
                ToplevelEvent::Changed {
                    surface: entry.surface,
                    title: old.title != entry.title,
                    app_id: old.app_id != entry.app_id,
                    states: old.states != entry.states,
                    output: old.output != entry.output,
                },
            )
        } else {
            None
        }
    } else {
        Some(ToplevelEvent::Created(entry.surface))
    }
}

impl State {
    /// What is to be told of a window: one on the screen counts to the first output.
    pub open spec fn told_of(self, window: SurfaceId, says: WindowSays) -> Told {
        Told {
            surface: window,
            title: says.title,
            app_id: says.app_id,
            states: state_numbers(
                says.maximized,
                says.fullscreen,
                self.keyboard_focus == Some(window),
            ),
            output: if self.on_screen(window) {
                self.first_output()
            } else {
                None
            },
        }
    }

    /// What is told after these windows are told of.
    pub open spec fn told_after(
        self,
        told: Seq<Told>,
        windows: Seq<SurfaceId>,
        facts: Seq<WindowFacts>,
    ) -> Seq<Told>
        decreases windows.len(),
    {
        if windows.len() == 0 {
            told
        } else {
            told_with(
                self.told_after(told, windows.drop_last(), facts),
                self.told_of(windows.last(), said_of(facts, windows.last())),
            )
        }
    }

    /// What other programs are to be told when these windows are told of.
    pub open spec fn news_after(
        self,
        told: Seq<Told>,
        windows: Seq<SurfaceId>,
        facts: Seq<WindowFacts>,
    ) -> Seq<ToplevelEvent>
        decreases windows.len(),
    {
        if windows.len() == 0 {
            Seq::<ToplevelEvent>::empty()
        } else {
            let before = self.news_after(told, windows.drop_last(), facts);
            match news_of(
                self.told_after(told, windows.drop_last(), facts),
                self.told_of(windows.last(), said_of(facts, windows.last())),
            ) {
                Some(event) => before.push(event),
                None => before,
            }
        }
    }
}

fn same_option(one: &Option<String>, other: &Option<String>) -> (same: bool)
    ensures
        same == (text::text_view(*one) == text::text_view(*other)),
{
    match (one, other) {
        (Some(one), Some(other)) => same_text(one.as_str(), other.as_str()),
        (None, None) => true,
        _ => false,
    }
}

fn copy_option(value: &Option<String>) -> (copy: Option<String>)
    ensures
        text::text_view(copy) == text::text_view(*value),
{
    match value {
        Some(value) => Some(value.as_str().to_owned()),
        None => None,
    }
}

fn same_numbers(one: &Vec<u32>, other: &Vec<u32>) -> (same: bool)
    ensures
        same == (one@ == other@),
{
    if one.len() != other.len() {
        return false;
    }
    let mut index: usize = 0;
    while index < one.len()
        invariant
            index <= one.len(),
            one.len() == other.len(),
            forall|i: int| 0 <= i < index ==> one@[i] == other@[i],
        decreases one.len() - index,
    {
        if one[index] != other[index] {
            assert(one@[index as int] != other@[index as int]);
            return false;
        }
        index = index + 1;
    }
    assert(one@ =~= other@);
    true
}

fn same_output(one: Option<OutputId>, other: Option<OutputId>) -> (same: bool)
    ensures
        same == (one == other),
{
    match (one, other) {
        (Some(one), Some(other)) => one == other,
        (None, None) => true,
        _ => false,
    }
}

/// What other programs were told of windows.
#[derive(Debug)]
pub struct ForeignToplevelManagerState {
    pub toplevels: Vec<ToplevelData>,
}

impl View for ForeignToplevelManagerState {
    type V = Seq<Told>;

    open spec fn view(&self) -> Seq<Told> {
        told_view(self.toplevels@)
    }
}

proof fn told_place_is(told: Seq<Told>, surface: SurfaceId, place: int)
    requires
        0 <= place <= told.len(),
        forall|i: int| 0 <= i < place ==> (#[trigger] told[i]).surface != surface,
        place < told.len() ==> told[place].surface == surface,
    ensures
        told_place(told, surface) == place,
    decreases told.len(),
{
    if told.len() > 0 && place > 0 {
        assert(told[0].surface != surface);
        assert forall|i: int| 0 <= i < place - 1 implies (#[trigger] told.skip(1)[i]).surface
            != surface by {
            assert(told.skip(1)[i] == told[i + 1]);
        }
        told_place_is(told.skip(1), surface, place - 1);
    }
}

impl ForeignToplevelManagerState {
    /// Nothing was told yet.
    pub fn new() -> (manager: ForeignToplevelManagerState)
        ensures
            manager@ == Seq::<Told>::empty(),
    {
        let manager = ForeignToplevelManagerState { toplevels: Vec::new() };
        assert(manager@ =~= Seq::<Told>::empty());
        manager
    }

    pub(crate) fn find(&self, surface: SurfaceId) -> (place: usize)
        ensures
            place == told_place(self@, surface),
            place <= self.toplevels.len(),
    {
        let mut place: usize = 0;
        while place < self.toplevels.len()
            invariant
                place <= self.toplevels.len(),
                forall|i: int| 0 <= i < place ==> (#[trigger] self@[i]).surface != surface,
            decreases self.toplevels.len() - place,
        {
            assert(self@[place as int] == self.toplevels[place as int]@);
            if self.toplevels[place].surface == surface {
                proof {
                    told_place_is(self@, surface, place as int);
                }
                return place;
            }
            place = place + 1;
        }
        proof {
            told_place_is(self@, surface, place as int);
        }
        place
    }

    /// Takes in what is to be told of a window, and says what is new.
    pub fn refresh_toplevel(&mut self, entry: ToplevelData) -> (event: Option<ToplevelEvent>)
        ensures
            final(self)@ == told_with(old(self)@, entry@),
            event == news_of(old(self)@, entry@),
    {
        let ghost before = self@;
        let place: usize = self.find(entry.surface);
        let surface = entry.surface;
        if place < self.toplevels.len() {
            assert(before[place as int] == self.toplevels[place as int]@);
            let title = !same_option(&self.toplevels[place].title, &entry.title);
            let app_id = !same_option(&self.toplevels[place].app_id, &entry.app_id);
            let states = !same_numbers(&self.toplevels[place].states, &entry.states);
            let output = !same_output(self.toplevels[place].output, entry.output);
            self.toplevels.set(place, entry);
            assert(self@ =~= before.update(place as int, entry@));
            if title || app_id || states || output {
                Some(ToplevelEvent::Changed { surface, title, app_id, states, output })
            } else {
                None
            }
        } else {
            self.toplevels.push(entry);
            assert(self@ =~= before.push(entry@));
            Some(ToplevelEvent::Created(surface))
        }
    }

    fn retain_windows(&mut self, windows: &Vec<SurfaceId>) -> (events: Vec<ToplevelEvent>)
        ensures
            final(self)@ == still_there(old(self)@, windows@),
            events@ == closings(old(self)@, windows@),
    {
        let mut old_list: Vec<ToplevelData> = Vec::new();
        std::mem::swap(&mut old_list, &mut self.toplevels);
        let ghost told = told_view(old_list@);
        let mut kept: Vec<ToplevelData> = Vec::new();
        let mut events: Vec<ToplevelEvent> = Vec::new();
        let mut index: usize = 0;
        assert(told.take(0) =~= seq![]);
        assert(told_view(kept@) =~= seq![]);
        while index < old_list.len()
            invariant
                index <= old_list.len(),
                told == told_view(old_list@),
                told_view(kept@) == still_there(told.take(index as int), windows@),
                events@ == closings(told.take(index as int), windows@),
            decreases old_list.len() - index,
        {
            assert(told.take(index + 1).drop_last() =~= told.take(index as int));
            let ghost before = told_view(kept@);
            let data = &old_list[index];
            if workspace_contains_window_entry(windows, data.surface) {
                let mut states: Vec<u32> = Vec::new();
                states.extend_from_slice(data.states.as_slice());
                assert(states@ =~= data.states@);
                kept.push(
                    ToplevelData {
                        surface: data.surface,
                        title: copy_option(&data.title),
                        app_id: copy_option(&data.app_id),
                        states,
                        output: data.output,
                    },
                );
                assert(told_view(kept@) =~= before.push(told[index as int]));
            } else {
                events.push(ToplevelEvent::Closed(data.surface));
            }
            index = index + 1;
        }
        assert(told.take(told.len() as int) =~= told);
        self.toplevels = kept;
        events
    }
}

fn find_said<'a>(facts: &'a Vec<WindowFacts>, window: SurfaceId) -> (said: Option<&'a WindowFacts>)
    ensures
        said_of(facts@, window) == (match said {
            Some(said) => WindowSays {
                title: text::text_view(said.title),
                app_id: text::text_view(said.app_id),
                maximized: said.maximized,
                fullscreen: said.fullscreen,
            },
            None => WindowSays {
                title: None,
                app_id: None,
                maximized: false,
                fullscreen: false,
            },
        }),
{
    let mut index: usize = 0;
    assert(facts@.skip(0) =~= facts@);
    while index < facts.len()
        invariant
            index <= facts.len(),
            said_of(facts@, window) == said_of(facts@.skip(index as int), window),
        decreases facts.len() - index,
    {
        assert(facts@.skip(index as int).skip(1) =~= facts@.skip(index + 1));
        assert(facts@.skip(index as int)[0] == facts@[index as int]);
        if facts[index].surface == window {
            return Some(&facts[index]);
        }
        index = index + 1;
    }
    None
}

impl Raven {
    fn toplevel_data(&self, window: SurfaceId, facts: &Vec<WindowFacts>) -> (data: ToplevelData)
        ensures
            data@ == self@.told_of(window, said_of(facts@, window)),
    {
        let focus = match self.keyboard_focus {
            Some(surface) => surface == window,
            None => false,
        };
        let output = if self.is_window_mapped(window) {
            self.first_output()
        } else {
            None
        };
        match find_said(facts, window) {
            Some(said) => ToplevelData {
                surface: window,
                title: copy_option(&said.title),
                app_id: copy_option(&said.app_id),
                states: to_state_vec(said.maximized, said.fullscreen, focus),
                output,
            },
            None => ToplevelData {
                surface: window,
                title: None,
                app_id: None,
                states: to_state_vec(false, false, focus),
                output,
            },
        }
    }

    /// Brings what other programs are told of windows up to date, and says what they are to be told,
    /// in order.
    pub fn refresh_foreign_toplevel(
        &self,
        manager: &mut ForeignToplevelManagerState,
        facts: &Vec<WindowFacts>,
    ) -> (events: Vec<ToplevelEvent>)
        ensures
            ({
                let windows = self@.shown_windows();
                let kept = still_there(old(manager)@, windows);
                &&& final(manager)@ == self@.told_after(kept, windows, facts@)
                &&& events@ == closings(old(manager)@, windows) + self@.news_after(
                    kept,
                    windows,
                    facts@,
                )
            }),
    {
        let windows = self.shown_windows();
        let mut events = manager.retain_windows(&windows);
        let ghost closed = events@;
        let ghost kept = manager@;
        let mut index: usize = 0;
        assert(windows@.take(0) =~= seq![]);
        assert(closed + Seq::<ToplevelEvent>::empty() =~= closed);
        while index < windows.len()
            invariant
                index <= windows.len(),
                manager@ == self@.told_after(kept, windows@.take(index as int), facts@),
                events@ == closed + self@.news_after(kept, windows@.take(index as int), facts@),
            decreases windows.len() - index,
        {
            assert(windows@.take(index + 1).drop_last() =~= windows@.take(index as int));
            let ghost before = self@.news_after(kept, windows@.take(index as int), facts@);
            let data = self.toplevel_data(windows[index], facts);
            if let Some(event) = manager.refresh_toplevel(data) {
                events.push(event);
                assert(events@ =~= closed + before.push(event));
            }
            index = index + 1;
        }
        assert(windows@.take(windows@.len() as int) =~= windows@);
        events
    }
}

pub(crate) proof fn place_is_there(told: Seq<Told>, surface: SurfaceId)
    ensures
        told_place(told, surface) <= told.len(),
        told_place(told, surface) < told.len() ==> told[told_place(told, surface) as int].surface
            == surface,
        forall|i: int| 0 <= i < told_place(told, surface) ==> (#[trigger] told[i]).surface != surface,
    decreases told.len(),
{
    if told.len() > 0 && told[0].surface != surface {
        place_is_there(told.skip(1), surface);
        assert forall|i: int| 0 <= i < told_place(told, surface) implies (
        #[trigger] told[i]).surface != surface by {
            if i > 0 {
                assert(told[i] == told.skip(1)[i - 1]);
            }
        }
    }
}

/// A window that is told of twice without a change is news once only.
pub proof fn unchanged_is_no_news(told: Seq<Told>, entry: Told)
    ensures
        news_of(told_with(told, entry), entry) is None,
        told_with(told_with(told, entry), entry) == told_with(told, entry),
{
    place_is_there(told, entry.surface);
    let place = told_place(told, entry.surface) as int;
    let after = told_with(told, entry);
    assert forall|i: int| 0 <= i < place implies (#[trigger] after[i]).surface
        != entry.surface by {
        assert(after[i] == told[i]);
    }
    told_place_is(after, entry.surface, place);
    assert(told_with(after, entry) =~= after);
}

} // verus!
