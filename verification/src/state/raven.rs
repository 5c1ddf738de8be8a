//! The state as a whole.

use crate::config::runtime::{RuntimeConfig, Settings};
use crate::geometry::{Point, Rectangle, Size};
use crate::state::lists;
use crate::state::lists::SurfaceId;
use crate::state::space;
use crate::state::space::{Arrangement, Element, Layout, Output};
use crate::state::toplevel::{
    Configure, FullscreenRestoreState, FullscreenSlot, OutputId, PendingFullscreenTransition,
    Toplevel,
};
use std::collections::{HashMap, HashSet};
use vstd::prelude::*;

verus! {

/// How many workspaces there are.
pub const WORKSPACE_COUNT: usize = 10;

/// Which workspace shows which window fullscreen, and what waits to change that.
pub struct FullscreenState {
    pub owners: Vec<Option<FullscreenSlot>>,
    pub maximized: HashSet<SurfaceId>,
    pub pending_unmapped_ids: HashSet<SurfaceId>,
    pub pending_transitions: HashMap<SurfaceId, PendingFullscreenTransition>,
    pub restore_states: HashMap<SurfaceId, FullscreenRestoreState>,
}

/// The compositor's state. Windows are known by the numbers of their surfaces, outputs by numbers
/// of their own.
pub struct Raven {
    pub config: RuntimeConfig,
    pub current_workspace: usize,
    /// The windows that take part in rendering and layout, by workspace.
    pub workspaces: Vec<Vec<SurfaceId>>,
    /// The toplevels that wait for their first buffer, by workspace.
    pub unmapped_workspaces: Vec<Vec<SurfaceId>>,
    pub floating_windows: Vec<SurfaceId>,
    pub outputs: Vec<Output>,
    /// The windows on the screen, from the bottom to the top.
    pub elements: Vec<Element>,
    /// The output that the pointer is on.
    pub pointer_output: Option<OutputId>,
    /// The window that the pointer is on.
    pub pointer_window: Option<SurfaceId>,
    pub toplevels: HashMap<SurfaceId, Toplevel>,
    pub arrangements: Vec<Arrangement>,
    pub fullscreen: FullscreenState,
    pub assigned_rects: HashMap<SurfaceId, Rectangle>,
    pub reported_sizes: HashMap<SurfaceId, Size>,
    pub pending_floating_recenter_ids: HashSet<SurfaceId>,
    pub pending_window_rule_recheck_ids: HashSet<SurfaceId>,
    pub pending_initial_configure_ids: HashSet<SurfaceId>,
    pub pending_initial_configure_idle_ids: HashSet<SurfaceId>,
    pub unmapped_toplevel_ids: HashSet<SurfaceId>,
    pub pending_unmapped_maximized_ids: HashSet<SurfaceId>,
    pub pending_interactive_moves: Vec<(SurfaceId, Point)>,
    pub pending_interactive_resizes: Vec<(SurfaceId, Size)>,
    /// The surface that has the keyboard.
    pub keyboard_focus: Option<SurfaceId>,
    /// The configures to be sent, in order.
    pub configures: Vec<Configure>,
    /// Whether all outputs are to be drawn anew.
    pub redraw_all: bool,
    /// The outputs to be drawn anew.
    pub redraw_outputs: HashSet<OutputId>,
}

/// A `Raven` as plain values.
#[verifier::ext_equal]
pub struct State {
    pub settings: Settings,
    pub current: usize,
    pub mapped: Seq<Seq<SurfaceId>>,
    pub unmapped: Seq<Seq<SurfaceId>>,
    pub floating: Seq<SurfaceId>,
    pub outputs: Seq<Output>,
    pub elements: Seq<Element>,
    pub pointer_output: Option<OutputId>,
    pub pointer_window: Option<SurfaceId>,
    pub toplevels: Map<SurfaceId, Toplevel>,
    pub layouts: Seq<Layout>,
    pub owners: Seq<Option<FullscreenSlot>>,
    pub maximized: Set<SurfaceId>,
    pub pending_fullscreen: Set<SurfaceId>,
    pub transitions: Map<SurfaceId, PendingFullscreenTransition>,
    pub restores: Map<SurfaceId, FullscreenRestoreState>,
    pub assigned: Map<SurfaceId, Rectangle>,
    pub reported: Map<SurfaceId, Size>,
    pub recenter: Set<SurfaceId>,
    pub recheck: Set<SurfaceId>,
    pub initial_configure: Set<SurfaceId>,
    pub configure_idle: Set<SurfaceId>,
    pub unmapped_marks: Set<SurfaceId>,
    pub pending_maximized: Set<SurfaceId>,
    pub moves: Seq<(SurfaceId, Point)>,
    pub resizes: Seq<(SurfaceId, Size)>,
    pub keyboard_focus: Option<SurfaceId>,
    pub configures: Seq<Configure>,
    pub redraw_all: bool,
    pub redraw_outputs: Set<OutputId>,
}

impl View for Raven {
    type V = State;

    open spec fn view(&self) -> State {
        State {
            settings: self.config@,
            current: self.current_workspace,
            mapped: lists::lists(self.workspaces@),
            unmapped: lists::lists(self.unmapped_workspaces@),
            floating: self.floating_windows@,
            outputs: self.outputs@,
            elements: self.elements@,
            pointer_output: self.pointer_output,
            pointer_window: self.pointer_window,
            toplevels: self.toplevels@,
            layouts: space::layouts(self.arrangements@),
            owners: self.fullscreen.owners@,
            maximized: self.fullscreen.maximized@,
            pending_fullscreen: self.fullscreen.pending_unmapped_ids@,
            transitions: self.fullscreen.pending_transitions@,
            restores: self.fullscreen.restore_states@,
            assigned: self.assigned_rects@,
            reported: self.reported_sizes@,
            recenter: self.pending_floating_recenter_ids@,
            recheck: self.pending_window_rule_recheck_ids@,
            initial_configure: self.pending_initial_configure_ids@,
            configure_idle: self.pending_initial_configure_idle_ids@,
            unmapped_marks: self.unmapped_toplevel_ids@,
            pending_maximized: self.pending_unmapped_maximized_ids@,
            moves: self.pending_interactive_moves@,
            resizes: self.pending_interactive_resizes@,
            keyboard_focus: self.keyboard_focus,
            configures: self.configures@,
            redraw_all: self.redraw_all,
            redraw_outputs: self.redraw_outputs@,
        }
    }
}

impl State {
    /// Whether there are as many workspaces as there should be, the current one is one of them, and
    /// no output is without room.
    pub open spec fn sound(self) -> bool {
        &&& self.mapped.len() == WORKSPACE_COUNT
        &&& self.unmapped.len() == WORKSPACE_COUNT
        &&& self.owners.len() == WORKSPACE_COUNT
        &&& self.current < WORKSPACE_COUNT
        &&& forall|i: int|
            0 <= i < self.outputs.len() ==> ((#[trigger] self.outputs[i]).geometry matches Some(
                geometry,
            ) ==> geometry.size.roomy())
    }

    /// What is known of a toplevel.
    pub open spec fn toplevel(self, window: SurfaceId) -> Toplevel {
        if self.toplevels.contains_key(window) {
            self.toplevels[window]
        } else {
            Toplevel::unknown()
        }
    }

    /// Whether a window is on the screen.
    pub open spec fn on_screen(self, window: SurfaceId) -> bool {
        space::place_of(self.elements, window) is Some
    }

    /// The workspace of a window: that of the mapped windows, or else that of the unmapped.
    pub open spec fn workspace_of(self, window: SurfaceId) -> Option<usize> {
        match lists::index_of(self.mapped, window) {
            Some(index) => Some(index),
            None => lists::index_of(self.unmapped, window),
        }
    }

    /// Whether a workspace holds a window, mapped or not.
    pub open spec fn workspace_holds(self, index: int, window: SurfaceId) -> bool {
        ||| 0 <= index < self.mapped.len() && self.mapped[index].contains(window)
        ||| 0 <= index < self.unmapped.len() && self.unmapped[index].contains(window)
    }

    /// Whether a surface is the root of a window that is on a workspace or on the screen.
    pub open spec fn has_window(self, surface: SurfaceId) -> bool {
        ||| lists::listed(self.mapped, surface)
        ||| lists::listed(self.unmapped, surface)
        ||| self.on_screen(surface)
    }
}

/// The state that the compositor starts with.
pub open spec fn initial_state(settings: Settings) -> State {
    State {
        settings,
        current: 0,
        mapped: Seq::new(WORKSPACE_COUNT as nat, |i: int| Seq::<SurfaceId>::empty()),
        unmapped: Seq::new(WORKSPACE_COUNT as nat, |i: int| Seq::<SurfaceId>::empty()),
        floating: seq![],
        outputs: seq![],
        elements: seq![],
        pointer_output: None,
        pointer_window: None,
        toplevels: Map::empty(),
        layouts: seq![],
        owners: Seq::new(WORKSPACE_COUNT as nat, |i: int| None::<FullscreenSlot>),
        maximized: Set::empty(),
        pending_fullscreen: Set::empty(),
        transitions: Map::empty(),
        restores: Map::empty(),
        assigned: Map::empty(),
        reported: Map::empty(),
        recenter: Set::empty(),
        recheck: Set::empty(),
        initial_configure: Set::empty(),
        configure_idle: Set::empty(),
        unmapped_marks: Set::empty(),
        pending_maximized: Set::empty(),
        moves: seq![],
        resizes: seq![],
        keyboard_focus: None,
        configures: seq![],
        redraw_all: false,
        redraw_outputs: Set::empty(),
    }
}

fn empty_lists() -> (empty: Vec<Vec<SurfaceId>>)
    ensures
        lists::lists(empty@) == Seq::new(
            WORKSPACE_COUNT as nat,
            |i: int| Seq::<SurfaceId>::empty(),
        ),
{
    let mut empty: Vec<Vec<SurfaceId>> = Vec::new();
    let mut index: usize = 0;
    while index < WORKSPACE_COUNT
        invariant
            index <= WORKSPACE_COUNT,
            empty.len() == index,
            forall|i: int| 0 <= i < index ==> #[trigger] empty[i]@ == Seq::<SurfaceId>::empty(),
        decreases WORKSPACE_COUNT - index,
    {
        empty.push(Vec::new());
        index = index + 1;
    }
    assert(lists::lists(empty@) =~= Seq::new(
        WORKSPACE_COUNT as nat,
        |i: int| Seq::<SurfaceId>::empty(),
    ));
    empty
}

impl FullscreenState {
    /// No window is fullscreen, maximized or about to be.
    pub fn new() -> (state: FullscreenState)
        ensures
            state.owners@ == Seq::new(WORKSPACE_COUNT as nat, |i: int| None::<FullscreenSlot>),
            state.maximized@ == Set::<SurfaceId>::empty(),
            state.pending_unmapped_ids@ == Set::<SurfaceId>::empty(),
            state.pending_transitions@ == Map::<SurfaceId, PendingFullscreenTransition>::empty(),
            state.restore_states@ == Map::<SurfaceId, FullscreenRestoreState>::empty(),
    {
        let mut owners: Vec<Option<FullscreenSlot>> = Vec::new();
        let mut index: usize = 0;
        while index < WORKSPACE_COUNT
            invariant
                index <= WORKSPACE_COUNT,
                owners.len() == index,
                forall|i: int| 0 <= i < index ==> #[trigger] owners[i] == None::<FullscreenSlot>,
            decreases WORKSPACE_COUNT - index,
        {
            owners.push(None);
            index = index + 1;
        }
        assert(owners@ =~= Seq::new(WORKSPACE_COUNT as nat, |i: int| None::<FullscreenSlot>));
        FullscreenState {
            owners,
            maximized: HashSet::new(),
            pending_unmapped_ids: HashSet::new(),
            pending_transitions: HashMap::new(),
            restore_states: HashMap::new(),
        }
    }
}

impl Raven {
    /// The state that the compositor starts with.
    pub fn new(config: RuntimeConfig) -> (raven: Raven)
        ensures
            raven@ == initial_state(config@),
            raven@.sound(),
    {
        let raven = Raven {
            config,
            current_workspace: 0,
            workspaces: empty_lists(),
            unmapped_workspaces: empty_lists(),
            floating_windows: Vec::new(),
            outputs: Vec::new(),
            elements: Vec::new(),
            pointer_output: None,
            pointer_window: None,
            toplevels: HashMap::new(),
            arrangements: Vec::new(),
            fullscreen: FullscreenState::new(),
            assigned_rects: HashMap::new(),
            reported_sizes: HashMap::new(),
            pending_floating_recenter_ids: HashSet::new(),
            pending_window_rule_recheck_ids: HashSet::new(),
            pending_initial_configure_ids: HashSet::new(),
            pending_initial_configure_idle_ids: HashSet::new(),
            unmapped_toplevel_ids: HashSet::new(),
            pending_unmapped_maximized_ids: HashSet::new(),
            pending_interactive_moves: Vec::new(),
            pending_interactive_resizes: Vec::new(),
            keyboard_focus: None,
            configures: Vec::new(),
            redraw_all: false,
            redraw_outputs: HashSet::new(),
        };
        assert(raven@.layouts =~= initial_state(config@).layouts);
        raven
    }
}

} // verus!
