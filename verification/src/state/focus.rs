//! A policy for the focus: which window is active on the workspace, and which surface gets the
//! keyboard for it.

use crate::input::layers;
use crate::input::layers::{find_focus_under, holds_focus, LayerSight, LayerSights, Sights};
use crate::input::pointer::Grabs;
use crate::state::fullscreen_laws;
use crate::state::laws;
use crate::state::lists::SurfaceId;
use crate::state::raven::{Raven, State};
use crate::state::space;
use vstd::prelude::*;

verus! {

broadcast use vstd::std_specs::hash::group_hash_axioms;

/// Why a window is to be active.
#[derive(Clone, Copy, Debug, PartialEq, Eq, Structural)]
pub enum FocusReason {
    PointerMotion,
    PointerButton,
    KeyboardAction,
    NewWindow,
    DeferredRules,
    ForeignActivate,
    LayerCommit,
    ExclusiveLayer,
}

impl FocusReason {
    /// Whether the user asked for it.
    pub open spec fn explicit(self) -> bool {
        match self {
            FocusReason::PointerButton => true,
            FocusReason::KeyboardAction => true,
            FocusReason::ForeignActivate => true,
            FocusReason::ExclusiveLayer => true,
            _ => false,
        }
    }

    /// Whether the user asked for it.
    pub fn is_explicit_user(self) -> (result: bool)
        ensures
            result == self.explicit(),
    {
        match self {
            FocusReason::PointerButton => true,
            FocusReason::KeyboardAction => true,
            FocusReason::ForeignActivate => true,
            FocusReason::ExclusiveLayer => true,
            _ => false,
        }
    }
}

/// The active window, and the layer surface that the user turned to.
#[derive(Clone, Copy, Debug, PartialEq, Eq)]
pub struct FocusState {
    pub active_window: Option<SurfaceId>,
    pub layer_shell_on_demand_focus: Option<SurfaceId>,
}

impl Default for FocusState {
    /// Nothing has the focus.
    fn default() -> (focus: FocusState)
        ensures
            focus == (FocusState { active_window: None, layer_shell_on_demand_focus: None }),
    {
        FocusState { active_window: None, layer_shell_on_demand_focus: None }
    }
}

/// The first layer surface of the list that takes the keyboard for itself and can have it.
pub open spec fn first_taker(list: Seq<LayerSight>) -> Option<SurfaceId>
    decreases list.len(),
{
    if list.len() == 0 {
        None
    } else if list[0].exclusive && list[0].can_receive_focus && list[0].place is Some {
        Some(list[0].surface)
    } else {
        first_taker(list.skip(1))
    }
}

/// The first layer surface of two lists that takes the keyboard for itself and can have it.
pub open spec fn taker_of(first: Seq<LayerSight>, second: Seq<LayerSight>) -> Option<SurfaceId> {
    match first_taker(first) {
        Some(surface) => Some(surface),
        None => first_taker(second),
    }
}

/// Whether a layer surface that the user turned to may keep the keyboard.
pub open spec fn keeps_on_demand(all: Seq<LayerSight>, surface: SurfaceId) -> bool
    decreases all.len(),
{
    if all.len() == 0 {
        false
    } else if all[0].surface == surface {
        all[0].on_demand && all[0].can_receive_focus && all[0].place is Some
    } else {
        keeps_on_demand(all.skip(1), surface)
    }
}

impl State {
    /// Whether a window is on the current workspace, and its client is alive.
    pub open spec fn present(self, window: SurfaceId) -> bool {
        self.workspace_holds(self.current as int, window) && self.toplevel(window).live
    }

    /// The active window, where it is on the current workspace.
    pub open spec fn active_of(self, focus: FocusState) -> Option<SurfaceId> {
        match focus.active_window {
            Some(window) => if self.present(window) {
                Some(window)
            } else {
                None
            },
            None => None,
        }
    }

    /// Whether the parents of a surface, up to `steps` of them, lead to `ancestor`.
    pub open spec fn leads_to(
        self,
        parent: Option<SurfaceId>,
        ancestor: SurfaceId,
        steps: nat,
    ) -> bool
        decreases steps,
    {
        match parent {
            Some(surface) => surface == ancestor || (steps > 0 && self.has_window(surface)
                && self.leads_to(self.toplevel(surface).parent, ancestor, (steps - 1) as nat)),
            None => false,
        }
    }

    /// Whether a window has an ancestor, among as many as there are toplevels.
    pub open spec fn descends(self, window: SurfaceId, ancestor: SurfaceId) -> bool {
        self.leads_to(self.toplevel(window).parent, ancestor, self.toplevels.dom().len())
    }

    /// Whether two windows belong together: they are one, or one is an ancestor of the other.
    pub open spec fn together(self, left: SurfaceId, right: SurfaceId) -> bool {
        left == right || self.descends(left, right) || self.descends(right, left)
    }

    /// Whether a window may become active: beside a fullscreen window only one that belongs to it, or
    /// one that the user asked for.
    pub open spec fn may_activate(self, window: SurfaceId, reason: FocusReason) -> bool {
        self.present(window) && (match self.owner_window(self.current as int) {
            Some(owner) => self.together(window, owner) || reason.explicit(),
            None => true,
        })
    }

    /// The focus without what is gone, and with the fullscreen window active, unless one is that
    /// belongs to it.
    pub open spec fn focus_cleaned(self, focus: FocusState, all: Seq<LayerSight>) -> FocusState {
        let active = self.active_of(focus);
        FocusState {
            active_window: match self.owner_window(self.current as int) {
                Some(owner) => match active {
                    Some(window) => if self.together(window, owner) {
                        active
                    } else {
                        Some(owner)
                    },
                    None => Some(owner),
                },
                None => active,
            },
            layer_shell_on_demand_focus: match focus.layer_shell_on_demand_focus {
                Some(surface) => if keeps_on_demand(all, surface) {
                    Some(surface)
                } else {
                    None
                },
                None => None,
            },
        }
    }

    /// The focus brought up to date: without an active window, the one at the pointer becomes active
    /// where the focus follows it, or else the topmost.
    pub open spec fn focus_settled(
        self,
        focus: FocusState,
        all: Seq<LayerSight>,
        pointer_window: Option<SurfaceId>,
    ) -> FocusState {
        let clean = self.focus_cleaned(focus, all);
        if clean.active_window is Some {
            clean
        } else {
            FocusState {
                active_window: match self.owner_window(self.current as int) {
                    Some(owner) => Some(owner),
                    None => if self.settings.general.focus_follow_mouse && (pointer_window matches Some(
                        window,
                    ) && self.present(window) && self.on_screen(window)) {
                        pointer_window
                    } else if self.elements.len() > 0 {
                        Some(self.elements.last().window)
                    } else {
                        None
                    },
                },
                ..clean
            }
        }
    }

    /// The surface that gets the keyboard: a layer surface above the windows that takes it for
    /// itself, the layer surface that the user turned to, the active window, the topmost window, or a
    /// layer surface below that takes it for itself.
    pub open spec fn focus_target(self, focus: FocusState, sights: Sights) -> Option<SurfaceId> {
        let above = taker_of(sights.overlay, sights.top);
        let active = match self.active_of(focus) {
            Some(window) => if self.on_screen(window) {
                Some(window)
            } else {
                None
            },
            None => None,
        };
        if above is Some {
            above
        } else if focus.layer_shell_on_demand_focus is Some {
            focus.layer_shell_on_demand_focus
        } else if active is Some {
            active
        } else if self.elements.len() > 0 {
            Some(self.elements.last().window)
        } else {
            taker_of(sights.bottom, sights.background)
        }
    }

    /// The state with the keyboard where the focus says.
    pub open spec fn focus_applied(self, focus: FocusState, sights: Sights) -> State {
        State {
            keyboard_focus: self.focus_target(focus, sights),
            ..self.activation_synced(self.active_of(focus))
        }
    }

    /// The state with a window raised, where it may become active and is on the screen.
    pub open spec fn activation_raised(self, window: SurfaceId, reason: FocusReason, raise: bool) -> State {
        if self.may_activate(window, reason) && raise && self.on_screen(window) {
            self.raised_in_layer(window)
        } else {
            self
        }
    }

    /// The focus with a window active, where it may become so.
    pub open spec fn activation_asked(
        self,
        focus: FocusState,
        window: SurfaceId,
        reason: FocusReason,
    ) -> FocusState {
        if self.may_activate(window, reason) {
            FocusState { active_window: Some(window), layer_shell_on_demand_focus: None }
        } else {
            focus
        }
    }
}

fn find_taker(list: &Vec<LayerSight>) -> (surface: Option<SurfaceId>)
    ensures
        surface == first_taker(list@),
{
    let mut index: usize = 0;
    assert(list@.skip(0) =~= list@);
    while index < list.len()
        invariant
            index <= list.len(),
            first_taker(list@) == first_taker(list@.skip(index as int)),
        decreases list.len() - index,
    {
        assert(list@.skip(index as int).skip(1) =~= list@.skip(index + 1));
        assert(list@.skip(index as int)[0] == list@[index as int]);
        let sight = list[index];
        if sight.exclusive && sight.can_receive_focus && sight.place.is_some() {
            return Some(sight.surface);
        }
        index = index + 1;
    }
    None
}

fn find_taker_of(first: &Vec<LayerSight>, second: &Vec<LayerSight>) -> (surface: Option<SurfaceId>)
    ensures
        surface == taker_of(first@, second@),
{
    match find_taker(first) {
        Some(surface) => Some(surface),
        None => find_taker(second),
    }
}

/// Whether a layer surface that the user turned to may keep the keyboard.
fn layer_can_take_on_demand_focus(all: &Vec<LayerSight>, surface: SurfaceId) -> (result: bool)
    ensures
        result == keeps_on_demand(all@, surface),
{
    let mut index: usize = 0;
    assert(all@.skip(0) =~= all@);
    while index < all.len()
        invariant
            index <= all.len(),
            keeps_on_demand(all@, surface) == keeps_on_demand(all@.skip(index as int), surface),
        decreases all.len() - index,
    {
        assert(all@.skip(index as int).skip(1) =~= all@.skip(index + 1));
        assert(all@.skip(index as int)[0] == all@[index as int]);
        let sight = all[index];
        if sight.surface == surface {
            return sight.on_demand && sight.can_receive_focus && sight.place.is_some();
        }
        index = index + 1;
    }
    false
}

impl Raven {
    /// Whether a window is on the current workspace, and its client is alive.
    pub fn window_is_present_on_current_workspace(&self, window: SurfaceId) -> (result: bool)
        requires
            self@.sound(),
        ensures
            result == self@.present(window),
    {
        self.workspace_contains_window(self.current_workspace, window)
            && self.window_has_live_client(window)
    }

    /// The active window, where it is on the current workspace.
    pub fn active_toplevel(&self, focus: &FocusState) -> (window: Option<SurfaceId>)
        requires
            self@.sound(),
        ensures
            window == self@.active_of(*focus),
    {
        match focus.active_window {
            Some(window) => if self.window_is_present_on_current_workspace(window) {
                Some(window)
            } else {
                None
            },
            None => None,
        }
    }

    /// The active window, or else the one that has the keyboard.
    pub fn focused_window(&self, focus: &FocusState) -> (window: Option<SurfaceId>)
        requires
            self@.sound(),
        ensures
            window == (match self@.active_of(*focus) {
                Some(window) => Some(window),
                None => match self@.keyboard_focus {
                    Some(surface) => if self@.has_window(surface) {
                        Some(surface)
                    } else {
                        None
                    },
                    None => None,
                },
            }),
    {
        match self.active_toplevel(focus) {
            Some(window) => Some(window),
            None => match self.keyboard_focus {
                Some(surface) => self.window_for_surface(surface),
                None => None,
            },
        }
    }

    fn window_is_descendant_of_surface(&self, window: SurfaceId, ancestor: SurfaceId) -> (result: bool)
        requires
            self@.sound(),
        ensures
            result == self@.descends(window, ancestor),
    {
        let mut parent = self.toplevel(window).parent;
        let mut steps: usize = self.toplevels.len();
        while steps > 0
            invariant
                self@.sound(),
                self@.leads_to(parent, ancestor, steps as nat) == self@.descends(
                    window,
                    ancestor,
                ),
            decreases steps,
        {
            match parent {
                Some(surface) => {
                    if surface == ancestor {
                        return true;
                    }
                    if self.window_for_surface(surface).is_none() {
                        return false;
                    }
                    parent = self.toplevel(surface).parent;
                },
                None => {
                    return false;
                },
            }
            steps = steps - 1;
        }
        match parent {
            Some(surface) => surface == ancestor,
            None => false,
        }
    }

    fn windows_share_focus_group(&self, left: SurfaceId, right: SurfaceId) -> (result: bool)
        requires
            self@.sound(),
        ensures
            result == self@.together(left, right),
    {
        left == right || self.window_is_descendant_of_surface(left, right)
            || self.window_is_descendant_of_surface(right, left)
    }

    fn should_allow_focus_window(&self, window: SurfaceId, reason: FocusReason) -> (result: bool)
        requires
            self@.sound(),
        ensures
            result == self@.may_activate(window, reason),
    {
        if !self.window_is_present_on_current_workspace(window) {
            return false;
        }
        match self.workspace_fullscreen_owner_window(self.current_workspace) {
            Some(owner) => self.windows_share_focus_group(window, owner)
                || reason.is_explicit_user(),
            None => true,
        }
    }

    /// Makes a window active, where it may become so, and says whether it did.
    pub fn request_focus_window(
        &mut self,
        focus: &mut FocusState,
        window: SurfaceId,
        reason: FocusReason,
        raise: bool,
    ) -> (done: bool)
        requires
            old(self)@.sound(),
        ensures
            done == old(self)@.may_activate(window, reason),
            *final(focus) == old(self)@.activation_asked(*old(focus), window, reason),
            final(self)@ == old(self)@.activation_raised(window, reason, raise),
            final(self)@.sound(),
    {
        if !self.should_allow_focus_window(window, reason) {
            return false;
        }
        focus.active_window = Some(window);
        focus.layer_shell_on_demand_focus = None;
        if raise && self.is_window_mapped(window) {
            self.raise_window_preserving_layer(window);
        }
        true
    }

    fn cleanup_focus_state(&self, focus: &mut FocusState, all: &Vec<LayerSight>)
        requires
            self@.sound(),
        ensures
            *final(focus) == self@.focus_cleaned(*old(focus), all@),
    {
        focus.active_window = self.active_toplevel(focus);
        if let Some(surface) = focus.layer_shell_on_demand_focus {
            if !layer_can_take_on_demand_focus(all, surface) {
                focus.layer_shell_on_demand_focus = None;
            }
        }
        if let Some(owner) = self.workspace_fullscreen_owner_window(self.current_workspace) {
            let keep = match focus.active_window {
                Some(window) => self.windows_share_focus_group(window, owner),
                None => false,
            };
            if !keep {
                focus.active_window = Some(owner);
            }
        }
    }

    fn resolve_keyboard_focus_target(&self, focus: &FocusState, sights: &LayerSights) -> (target: Option<
        SurfaceId,
    >)
        requires
            self@.sound(),
        ensures
            target == self@.focus_target(*focus, sights@),
    {
        if let Some(surface) = find_taker_of(&sights.overlay, &sights.top) {
            return Some(surface);
        }
        if let Some(surface) = focus.layer_shell_on_demand_focus {
            return Some(surface);
        }
        if let Some(window) = self.active_toplevel(focus) {
            if self.is_window_mapped(window) {
                return Some(window);
            }
        }
        if self.elements.len() > 0 {
            return Some(self.elements[self.elements.len() - 1].window);
        }
        find_taker_of(&sights.bottom, &sights.background)
    }

    /// Brings the focus up to date and gives the keyboard accordingly. `sights` are those of the
    /// output that the pointer is on, or else of the first one, and `all` those of all outputs.
    pub fn refresh_focus(
        &mut self,
        focus: &mut FocusState,
        sights: &LayerSights,
        all: &Vec<LayerSight>,
        pointer_window: Option<SurfaceId>,
    )
        requires
            old(self)@.sound(),
        ensures
            *final(focus) == old(self)@.focus_settled(*old(focus), all@, pointer_window),
            final(self)@ == old(self)@.focus_applied(*final(focus), sights@),
            final(self)@.sound(),
    {
        self.cleanup_focus_state(focus, all);
        if focus.active_window.is_none() {
            focus.active_window = match self.workspace_fullscreen_owner_window(
                self.current_workspace,
            ) {
                Some(owner) => Some(owner),
                None => {
                    let followed = match pointer_window {
                        Some(window) => self.config.focus_follow_mouse
                            && self.window_is_present_on_current_workspace(window)
                            && self.is_window_mapped(window),
                        None => false,
                    };
                    if followed {
                        pointer_window
                    } else if self.elements.len() > 0 {
                        Some(self.elements[self.elements.len() - 1].window)
                    } else {
                        None
                    }
                },
            };
        }
        let target = self.resolve_keyboard_focus_target(focus, sights);
        let active = self.active_toplevel(focus);
        self.sync_window_activation(active);
        self.keyboard_focus = target;
    }

    /// Turns the focus to what is at the pointer. `first_sights` are those of the first output.
    pub fn update_focus_from_pointer(
        &mut self,
        focus: &mut FocusState,
        grabs: Grabs,
        reason: FocusReason,
        raise: bool,
        first_sights: &LayerSights,
        sights: &LayerSights,
        all: &Vec<LayerSight>,
        pointer_contents_window: Option<SurfaceId>,
    )
        requires
            old(self)@.sound(),
        ensures
            !grabs.allow_focus() ==> final(self)@ == old(self)@ && *final(focus) == *old(focus),
            grabs.allow_focus() ==> ({
                let turned = old(self)@.turned_to_pointer(
                    *old(focus),
                    first_sights@,
                    reason,
                    raise,
                );
                &&& *final(focus) == turned.0.focus_settled(
                    turned.1,
                    all@,
                    pointer_contents_window,
                )
                &&& final(self)@ == turned.0.focus_applied(*final(focus), sights@)
            }),
            final(self)@.sound(),
    {
        if grabs.pointer || (grabs.keyboard && !grabs.input_method) {
            return;
        }
        if self.outputs.len() > 0 && self.outputs[0].geometry.is_some() {
            let stays = match focus.layer_shell_on_demand_focus {
                Some(surface) => !raise && (holds_focus(&first_sights.overlay, surface)
                    || holds_focus(&first_sights.top, surface)),
                None => false,
            };
            if !stays {
                if let Some(surface) = find_focus_under(&first_sights.overlay, &first_sights.top) {
                    focus.layer_shell_on_demand_focus = Some(surface);
                } else if let Some(window) = self.pointer_window {
                    let _ = self.request_focus_window(focus, window, reason, raise);
                } else if let Some(surface) = find_focus_under(
                    &first_sights.bottom,
                    &first_sights.background,
                ) {
                    focus.layer_shell_on_demand_focus = Some(surface);
                }
            }
        }
        self.refresh_focus(focus, sights, all, pointer_contents_window);
    }
}

impl State {
    /// The state and the focus turned to what is at the pointer, before they are brought up to date.
    pub open spec fn turned_to_pointer(
        self,
        focus: FocusState,
        sights: Sights,
        reason: FocusReason,
        raise: bool,
    ) -> (State, FocusState) {
        let stays = !raise && (focus.layer_shell_on_demand_focus matches Some(surface) && (
        layers::keeps_focus(sights.overlay, surface) || layers::keeps_focus(sights.top, surface)));
        if self.outputs.len() == 0 || self.outputs[0].geometry is None || stays {
            (self, focus)
        } else {
            match layers::focus_under_point(sights.overlay, sights.top) {
                Some(surface) => (
                    self,
                    FocusState { layer_shell_on_demand_focus: Some(surface), ..focus },
                ),
                None => match self.pointer_window {
                    Some(window) => (
                        self.activation_raised(window, reason, raise),
                        self.activation_asked(focus, window, reason),
                    ),
                    None => match layers::focus_under_point(sights.bottom, sights.background) {
                        Some(surface) => (
                            self,
                            FocusState { layer_shell_on_demand_focus: Some(surface), ..focus },
                        ),
                        None => (self, focus),
                    },
                },
            }
        }
    }
}

impl FocusState {
    /// Turns the focus to a layer surface, or away from one.
    pub fn request_focus_layer(&mut self, surface: Option<SurfaceId>)
        ensures
            *final(self) == (FocusState { layer_shell_on_demand_focus: surface, ..*old(self) }),
    {
        self.layer_shell_on_demand_focus = surface;
    }

    /// Forgets a surface.
    pub fn clear_focus_for_surface(&mut self, surface: SurfaceId)
        ensures
            *final(self) == (FocusState {
                active_window: if old(self).active_window == Some(surface) {
                    None
                } else {
                    old(self).active_window
                },
                layer_shell_on_demand_focus: if old(self).layer_shell_on_demand_focus == Some(
                    surface,
                ) {
                    None
                } else {
                    old(self).layer_shell_on_demand_focus
                },
            }),
    {
        if let Some(window) = self.active_window {
            if window == surface {
                self.active_window = None;
            }
        }
        if let Some(layer) = self.layer_shell_on_demand_focus {
            if layer == surface {
                self.layer_shell_on_demand_focus = None;
            }
        }
    }

    /// Finds the focus anew, whatever had it.
    pub fn refocus_visible_window(
        &mut self,
        raven: &mut Raven,
        sights: &LayerSights,
        all: &Vec<LayerSight>,
        pointer_window: Option<SurfaceId>,
    )
        requires
            old(raven)@.sound(),
        ensures
            *final(self) == old(raven)@.focus_settled(
                (FocusState { active_window: None, layer_shell_on_demand_focus: None }),
                all@,
                pointer_window,
            ),
            final(raven)@ == old(raven)@.focus_applied(*final(self), sights@),
            final(raven)@.sound(),
    {
        self.layer_shell_on_demand_focus = None;
        self.active_window = None;
        raven.refresh_focus(self, sights, all, pointer_window);
    }
}

/// While a window is fullscreen, the active window belongs to it.
pub proof fn fullscreen_keeps_focus(
    state: State,
    focus: FocusState,
    all: Seq<LayerSight>,
    pointer_window: Option<SurfaceId>,
)
    requires
        state.owner_window(state.current as int) is Some,
    ensures
        state.focus_settled(focus, all, pointer_window).active_window matches Some(window)
            && state.together(window, state.owner_window(state.current as int)->0),
{
}

/// Belonging together goes both ways.
pub proof fn together_goes_both_ways(state: State, left: SurfaceId, right: SurfaceId)
    ensures
        state.together(left, right) == state.together(right, left),
        state.together(left, left),
{
}

/// A focus that is up to date stays as it is, as long as its active window is there.
pub proof fn settled_focus_stays(
    state: State,
    focus: FocusState,
    all: Seq<LayerSight>,
    pointer_window: Option<SurfaceId>,
)
    requires
        state.focus_settled(focus, all, pointer_window).active_window matches Some(window)
            ==> state.present(window),
    ensures
        ({
            let settled = state.focus_settled(focus, all, pointer_window);
            state.focus_settled(settled, all, pointer_window) == settled
        }),
{
}

/// Making a window active, and bringing the focus up to date, keep the windows in order.
pub proof fn focus_stays_orderly(
    state: State,
    focus: FocusState,
    sights: Sights,
    window: SurfaceId,
    reason: FocusReason,
    raise: bool,
)
    requires
        state.orderly(),
    ensures
        state.activation_raised(window, reason, raise).orderly_like(state),
        state.focus_applied(focus, sights).orderly_like(state),
{
    fullscreen_laws::raising_stays_orderly(state, window);
    let active = state.active_of(focus);
    fullscreen_laws::activation_keeps_places(state, space::stack(state.elements), active);
    let after = state.focus_applied(focus, sights);
    assert(after.keeps_places(state));
    laws::telling_stays_orderly(state, after);
}

} // verus!
