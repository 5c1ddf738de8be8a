//! What a key does: a key binding, or a switch to a workspace.

use crate::config::keybinds;
use crate::config::keybinds::{Deed, KeybindAction, Keysym, ModifiersState};
use crate::input::layers;
use crate::input::layers::{LayerSights, Sights};
use crate::state::fullscreen_laws;
use crate::state::keyboard::Action;
use crate::state::lists::SurfaceId;
use crate::state::raven::{Raven, State};
use crate::state::workspace_laws;
use vstd::prelude::*;

verus! {

/// The workspace that a key of the digit row stands for, with or without shift.
pub open spec fn workspace_key(keysym: Keysym) -> Option<usize> {
    if keysym == 0x31 || keysym == 0x21 {
        Some(0)
    } else if keysym == 0x32 || keysym == 0x40 {
        Some(1)
    } else if keysym == 0x33 || keysym == 0x23 {
        Some(2)
    } else if keysym == 0x34 || keysym == 0x24 {
        Some(3)
    } else if keysym == 0x35 || keysym == 0x25 {
        Some(4)
    } else if keysym == 0x36 || keysym == 0x5e {
        Some(5)
    } else if keysym == 0x37 || keysym == 0x26 {
        Some(6)
    } else if keysym == 0x38 || keysym == 0x2a {
        Some(7)
    } else if keysym == 0x39 || keysym == 0x28 {
        Some(8)
    } else if keysym == 0x30 || keysym == 0x29 {
        Some(9)
    } else {
        None
    }
}

/// The workspace that a key of the digit row stands for, with or without shift.
pub fn workspace_from_keysym(keysym: Keysym) -> (workspace: Option<usize>)
    ensures
        workspace == workspace_key(keysym),
{
    match keysym {
        0x31 | 0x21 => Some(0),
        0x32 | 0x40 => Some(1),
        0x33 | 0x23 => Some(2),
        0x34 | 0x24 => Some(3),
        0x35 | 0x25 => Some(4),
        0x36 | 0x5e => Some(5),
        0x37 | 0x26 => Some(6),
        0x38 | 0x2a => Some(7),
        0x39 | 0x28 => Some(8),
        0x30 | 0x29 => Some(9),
        _ => None,
    }
}

/// Every workspace has a key, and every such key has a workspace that there is.
pub proof fn workspace_keys_fit(keysym: Keysym, workspace: usize)
    ensures
        workspace_key(keysym) matches Some(index) ==> index < crate::state::raven::WORKSPACE_COUNT,
        workspace < crate::state::raven::WORKSPACE_COUNT ==> exists|key: Keysym| #[trigger]
            workspace_key(key) == Some(workspace),
{
    if workspace == 9 {
        assert(workspace_key(0x30) == Some(workspace));
    } else if workspace < 9 {
        assert(workspace_key((0x31 + workspace) as u32) == Some(workspace));
    }
}

/// What is left to do for a key after the state has changed.
#[derive(Debug)]
pub enum KeyRequest {
    Nothing,
    Spawn(String),
    SpawnTerminal,
    SpawnLauncher,
    Close(SurfaceId),
    Quit,
    ReloadConfig,
    Unsupported(String),
}

/// A `KeyRequest` as plain values.
pub enum Request {
    Nothing,
    Spawn(Seq<char>),
    SpawnTerminal,
    SpawnLauncher,
    Close(SurfaceId),
    Quit,
    ReloadConfig,
    Unsupported(Seq<char>),
}

impl View for KeyRequest {
    type V = Request;

    open spec fn view(&self) -> Request {
        match *self {
            KeyRequest::Nothing => Request::Nothing,
            KeyRequest::Spawn(command) => Request::Spawn(command@),
            KeyRequest::SpawnTerminal => Request::SpawnTerminal,
            KeyRequest::SpawnLauncher => Request::SpawnLauncher,
            KeyRequest::Close(window) => Request::Close(window),
            KeyRequest::Quit => Request::Quit,
            KeyRequest::ReloadConfig => Request::ReloadConfig,
            KeyRequest::Unsupported(name) => Request::Unsupported(name@),
        }
    }
}

impl State {
    /// The state after an action.
    #[verifier::opaque]
    pub open spec fn deed_done(self, deed: Deed) -> State {
        match deed {
            Deed::ToggleFullscreen => self.fullscreen_toggled().0,
            Deed::ToggleFloating => self.floating_toggled().0,
            Deed::FocusNext => match self.focus_after(Action::FocusNext) {
                Some(window) => self.focus_set(Some(window)),
                None => self,
            },
            Deed::FocusPrevious => match self.focus_after(Action::FocusPrevious) {
                Some(window) => self.focus_set(Some(window)),
                None => self,
            },
            Deed::SwitchWorkspace(index) => self.workspace_switched(index as int).0,
            Deed::MoveFocusedToWorkspace(index) => self.focused_moved(index as int).0,
            _ => self,
        }
    }

    /// What is left to do for an action.
    pub open spec fn deed_request(self, deed: Deed) -> Request {
        match deed {
            Deed::Exec(command) => Request::Spawn(command),
            Deed::Terminal => Request::SpawnTerminal,
            Deed::Launcher => Request::SpawnLauncher,
            Deed::CloseFocused => match self.keyboard_focus {
                Some(surface) => if self.has_window(surface) {
                    Request::Close(surface)
                } else {
                    Request::Nothing
                },
                None => Request::Nothing,
            },
            Deed::Quit => Request::Quit,
            Deed::ReloadConfig => Request::ReloadConfig,
            Deed::Unsupported(name) => Request::Unsupported(name),
            _ => Request::Nothing,
        }
    }

    /// The action that keys stand for: that of a key binding, or else the switch to a workspace, or
    /// with shift the move of the focused window there.
    pub open spec fn deed_for(self, modifiers: ModifiersState, keysym: Keysym) -> Option<Deed> {
        match keybinds::action_for(self.settings.keybinds, modifiers, keysym) {
            Some(deed) => Some(deed),
            None => if !self.settings.general.main_key.held(modifiers) {
                None
            } else {
                match workspace_key(keysym) {
                    Some(index) => if modifiers.shift {
                        Some(Deed::MoveFocusedToWorkspace(index))
                    } else {
                        Some(Deed::SwitchWorkspace(index))
                    },
                    None => None,
                }
            },
        }
    }

    /// The state with the keyboard given to a layer surface that takes it for itself, where there is
    /// one.
    pub open spec fn exclusively_focused(self, sights: Sights) -> State {
        match layers::exclusive_layer(sights) {
            Some(surface) => if self.outputs.len() > 0 {
                State { redraw_all: true, ..self.focus_set(Some(surface)) }
            } else {
                self
            },
            None => self,
        }
    }
}

/// What is left to do as plain values, where there is anything.
pub open spec fn request_view(request: Option<KeyRequest>) -> Option<Request> {
    match request {
        Some(request) => Some(request@),
        None => None,
    }
}

impl Raven {
    /// The focused window, where it is to be closed.
    fn close_focused_window(&self) -> (request: KeyRequest)
        requires
            self@.sound(),
        ensures
            request@ == self@.deed_request(Deed::CloseFocused),
    {
        match self.keyboard_focus {
            Some(surface) => match self.window_for_surface(surface) {
                Some(window) => KeyRequest::Close(window),
                None => KeyRequest::Nothing,
            },
            None => KeyRequest::Nothing,
        }
    }

    /// Carries out an action, and says what is left to do.
    pub fn execute_keybind_action(&mut self, action: KeybindAction) -> (request: KeyRequest)
        requires
            old(self)@.sound(),
        ensures
            final(self)@ == old(self)@.deed_done(action@),
            request@ == old(self)@.deed_request(action@),
            final(self)@.sound(),
    {
        proof {
            reveal(State::deed_done);
        }
        match action {
            KeybindAction::Exec(command) => KeyRequest::Spawn(command),
            KeybindAction::Terminal => KeyRequest::SpawnTerminal,
            KeybindAction::Launcher => KeyRequest::SpawnLauncher,
            KeybindAction::CloseFocused => self.close_focused_window(),
            KeybindAction::ToggleFullscreen => {
                let _ = self.toggle_fullscreen_focused_window();
                KeyRequest::Nothing
            },
            KeybindAction::ToggleFloating => {
                let _ = self.toggle_floating_focused_window();
                KeyRequest::Nothing
            },
            KeybindAction::Quit => KeyRequest::Quit,
            KeybindAction::FocusNext => {
                Action::FocusNext.execute(self);
                KeyRequest::Nothing
            },
            KeybindAction::FocusPrevious => {
                Action::FocusPrevious.execute(self);
                KeyRequest::Nothing
            },
            KeybindAction::ReloadConfig => KeyRequest::ReloadConfig,
            KeybindAction::SwitchWorkspace(index) => {
                let _ = self.switch_workspace(index);
                KeyRequest::Nothing
            },
            KeybindAction::MoveFocusedToWorkspace(index) => {
                let _ = self.move_focused_window_to_workspace(index);
                KeyRequest::Nothing
            },
            KeybindAction::Unsupported(name) => KeyRequest::Unsupported(name),
        }
    }

    /// Does what keys stand for, and says what is left to do; nothing, where they stand for nothing.
    pub fn handle_keybinding(&mut self, modifiers: &ModifiersState, keysym: Keysym) -> (request: Option<
        KeyRequest,
    >)
        requires
            old(self)@.sound(),
        ensures
            final(self)@ == match old(self)@.deed_for(*modifiers, keysym) {
                Some(deed) => old(self)@.deed_done(deed),
                None => old(self)@,
            },
            request_view(request) == match old(self)@.deed_for(*modifiers, keysym) {
                Some(deed) => Some(old(self)@.deed_request(deed)),
                None => None,
            },
            final(self)@.sound(),
    {
        if let Some(action) = self.config.keybind_action_for(modifiers, keysym) {
            return Some(self.execute_keybind_action(action));
        }
        if !self.config.main_key.matches(modifiers) {
            return None;
        }
        match workspace_from_keysym(keysym) {
            Some(index) => {
                let action = if modifiers.shift {
                    KeybindAction::MoveFocusedToWorkspace(index)
                } else {
                    KeybindAction::SwitchWorkspace(index)
                };
                Some(self.execute_keybind_action(action))
            },
            None => None,
        }
    }

    /// Before a key: gives the keyboard to a layer surface of the first output that takes it for
    /// itself. Where there is one, the key goes to it and means nothing else.
    pub fn focus_exclusive_layer(&mut self, sights: &LayerSights) -> (forward: bool)
        requires
            old(self)@.sound(),
        ensures
            final(self)@ == old(self)@.exclusively_focused(sights@),
            forward == (old(self)@.outputs.len() > 0 && layers::exclusive_layer(sights@) is Some),
            final(self)@.sound(),
    {
        if self.outputs.len() == 0 {
            return false;
        }
        match sights.exclusive_surface() {
            Some(surface) => {
                self.set_keyboard_focus(Some(surface));
                self.redraw_all = true;
                true
            },
            None => false,
        }
    }

    /// Whether a key is kept from the clients, and what is left to do for it: only a key that is
    /// pressed and stands for something is kept.
    pub fn filter_key(&mut self, pressed: bool, modifiers: &ModifiersState, keysym: Keysym) -> (request:
        Option<KeyRequest>)
        requires
            old(self)@.sound(),
        ensures
            !pressed ==> request is None && final(self)@ == old(self)@,
            pressed ==> final(self)@ == match old(self)@.deed_for(*modifiers, keysym) {
                Some(deed) => old(self)@.deed_done(deed),
                None => old(self)@,
            },
            pressed ==> request_view(request) == match old(self)@.deed_for(*modifiers, keysym) {
                Some(deed) => Some(old(self)@.deed_request(deed)),
                None => None,
            },
            final(self)@.sound(),
    {
        if pressed {
            self.handle_keybinding(modifiers, keysym)
        } else {
            None
        }
    }
}

/// A key binding comes before the workspace keys.
pub proof fn binding_wins(state: State, modifiers: ModifiersState, keysym: Keysym)
    requires
        keybinds::action_for(state.settings.keybinds, modifiers, keysym) is Some,
    ensures
        state.deed_for(modifiers, keysym) == keybinds::action_for(
            state.settings.keybinds,
            modifiers,
            keysym,
        ),
{
}

/// Without a key binding, the main key and a workspace key go to that workspace.
pub proof fn workspace_key_switches(state: State, modifiers: ModifiersState, keysym: Keysym)
    requires
        state.orderly(),
        keybinds::action_for(state.settings.keybinds, modifiers, keysym) is None,
        state.settings.general.main_key.held(modifiers),
        !modifiers.shift,
        workspace_key(keysym) is Some,
    ensures
        state.deed_for(modifiers, keysym) matches Some(deed) && state.deed_done(deed).current
            == workspace_key(keysym).unwrap(),
{
    reveal(State::deed_done);
    workspace_laws::switching_stays_orderly(state, workspace_key(keysym).unwrap() as int);
}

/// Whatever a key stands for, it keeps the windows in order.
pub proof fn key_stays_orderly(state: State, deed: Deed)
    requires
        state.orderly(),
    ensures
        state.deed_done(deed).orderly(),
{
    reveal(State::deed_done);
    match deed {
        Deed::ToggleFullscreen => fullscreen_laws::fullscreen_toggle_stays_orderly(state),
        Deed::ToggleFloating => fullscreen_laws::floating_toggle_stays_orderly(state),
        Deed::FocusNext => fullscreen_laws::focusing_stays_orderly(
            state,
            state.focus_after(Action::FocusNext),
        ),
        Deed::FocusPrevious => fullscreen_laws::focusing_stays_orderly(
            state,
            state.focus_after(Action::FocusPrevious),
        ),
        Deed::SwitchWorkspace(index) => workspace_laws::switching_stays_orderly(
            state,
            index as int,
        ),
        Deed::MoveFocusedToWorkspace(index) => workspace_laws::moving_focused_stays_orderly(
            state,
            index as int,
        ),
        _ => {},
    }
}

} // verus!
