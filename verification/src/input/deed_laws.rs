//! Laws of what keys do: every action does what its name says, and nothing else.

use crate::config::keybinds;
use crate::config::keybinds::{Deed, Keysym, ModifiersState};
use crate::geometry::Rectangle;
use crate::input::keys;
use crate::input::keys::Request;
use crate::state::fullscreen_laws;
use crate::state::lists::SurfaceId;
use crate::state::raven::{State, WORKSPACE_COUNT};
use crate::state::switching_laws;
use crate::state::tiling_laws;
use crate::state::toggling_laws;
use crate::state::workspace_laws;
use vstd::prelude::*;

verus! {

/// The keys of the digit row go to the workspaces: `1` to the first, `9` to the ninth and `0` to the
/// tenth, each with what stands on its key with shift.
pub proof fn digits_go_to_workspaces(keysym: Keysym, workspace: usize)
    ensures
        workspace < 9 ==> keys::workspace_key((0x31 + workspace) as u32) == Some(workspace),
        keys::workspace_key(0x30) == Some(9usize),
        keys::workspace_key(keysym) == Some(workspace) ==> workspace < WORKSPACE_COUNT
            && keybinds::on_digit_key(
            if workspace < 9 {
                (0x31 + workspace) as char
            } else {
                '0'
            },
            keysym,
        ),
        workspace < WORKSPACE_COUNT && keybinds::on_digit_key(
            if workspace < 9 {
                (0x31 + workspace) as char
            } else {
                '0'
            },
            keysym,
        ) ==> keys::workspace_key(keysym) == Some(workspace),
        keys::workspace_key(0x61) is None,
{
}

/// Without a key binding, the main key and a workspace key mean the switch to that workspace, with
/// shift the move of the focused window there; without the main key they mean nothing.
pub proof fn workspace_keys_mean_workspaces(
    state: State,
    modifiers: ModifiersState,
    keysym: Keysym,
    workspace: usize,
)
    requires
        keybinds::action_for(state.settings.keybinds, modifiers, keysym) is None,
        keys::workspace_key(keysym) == Some(workspace),
    ensures
        state.settings.general.main_key.held(modifiers) && !modifiers.shift ==> state.deed_for(
            modifiers,
            keysym,
        ) == Some(Deed::SwitchWorkspace(workspace)),
        state.settings.general.main_key.held(modifiers) && modifiers.shift ==> state.deed_for(
            modifiers,
            keysym,
        ) == Some(Deed::MoveFocusedToWorkspace(workspace)),
        !state.settings.general.main_key.held(modifiers) ==> state.deed_for(modifiers, keysym)
            is None,
{
}

/// The action that closes asks for the focused window to be closed, and the action that moves the
/// focus leaves nothing to be done: every action asks outside for what it names.
pub proof fn deeds_ask_for_what_they_name(state: State, command: Seq<char>, window: SurfaceId)
    ensures
        state.deed_request(Deed::Exec(command)) == Request::Spawn(command),
        state.deed_request(Deed::Terminal) is SpawnTerminal,
        state.deed_request(Deed::Launcher) is SpawnLauncher,
        state.deed_request(Deed::Quit) is Quit,
        state.deed_request(Deed::ReloadConfig) is ReloadConfig,
        state.deed_request(Deed::CloseFocused) == Request::Close(window) <==> state.keyboard_focus
            == Some(window) && state.has_window(window),
        state.deed_request(Deed::ToggleFullscreen) is Nothing,
        state.deed_request(Deed::ToggleFloating) is Nothing,
        state.deed_request(Deed::FocusNext) is Nothing,
        state.deed_request(Deed::FocusPrevious) is Nothing,
        state.deed_request(Deed::SwitchWorkspace(0)) is Nothing,
        state.deed_request(Deed::MoveFocusedToWorkspace(0)) is Nothing,
{
}

/// The actions that are done outside change nothing here.
pub proof fn outside_deeds_change_nothing(state: State, command: Seq<char>)
    ensures
        state.deed_done(Deed::Exec(command)) == state,
        state.deed_done(Deed::Terminal) == state,
        state.deed_done(Deed::Launcher) == state,
        state.deed_done(Deed::CloseFocused) == state,
        state.deed_done(Deed::Quit) == state,
        state.deed_done(Deed::ReloadConfig) == state,
        state.deed_done(Deed::Unsupported(command)) == state,
{
    reveal(State::deed_done);
}

/// The actions on workspaces: the switch makes the workspace current, the move puts the focused window
/// of the current workspace there and off the screen.
pub proof fn workspace_deeds_do(state: State, workspace: usize, window: SurfaceId)
    requires
        state.orderly(),
        state.all_alive(),
        workspace < WORKSPACE_COUNT,
    ensures
        state.deed_done(Deed::SwitchWorkspace(workspace)).current == workspace,
        state.keyboard_focus == Some(window) && state.mapped[state.current as int].contains(window)
            && workspace != state.current ==> state.deed_done(
            Deed::MoveFocusedToWorkspace(workspace),
        ).mapped[workspace as int].contains(window) && !state.deed_done(
            Deed::MoveFocusedToWorkspace(workspace),
        ).on_screen(window) && state.deed_done(Deed::MoveFocusedToWorkspace(workspace)).current
            == state.current,
{
    reveal(State::deed_done);
    workspace_laws::switching_stays_orderly(state, workspace as int);
    if state.keyboard_focus == Some(window) && state.mapped[state.current as int].contains(window)
        && workspace != state.current {
        tiling_laws::moving_away_takes_off(state, workspace as int, window);
    }
}

/// The actions on the focus: it goes to the window right above or right below, if there is one.
pub proof fn focus_deeds_do(state: State, at: int)
    requires
        state.orderly(),
        state.elements.len() <= usize::MAX,
        0 <= at < state.elements.len(),
        state.keyboard_focus == Some(state.elements[at].window),
    ensures
        at + 1 < state.elements.len() ==> state.deed_done(Deed::FocusNext).keyboard_focus == Some(
            state.elements[at + 1].window,
        ),
        at + 1 == state.elements.len() ==> state.deed_done(Deed::FocusNext).keyboard_focus
            == state.keyboard_focus,
        at > 0 ==> state.deed_done(Deed::FocusPrevious).keyboard_focus == Some(
            state.elements[at - 1].window,
        ),
        at == 0 ==> state.deed_done(Deed::FocusPrevious).keyboard_focus == state.keyboard_focus,
{
    reveal(State::deed_done);
    switching_laws::focus_goes_by_one(state, at);
    if at + 1 < state.elements.len() {
        fullscreen_laws::focusing_stays_orderly(state, Some(state.elements[at + 1].window));
    }
    if at > 0 {
        fullscreen_laws::focusing_stays_orderly(state, Some(state.elements[at - 1].window));
    }
    fullscreen_laws::focusing_stays_orderly(state, state.keyboard_focus);
}

/// The action on floating turns whether the focused window floats.
pub proof fn floating_deed_does(state: State, window: SurfaceId)
    requires
        state.orderly(),
        state.all_alive(),
        state.keyboard_focus == Some(window),
        state.has_window(window),
    ensures
        state.deed_done(Deed::ToggleFloating).floats(window) == !state.floats(window),
{
    reveal(State::deed_done);
    switching_laws::floating_toggle_turns(state, window);
}

/// The action on fullscreen asks a client that is not fullscreen to be so, in the size of the output,
/// and one that is not to be so any more.
pub proof fn fullscreen_deed_does(
    state: State,
    window: SurfaceId,
    index: int,
    whole: Rectangle,
)
    requires
        state.orderly(),
        state.keyboard_focus == Some(window),
        state.has_window(window),
    ensures
        0 <= index < state.owners.len() && state.owners[index] is Some
            && state.owners[index].unwrap().surface == window ==> !state.deed_done(
            Deed::ToggleFullscreen,
        ).toplevel(window).pending.fullscreen,
        state.fills_none(window) && state.toplevel(window).configured && !state.toplevel(
            window,
        ).pending.fullscreen && !state.toplevel(window).sent.fullscreen && state.shows_on(
            window,
            whole,
        ) ==> state.deed_done(Deed::ToggleFullscreen).toplevel(window).pending.fullscreen
            && state.deed_done(Deed::ToggleFullscreen).toplevel(window).pending.size == Some(
            whole.size,
        ) && state.deed_done(Deed::ToggleFullscreen).transitions.contains_key(window)
            && state.deed_done(Deed::ToggleFullscreen).transitions[window] is Enter,
{
    reveal(State::deed_done);
    if 0 <= index < state.owners.len() && state.owners[index] is Some
        && state.owners[index].unwrap().surface == window {
        toggling_laws::toggle_leaves_fullscreen(state, window, index);
    }
    if state.fills_none(window) && state.toplevel(window).configured && !state.toplevel(
        window,
    ).pending.fullscreen && !state.toplevel(window).sent.fullscreen && state.shows_on(
        window,
        whole,
    ) {
        toggling_laws::toggle_asks_fullscreen(state, window, whole);
    }
}

} // verus!
