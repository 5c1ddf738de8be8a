//! Laws of what other programs are told: which workspace is active, and what state a window has.

use crate::protocols::ext_workspace::Board;
use crate::protocols::foreign_toplevel;
use crate::protocols::foreign_toplevel::WindowSays;
use crate::state::lists::SurfaceId;
use crate::state::raven::{State, WORKSPACE_COUNT};
use vstd::prelude::*;

verus! {

/// Of all workspaces that are told of, the current one alone is active; there are as many as there are
/// workspaces, and each is on the first output.
pub proof fn current_workspace_is_active(state: State, board: Board, index: int)
    requires
        state.sound(),
        0 <= index < WORKSPACE_COUNT,
    ensures
        state.board(board).workspaces.len() == WORKSPACE_COUNT,
        state.board(board).workspaces[index].active <==> index == state.current,
        state.outputs.len() > 0 ==> state.board(board).workspaces[index].output == Some(
            state.outputs[0].id,
        ),
        state.outputs.len() == 0 ==> state.board(board).workspaces[index].output is None,
{
}

/// The states that are told of a window: maximized, activated and fullscreen each by the number that
/// the protocol has for it, exactly where the window is so.
pub proof fn states_are_numbered(maximized: bool, fullscreen: bool, has_focus: bool)
    ensures
        ({
            let states = foreign_toplevel::state_numbers(maximized, fullscreen, has_focus);
            &&& states.contains(0u32) <==> maximized
            &&& states.contains(2u32) <==> has_focus
            &&& states.contains(3u32) <==> fullscreen
            &&& forall|number: u32| #[trigger]
                states.contains(number) ==> number == 0 || number == 2 || number == 3
            &&& states.no_duplicates()
        }),
{
    let states = foreign_toplevel::state_numbers(maximized, fullscreen, has_focus);
    if maximized {
        assert(states[0] == 0u32);
    }
    if fullscreen {
        assert(states[if maximized {
            1
        } else {
            0int
        }] == 3u32);
    }
    if has_focus {
        assert(states[states.len() - 1] == 2u32);
    }
}

/// What is told of a window is what it calls itself; it is active if and only if it has the keyboard,
/// and it is on an output only while it is on the screen.
pub proof fn window_is_told_as_it_is(state: State, window: SurfaceId, says: WindowSays)
    ensures
        ({
            let told = state.told_of(window, says);
            &&& told.surface == window
            &&& told.title == says.title
            &&& told.app_id == says.app_id
            &&& told.states.contains(2u32) <==> state.keyboard_focus == Some(window)
            &&& told.states.contains(0u32) <==> says.maximized
            &&& told.states.contains(3u32) <==> says.fullscreen
            &&& !state.on_screen(window) ==> told.output is None
            &&& state.on_screen(window) && state.outputs.len() > 0 ==> told.output == Some(
                state.outputs[0].id,
            )
        }),
{
    states_are_numbered(says.maximized, says.fullscreen, state.keyboard_focus == Some(window));
}

} // verus!
