//! The keyboard focus: which surface has it, and which window counts as active.

use crate::state::lists::SurfaceId;
use crate::state::raven::{Raven, State};
use crate::state::space;
use crate::state::toplevel::ToplevelState;
use vstd::prelude::*;

verus! {

broadcast use vstd::std_specs::hash::group_hash_axioms;

/// A change of focus.
#[derive(Clone, Copy, Debug, PartialEq, Eq, Structural)]
pub enum Action {
    FocusNext,
    FocusPrevious,
}

/// The first place of `window` on the stack.
pub open spec fn place_on_stack(stack: Seq<SurfaceId>, window: SurfaceId) -> Option<usize>
    decreases stack.len(),
{
    if stack.len() == 0 {
        None
    } else if stack[0] == window {
        Some(0)
    } else {
        match place_on_stack(stack.skip(1), window) {
            Some(place) => Some((place + 1) as usize),
            None => None,
        }
    }
}

impl State {
    /// The state with the windows of `list` told whether they are active.
    pub open spec fn activation_told(
        self,
        list: Seq<SurfaceId>,
        focused: Option<SurfaceId>,
    ) -> State
        decreases list.len(),
    {
        if list.len() == 0 {
            self
        } else {
            let before = self.activation_told(list.drop_last(), focused);
            let window = list.last();
            let marked = before.with_pending(
                window,
                ToplevelState {
                    activated: focused == Some(window),
                    ..before.toplevel(window).pending
                },
            );
            if marked.toplevel(window).configured {
                marked.configured_if_changed(window)
            } else {
                marked
            }
        }
    }

    /// The state with every window on the screen told whether it is active.
    pub open spec fn activation_synced(self, focused: Option<SurfaceId>) -> State {
        self.activation_told(space::stack(self.elements), focused)
    }

    /// The state with the keyboard given to a surface: its window is raised and active.
    #[verifier::opaque]
    pub open spec fn focus_set(self, target: Option<SurfaceId>) -> State {
        if self.keyboard_focus == target {
            self
        } else {
            let window = match target {
                Some(surface) => if self.has_window(surface) {
                    Some(surface)
                } else {
                    None
                },
                None => None,
            };
            let raised = match window {
                Some(window) => if self.on_screen(window) {
                    self.raised_in_layer(window)
                } else {
                    self
                },
                None => self,
            };
            State { keyboard_focus: target, ..raised.activation_synced(window) }
        }
    }

    /// The window that gets the keyboard where the one that had it is not on the screen: the one
    /// under the pointer, or else the topmost.
    pub open spec fn next_focus(self) -> Option<SurfaceId> {
        match self.pointer_window {
            Some(window) => Some(window),
            None => if self.elements.len() == 0 {
                None
            } else {
                Some(self.elements.last().window)
            },
        }
    }

    /// The state with the keyboard given to a window on the screen.
    #[verifier::opaque]
    pub open spec fn refocused(self) -> State {
        if self.keyboard_focus matches Some(focused) && self.has_window(focused)
            && self.on_screen(focused) {
            self.activation_synced(self.keyboard_focus)
        } else {
            self.focus_set(self.next_focus())
        }
    }

    /// The window that a change of focus leads to: the one above or below the focused one, as far as
    /// there is one.
    pub open spec fn focus_after(self, action: Action) -> Option<SurfaceId> {
        let stack = space::stack(self.elements);
        match self.keyboard_focus {
            Some(focused) => if !self.has_window(focused) {
                None
            } else {
                match place_on_stack(stack, focused) {
                    Some(place) => Some(
                        match action {
                            Action::FocusNext => if place + 1 < stack.len() {
                                stack[place + 1]
                            } else {
                                stack[place as int]
                            },
                            Action::FocusPrevious => if place > 0 {
                                stack[place - 1]
                            } else {
                                stack[place as int]
                            },
                        },
                    ),
                    None => None,
                }
            },
            None => None,
        }
    }
}

proof fn place_is_there(stack: Seq<SurfaceId>, window: SurfaceId)
    requires
        stack.len() <= usize::MAX,
    ensures
        place_on_stack(stack, window) matches Some(place) ==> place < stack.len() && stack[place as int]
            == window,
    decreases stack.len(),
{
    if stack.len() > 0 && stack[0] != window {
        place_is_there(stack.skip(1), window);
    }
}

/// The first place of `window` on the stack.
fn find_on_stack(stack: &Vec<SurfaceId>, window: SurfaceId) -> (place: Option<usize>)
    ensures
        place == place_on_stack(stack@, window),
        place matches Some(place) ==> place < stack@.len(),
{
    let count: usize = stack.len();
    let mut index: usize = 0;
    assert(stack@.skip(0) =~= stack@);
    proof {
        place_is_there(stack@, window);
    }
    while index < count
        invariant
            index <= count,
            count == stack@.len(),
            match place_on_stack(stack@.skip(index as int), window) {
                Some(place) => place_on_stack(stack@, window) == Some((place + index) as usize),
                None => place_on_stack(stack@, window) is None,
            },
        decreases count - index,
    {
        let ghost rest = stack@.skip(index as int);
        assert(rest.skip(1) =~= stack@.skip(index + 1));
        assert(rest[0] == stack@[index as int]);
        proof {
            place_is_there(rest, window);
            place_is_there(rest.skip(1), window);
        }
        if stack[index] == window {
            return Some(index);
        }
        index = index + 1;
    }
    None
}

impl Raven {
    /// Tells every window on the screen whether it is active.
    pub fn sync_window_activation(&mut self, focused_window: Option<SurfaceId>)
        requires
            old(self)@.sound(),
        ensures
            final(self)@ == old(self)@.activation_synced(focused_window),
            final(self)@.sound(),
    {
        let list = self.stacked_windows();
        let ghost before = self@;
        let mut index: usize = 0;
        assert(list@.take(0) =~= seq![]);
        while index < list.len()
            invariant
                index <= list.len(),
                self@ == before.activation_told(list@.take(index as int), focused_window),
                self@.sound(),
            decreases list.len() - index,
        {
            assert(list@.take(index + 1).drop_last() =~= list@.take(index as int));
            let window = list[index];
            let active = match focused_window {
                Some(focused) => focused == window,
                None => false,
            };
            let toplevel = self.toplevel(window);
            self.set_pending_state(window, ToplevelState { activated: active, ..toplevel.pending });
            if toplevel.configured {
                let _ = self.send_pending_configure(window);
            }
            index = index + 1;
        }
        assert(list@.take(list@.len() as int) =~= list@);
    }

    /// Gives the keyboard to a surface.
    pub fn set_keyboard_focus(&mut self, target: Option<SurfaceId>)
        requires
            old(self)@.sound(),
        ensures
            final(self)@ == old(self)@.focus_set(target),
            final(self)@.sound(),
    {
        proof {
            reveal(State::focus_set);
        }
        let same = match (self.keyboard_focus, target) {
            (Some(current), Some(target)) => current == target,
            (None, None) => true,
            _ => false,
        };
        if same {
            return;
        }
        let window = match target {
            Some(surface) => self.window_for_surface(surface),
            None => None,
        };
        if let Some(window) = window {
            if self.is_window_mapped(window) {
                self.raise_window_preserving_layer(window);
            }
        }
        self.sync_window_activation(window);
        self.keyboard_focus = target;
    }

    /// Gives the keyboard to a window on the screen, where the one that has it is not there.
    pub fn refocus_visible_window(&mut self)
        requires
            old(self)@.sound(),
        ensures
            final(self)@ == old(self)@.refocused(),
            final(self)@.sound(),
    {
        proof {
            reveal(State::refocused);
        }
        if let Some(focused) = self.keyboard_focus {
            if self.window_for_surface(focused).is_some() && self.is_window_mapped(focused) {
                self.sync_window_activation(Some(focused));
                return;
            }
        }
        let target = match self.pointer_window {
            Some(window) => Some(window),
            None => if self.elements.len() == 0 {
                None
            } else {
                Some(self.elements[self.elements.len() - 1].window)
            },
        };
        self.set_keyboard_focus(target);
    }
}

impl Action {
    /// Moves the keyboard to the window above or below.
    pub fn execute(self, raven: &mut Raven)
        requires
            old(raven)@.sound(),
        ensures
            final(raven)@ == match old(raven)@.focus_after(self) {
                Some(window) => old(raven)@.focus_set(Some(window)),
                None => old(raven)@,
            },
            final(raven)@.sound(),
    {
        let windows = raven.stacked_windows();
        let focused = match raven.keyboard_focus {
            Some(surface) => match raven.window_for_surface(surface) {
                Some(window) => window,
                None => return,
            },
            None => return,
        };
        let place = match find_on_stack(&windows, focused) {
            Some(place) => place,
            None => return,
        };
        let target: usize = match self {
            Action::FocusNext => if place < windows.len() - 1 {
                place + 1
            } else {
                place
            },
            Action::FocusPrevious => if place > 0 {
                place - 1
            } else {
                place
            },
        };
        raven.set_keyboard_focus(Some(windows[target]));
    }
}

} // verus!
