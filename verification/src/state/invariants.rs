//! What holds of the state between any two events: every window is kept in one place only, what is
//! on the screen is kept as mapped, and a fullscreen window is on the workspace that it fills.

use crate::state::lists;
use crate::state::lists::{workspace_contains_window_entry, SurfaceId};
use crate::state::raven::{Raven, State};
use crate::state::space;
use vstd::prelude::*;

verus! {

broadcast use vstd::std_specs::hash::group_hash_axioms;

impl State {
    /// Whether no surface is both mapped and unmapped, and no mapped one carries the mark of an
    /// unmapped one.
    pub open spec fn stores_apart(self) -> bool {
        forall|window: SurfaceId| #[trigger]
            lists::listed(self.mapped, window) ==> !lists::listed(self.unmapped, window)
                && !self.unmapped_marks.contains(window)
    }

    /// Whether every window on the screen is mapped.
    pub open spec fn screen_mapped(self) -> bool {
        forall|window: SurfaceId| #[trigger]
            space::stack(self.elements).contains(window) ==> lists::listed(self.mapped, window)
    }

    /// Whether every live surface with the mark is unmapped.
    pub open spec fn marks_unmapped(self) -> bool {
        forall|window: SurfaceId| #[trigger]
            self.unmapped_marks.contains(window) && self.toplevel(window).live ==> lists::listed(
                self.unmapped,
                window,
            )
    }

    /// Whether every fullscreen window is on the workspace that it fills.
    pub open spec fn owners_at_home(self) -> bool {
        forall|i: int|
            0 <= i < self.owners.len() && (#[trigger] self.owners[i]) is Some
                ==> self.workspace_holds(i, self.owners[i].unwrap().surface)
    }

    /// Whether no window fills two workspaces.
    pub open spec fn owners_apart(self) -> bool {
        forall|i: int, j: int|
            0 <= i < j < self.owners.len() && (#[trigger] self.owners[i]) is Some && (
            #[trigger] self.owners[j]) is Some ==> self.owners[i].unwrap().surface
                != self.owners[j].unwrap().surface
    }

    /// Whether every window is accounted for: each is kept in one place only, what is on the screen
    /// is mapped, and fullscreen windows are on the workspaces that they fill.
    pub open spec fn accounted(self) -> bool {
        &&& lists::each_once(self.mapped)
        &&& lists::each_once(self.unmapped)
        &&& self.stores_apart()
        &&& self.screen_mapped()
        &&& self.marks_unmapped()
        &&& self.owners_at_home()
        &&& self.owners_apart()
    }

    /// What holds of the state between any two events: every window is accounted for, and none is on
    /// the screen twice.
    pub open spec fn consistent(self) -> bool {
        &&& self.accounted()
        &&& space::one_each(self.elements)
    }
}

fn no_double(list: &Vec<SurfaceId>) -> (result: bool)
    ensures
        result == list@.no_duplicates(),
{
    let mut at: usize = 0;
    while at < list.len()
        invariant
            at <= list.len(),
            forall|i: int, j: int| 0 <= i < j < at ==> list@[i] != list@[j],
        decreases list.len() - at,
    {
        let mut before: usize = 0;
        while before < at
            invariant
                before <= at < list.len(),
                forall|i: int| 0 <= i < before ==> list@[i] != list@[at as int],
            decreases at - before,
        {
            if list[before] == list[at] {
                assert(list@[before as int] == list@[at as int]);
                return false;
            }
            before = before + 1;
        }
        at = at + 1;
    }
    true
}

fn none_shared(list: &Vec<SurfaceId>, other: &Vec<SurfaceId>) -> (result: bool)
    ensures
        result == (forall|window: SurfaceId|
            list@.contains(window) ==> !other@.contains(window)),
{
    let mut at: usize = 0;
    while at < list.len()
        invariant
            at <= list.len(),
            forall|i: int| 0 <= i < at ==> !other@.contains(#[trigger] list@[i]),
        decreases list.len() - at,
    {
        if workspace_contains_window_entry(other, list[at]) {
            assert(list@.contains(list@[at as int]));
            return false;
        }
        at = at + 1;
    }
    true
}

fn each_listed_once(all: &Vec<Vec<SurfaceId>>) -> (result: bool)
    ensures
        result == lists::each_once(lists::lists(all@)),
{
    let ghost plain = lists::lists(all@);
    let mut at: usize = 0;
    while at < all.len()
        invariant
            at <= all.len(),
            plain == lists::lists(all@),
            forall|i: int| 0 <= i < at ==> (#[trigger] plain[i]).no_duplicates(),
            forall|i: int, j: int, window: SurfaceId|
                0 <= i < j < at && #[trigger] plain[i].contains(
                    window,
                ) ==> !#[trigger] plain[j].contains(window),
        decreases all.len() - at,
    {
        assert(plain[at as int] == all[at as int]@);
        if !no_double(&all[at]) {
            return false;
        }
        let mut before: usize = 0;
        while before < at
            invariant
                before <= at < all.len(),
                plain == lists::lists(all@),
                forall|i: int, window: SurfaceId|
                    0 <= i < before && #[trigger] plain[i].contains(
                        window,
                    ) ==> !plain[at as int].contains(window),
            decreases at - before,
        {
            assert(plain[at as int] == all[at as int]@);
            assert(plain[before as int] == all[before as int]@);
            if !none_shared(&all[before], &all[at]) {
                return false;
            }
            before = before + 1;
        }
        at = at + 1;
    }
    true
}

impl Raven {
    fn stores_are_apart(&self) -> (result: bool)
        requires
            self@.sound(),
        ensures
            result == self@.stores_apart(),
    {
        let ghost mapped = self@.mapped;
        let mut at: usize = 0;
        while at < self.workspaces.len()
            invariant
                at <= self.workspaces.len(),
                self@.sound(),
                mapped == self@.mapped,
                forall|i: int, window: SurfaceId|
                    0 <= i < at && #[trigger] mapped[i].contains(window) ==> !lists::listed(
                        self@.unmapped,
                        window,
                    ) && !self@.unmapped_marks.contains(window),
            decreases self.workspaces.len() - at,
        {
            let ghost list = mapped[at as int];
            assert(list == self.workspaces[at as int]@);
            let mut place: usize = 0;
            while place < self.workspaces[at].len()
                invariant
                    at < self.workspaces.len(),
                    self@.sound(),
                    list == self.workspaces[at as int]@,
                    mapped == self@.mapped,
                    list == mapped[at as int],
                    place <= list.len(),
                    forall|k: int|
                        0 <= k < place ==> !lists::listed(self@.unmapped, #[trigger] list[k])
                            && !self@.unmapped_marks.contains(list[k]),
                decreases list.len() - place,
            {
                let window = self.workspaces[at][place];
                proof {
                    lists::index_of_finds(self@.unmapped, window);
                    assert(list[place as int] == window);
                    assert(mapped[at as int].contains(window));
                }
                if self.workspace_index_for_unmapped_window(window).is_some()
                    || self.is_surface_unmapped_toplevel(window) {
                    assert(lists::listed(mapped, window));
                    return false;
                }
                place = place + 1;
            }
            at = at + 1;
        }
        true
    }

    fn screen_is_mapped(&self) -> (result: bool)
        requires
            self@.sound(),
        ensures
            result == self@.screen_mapped(),
    {
        let stack = self.stacked_windows();
        let mut at: usize = 0;
        while at < stack.len()
            invariant
                at <= stack.len(),
                self@.sound(),
                stack@ == space::stack(self@.elements),
                forall|i: int|
                    0 <= i < at ==> lists::listed(self@.mapped, #[trigger] stack@[i]),
            decreases stack.len() - at,
        {
            proof {
                lists::index_of_finds(self@.mapped, stack@[at as int]);
            }
            if self.workspace_index_for_mapped_window(stack[at]).is_none() {
                assert(stack@.contains(stack@[at as int]));
                return false;
            }
            at = at + 1;
        }
        true
    }

    fn marks_are_unmapped(&self) -> (result: bool)
        requires
            self@.sound(),
        ensures
            result == self@.marks_unmapped(),
    {
        for surface in marks: self.unmapped_toplevel_ids.iter()
            invariant
                self@.sound(),
                marks.seq().unref().to_set() == self@.unmapped_marks,
                forall|i: int|
                    0 <= i < marks.index() ==> (self@.toplevel(
                        *(#[trigger] marks.seq()[i]),
                    ).live ==> lists::listed(self@.unmapped, *marks.seq()[i])),
        {
            let window: SurfaceId = *surface;
            proof {
                lists::index_of_finds(self@.unmapped, window);
                assert(marks.seq().unref()[marks.index() as int] == window);
                assert(marks.seq().unref().contains(window));
            }
            if self.window_has_live_client(window) && self.workspace_index_for_unmapped_window(
                window,
            ).is_none() {
                assert(self@.unmapped_marks.contains(window));
                return false;
            }
        }
        true
    }

    fn owners_are_at_home(&self) -> (result: bool)
        requires
            self@.sound(),
        ensures
            result == (self@.owners_at_home() && self@.owners_apart()),
    {
        let mut at: usize = 0;
        while at < self.fullscreen.owners.len()
            invariant
                at <= self.fullscreen.owners.len(),
                self@.sound(),
                forall|i: int|
                    0 <= i < at && (#[trigger] self@.owners[i]) is Some ==> self@.workspace_holds(
                        i,
                        self@.owners[i].unwrap().surface,
                    ),
                forall|i: int, j: int|
                    0 <= i < j < at && (#[trigger] self@.owners[i]) is Some && (
                    #[trigger] self@.owners[j]) is Some ==> self@.owners[i].unwrap().surface
                        != self@.owners[j].unwrap().surface,
            decreases self.fullscreen.owners.len() - at,
        {
            if let Some(slot) = self.fullscreen.owners[at] {
                if !self.workspace_contains_window(at, slot.surface) {
                    assert(self@.owners[at as int] is Some);
                    return false;
                }
                let mut before: usize = 0;
                while before < at
                    invariant
                        before <= at < self.fullscreen.owners.len(),
                        self@.owners[at as int] == Some(slot),
                        forall|i: int|
                            0 <= i < before && (#[trigger] self@.owners[i]) is Some
                                ==> self@.owners[i].unwrap().surface != slot.surface,
                    decreases at - before,
                {
                    if let Some(other) = self.fullscreen.owners[before] {
                        if other.surface == slot.surface {
                            assert(self@.owners[before as int] is Some);
                            return false;
                        }
                    }
                    before = before + 1;
                }
            }
            at = at + 1;
        }
        true
    }

    /// Whether every window is accounted for, as it should be between two events.
    pub fn state_invariants_hold(&self) -> (result: bool)
        requires
            self@.sound(),
        ensures
            result == self@.accounted(),
    {
        each_listed_once(&self.workspaces) && each_listed_once(&self.unmapped_workspaces)
            && self.stores_are_apart() && self.screen_is_mapped() && self.marks_are_unmapped()
            && self.owners_are_at_home()
    }
}

} // verus!
