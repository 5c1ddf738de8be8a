//! All windows, each once.

use crate::state::lists;
use crate::state::lists::{add_entry, SurfaceId};
use crate::state::raven::{Raven, State};
use crate::state::space;
use vstd::prelude::*;

verus! {

/// `list` with the windows of `more` that are not there yet.
pub open spec fn gathered(list: Seq<SurfaceId>, more: Seq<SurfaceId>) -> Seq<SurfaceId>
    decreases more.len(),
{
    if more.len() == 0 {
        list
    } else {
        lists::with(gathered(list, more.drop_last()), more.last())
    }
}

/// `list` with the windows of all the lists that are not there yet.
pub open spec fn gathered_all(list: Seq<SurfaceId>, all: Seq<Seq<SurfaceId>>) -> Seq<SurfaceId>
    decreases all.len(),
{
    if all.len() == 0 {
        list
    } else {
        gathered(gathered_all(list, all.drop_last()), all.last())
    }
}

impl State {
    /// The mapped windows by workspace, then those on the screen beside them.
    pub open spec fn shown_windows(self) -> Seq<SurfaceId> {
        gathered(gathered_all(seq![], self.mapped), space::stack(self.elements))
    }

    /// The windows by workspace, mapped ones first, then those on the screen beside them.
    pub open spec fn all_windows(self) -> Seq<SurfaceId> {
        gathered(
            gathered_all(gathered_all(seq![], self.mapped), self.unmapped),
            space::stack(self.elements),
        )
    }
}

fn gather(list: &mut Vec<SurfaceId>, more: &Vec<SurfaceId>)
    ensures
        final(list)@ == gathered(old(list)@, more@),
{
    let ghost before = list@;
    let mut index: usize = 0;
    assert(more@.take(0) =~= seq![]);
    while index < more.len()
        invariant
            index <= more.len(),
            list@ == gathered(before, more@.take(index as int)),
        decreases more.len() - index,
    {
        assert(more@.take(index + 1).drop_last() =~= more@.take(index as int));
        add_entry(list, more[index]);
        index = index + 1;
    }
    assert(more@.take(more@.len() as int) =~= more@);
}

fn gather_all(list: &mut Vec<SurfaceId>, all: &Vec<Vec<SurfaceId>>)
    ensures
        final(list)@ == gathered_all(old(list)@, lists::lists(all@)),
{
    let ghost before = list@;
    let ghost plain = lists::lists(all@);
    let mut index: usize = 0;
    assert(plain.take(0) =~= seq![]);
    while index < all.len()
        invariant
            index <= all.len(),
            plain == lists::lists(all@),
            list@ == gathered_all(before, plain.take(index as int)),
        decreases all.len() - index,
    {
        assert(plain.take(index + 1).drop_last() =~= plain.take(index as int));
        assert(plain.take(index + 1).last() == all[index as int]@);
        gather(list, &all[index]);
        index = index + 1;
    }
    assert(plain.take(plain.len() as int) =~= plain);
}

impl Raven {
    /// The mapped windows by workspace, then those on the screen beside them.
    pub fn shown_windows(&self) -> (windows: Vec<SurfaceId>)
        ensures
            windows@ == self@.shown_windows(),
    {
        let mut windows: Vec<SurfaceId> = Vec::new();
        gather_all(&mut windows, &self.workspaces);
        gather(&mut windows, &self.stacked_windows());
        windows
    }

    /// The windows by workspace, mapped ones first, then those on the screen beside them.
    pub fn all_windows(&self) -> (windows: Vec<SurfaceId>)
        ensures
            windows@ == self@.all_windows(),
    {
        let mut windows: Vec<SurfaceId> = Vec::new();
        gather_all(&mut windows, &self.workspaces);
        gather_all(&mut windows, &self.unmapped_workspaces);
        gather(&mut windows, &self.stacked_windows());
        windows
    }
}

proof fn gathering_keeps(list: Seq<SurfaceId>, more: Seq<SurfaceId>, window: SurfaceId)
    requires
        list.no_duplicates(),
    ensures
        gathered(list, more).no_duplicates(),
        gathered(list, more).contains(window) <==> list.contains(window) || more.contains(window),
    decreases more.len(),
{
    if more.len() > 0 {
        let before = gathered(list, more.drop_last());
        let added = more.last();
        gathering_keeps(list, more.drop_last(), window);
        gathering_keeps(list, more.drop_last(), added);
        assert(more =~= more.drop_last().push(added));
        assert(more.contains(window) <==> more.drop_last().contains(window) || window == added) by {
            if more.drop_last().contains(window) {
                let i = choose|i: int|
                    0 <= i < more.drop_last().len() && more.drop_last()[i] == window;
                assert(more[i] == window);
            }
            if window == added {
                assert(more[more.len() - 1] == window);
            }
        }
        if !before.contains(added) {
            let after = before.push(added);
            assert(after.contains(window) <==> before.contains(window) || window == added) by {
                if before.contains(window) {
                    let i = choose|i: int| 0 <= i < before.len() && before[i] == window;
                    assert(after[i] == window);
                }
                if window == added {
                    assert(after[before.len() as int] == window);
                }
            }
        }
    }
}

proof fn gathering_all_keeps(list: Seq<SurfaceId>, all: Seq<Seq<SurfaceId>>, window: SurfaceId)
    requires
        list.no_duplicates(),
    ensures
        gathered_all(list, all).no_duplicates(),
        gathered_all(list, all).contains(window) <==> list.contains(window) || lists::listed(
            all,
            window,
        ),
    decreases all.len(),
{
    if all.len() > 0 {
        let rest = all.drop_last();
        gathering_all_keeps(list, rest, window);
        gathering_keeps(gathered_all(list, rest), all.last(), window);
        assert(lists::listed(all, window) <==> lists::listed(rest, window) || all.last().contains(
            window,
        )) by {
            if lists::listed(rest, window) {
                let i = choose|i: int| 0 <= i < rest.len() && (#[trigger] rest[i]).contains(window);
                assert(all[i].contains(window));
            }
            if lists::listed(all, window) && !all.last().contains(window) {
                let i = choose|i: int| 0 <= i < all.len() && (#[trigger] all[i]).contains(window);
                assert(rest[i].contains(window));
            }
            if all.last().contains(window) {
                assert(all[all.len() - 1].contains(window));
            }
        }
    }
}

/// Among all windows each is once, and every one that is on a workspace or on the screen.
pub proof fn all_windows_are_there(state: State, window: SurfaceId)
    ensures
        state.all_windows().no_duplicates(),
        state.all_windows().contains(window) <==> lists::listed(state.mapped, window)
            || lists::listed(state.unmapped, window) || space::stack(state.elements).contains(
            window,
        ),
{
    let none = Seq::<SurfaceId>::empty();
    gathering_all_keeps(none, state.mapped, window);
    let mapped = gathered_all(none, state.mapped);
    gathering_all_keeps(mapped, state.unmapped, window);
    gathering_keeps(
        gathered_all(mapped, state.unmapped),
        space::stack(state.elements),
        window,
    );
}

/// Among the shown windows each is once, and every one that is mapped or on the screen.
pub proof fn shown_windows_are_there(state: State, window: SurfaceId)
    ensures
        state.shown_windows().no_duplicates(),
        state.shown_windows().contains(window) <==> lists::listed(state.mapped, window)
            || space::stack(state.elements).contains(window),
{
    let none = Seq::<SurfaceId>::empty();
    gathering_all_keeps(none, state.mapped, window);
    gathering_keeps(gathered_all(none, state.mapped), space::stack(state.elements), window);
}

} // verus!
