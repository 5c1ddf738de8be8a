//! Lists of windows, one for each workspace. A window is known by the number of its surface.

use crate::errors;
use crate::errors::{CompositorError, Failure};
use crate::numbers;
use crate::numbers::write_decimal;
use vstd::prelude::*;

verus! {

/// The number that a surface, and the window it is the root of, is known by.
pub type SurfaceId = u64;

/// The lists as plain values.
pub open spec fn lists(workspaces: Seq<Vec<SurfaceId>>) -> Seq<Seq<SurfaceId>> {
    Seq::new(workspaces.len(), |i: int| workspaces[i]@)
}

/// `list` without `window`.
pub open spec fn without(list: Seq<SurfaceId>, window: SurfaceId) -> Seq<SurfaceId>
    decreases list.len(),
{
    if list.len() == 0 {
        list
    } else if list.last() == window {
        without(list.drop_last(), window)
    } else {
        without(list.drop_last(), window).push(list.last())
    }
}

/// `list` with `window` at its end, unless it is there already.
pub open spec fn with(list: Seq<SurfaceId>, window: SurfaceId) -> Seq<SurfaceId> {
    if list.contains(window) {
        list
    } else {
        list.push(window)
    }
}

/// The first list at or after `from` that holds `window`.
pub open spec fn index_from(all: Seq<Seq<SurfaceId>>, window: SurfaceId, from: int) -> Option<usize>
    decreases all.len() - from,
{
    if from < 0 || from >= all.len() {
        None
    } else if all[from].contains(window) {
        Some(from as usize)
    } else {
        index_from(all, window, from + 1)
    }
}

/// The first list that holds `window`.
pub open spec fn index_of(all: Seq<Seq<SurfaceId>>, window: SurfaceId) -> Option<usize> {
    index_from(all, window, 0)
}

/// The lists without `window`.
pub open spec fn removed(all: Seq<Seq<SurfaceId>>, window: SurfaceId) -> Seq<Seq<SurfaceId>> {
    Seq::new(all.len(), |i: int| without(all[i], window))
}

/// The lists with `window` on list `index`, where there is such a list.
pub open spec fn added(all: Seq<Seq<SurfaceId>>, index: int, window: SurfaceId) -> Seq<
    Seq<SurfaceId>,
> {
    if 0 <= index < all.len() {
        all.update(index, with(all[index], window))
    } else {
        all
    }
}

/// Whether some list holds `window`.
pub open spec fn listed(all: Seq<Seq<SurfaceId>>, window: SurfaceId) -> bool {
    exists|i: int| 0 <= i < all.len() && #[trigger] all[i].contains(window)
}

/// Whether no window stands twice on the lists.
pub open spec fn each_once(all: Seq<Seq<SurfaceId>>) -> bool {
    &&& forall|i: int| 0 <= i < all.len() ==> (#[trigger] all[i]).no_duplicates()
    &&& forall|i: int, j: int, window: SurfaceId|
        0 <= i < j < all.len() && #[trigger] all[i].contains(window) ==> !#[trigger] all[j].contains(
            window,
        )
}

/// What `without` leaves.
pub proof fn without_leaves(list: Seq<SurfaceId>, window: SurfaceId)
    ensures
        forall|other: SurfaceId| #[trigger]
            without(list, window).contains(other) <==> list.contains(other) && other != window,
        without(list, window).len() <= list.len(),
        without(list, window).len() == list.len() <==> !list.contains(window),
        !list.contains(window) ==> without(list, window) == list,
        list.no_duplicates() ==> without(list, window).no_duplicates(),
    decreases list.len(),
{
    if list.len() > 0 {
        let rest = list.drop_last();
        without_leaves(rest, window);
        let inner = without(rest, window);
        assert(list =~= rest.push(list.last()));
        assert forall|other: SurfaceId| #[trigger]
            without(list, window).contains(other) <==> list.contains(other) && other
                != window by {
            if list.contains(other) && other != window {
                let i = choose|i: int| 0 <= i < list.len() && list[i] == other;
                if i < rest.len() {
                    assert(rest[i] == other);
                    assert(inner.contains(other));
                    let k = choose|k: int| 0 <= k < inner.len() && inner[k] == other;
                    assert(without(list, window)[k] == other);
                } else {
                    assert(without(list, window).last() == other);
                }
            }
            if without(list, window).contains(other) {
                let k = choose|k: int|
                    0 <= k < without(list, window).len() && without(list, window)[k] == other;
                if k < inner.len() {
                    assert(inner[k] == other);
                    assert(inner.contains(other));
                    assert(rest.contains(other));
                    let i = choose|i: int| 0 <= i < rest.len() && rest[i] == other;
                    assert(list[i] == other);
                } else {
                    assert(list.last() == other);
                }
            }
        }
        assert(list.contains(window) <==> rest.contains(window) || list.last() == window) by {
            if rest.contains(window) {
                let i = choose|i: int| 0 <= i < rest.len() && rest[i] == window;
                assert(list[i] == window);
            }
            if list.contains(window) {
                let i = choose|i: int| 0 <= i < list.len() && list[i] == window;
                if i < rest.len() {
                    assert(rest[i] == window);
                }
            }
        }
        if list.no_duplicates() {
            assert(rest.no_duplicates()) by {
                assert forall|i: int, j: int| 0 <= i < rest.len() && 0 <= j < rest.len() && i
                    != j implies rest[i] != rest[j] by {
                    assert(list[i] == rest[i] && list[j] == rest[j]);
                }
            }
            assert forall|i: int| 0 <= i < inner.len() implies inner[i] != list.last() by {
                assert(inner.contains(inner[i]));
                let k = choose|k: int| 0 <= k < rest.len() && rest[k] == inner[i];
                assert(list[k] == inner[i]);
            }
        }
    }
}

/// What `index_of` finds: the first list with the window, if any.
pub proof fn index_of_finds(all: Seq<Seq<SurfaceId>>, window: SurfaceId)
    requires
        all.len() <= usize::MAX,
    ensures
        match index_of(all, window) {
            Some(index) => index < all.len() && all[index as int].contains(window) && forall|i: int|
                0 <= i < index ==> !#[trigger] all[i].contains(window),
            None => forall|i: int| 0 <= i < all.len() ==> !#[trigger] all[i].contains(window),
        },
        index_of(all, window) is Some <==> listed(all, window),
{
    index_from_finds(all, window, 0);
}

proof fn index_from_finds(all: Seq<Seq<SurfaceId>>, window: SurfaceId, from: int)
    requires
        0 <= from <= all.len() <= usize::MAX,
    ensures
        match index_from(all, window, from) {
            Some(index) => from <= index < all.len() && all[index as int].contains(window)
                && forall|i: int| from <= i < index ==> !#[trigger] all[i].contains(window),
            None => forall|i: int| from <= i < all.len() ==> !#[trigger] all[i].contains(window),
        },
    decreases all.len() - from,
{
    if from < all.len() && !all[from].contains(window) {
        index_from_finds(all, window, from + 1);
    }
}

/// On lists without doubles the list that holds a window is the only one.
pub proof fn index_of_is_only(all: Seq<Seq<SurfaceId>>, window: SurfaceId, index: int)
    requires
        each_once(all),
        all.len() <= usize::MAX,
        0 <= index < all.len(),
        all[index].contains(window),
    ensures
        index_of(all, window) == Some(index as usize),
{
    index_of_finds(all, window);
}

/// Removing a window leaves no double and takes that window out alone.
pub proof fn removed_keeps(all: Seq<Seq<SurfaceId>>, window: SurfaceId)
    ensures
        each_once(all) ==> each_once(removed(all, window)),
        forall|i: int, other: SurfaceId|
            0 <= i < all.len() ==> (#[trigger] removed(all, window)[i].contains(other)
                <==> all[i].contains(other) && other != window),
        !listed(removed(all, window), window),
{
    assert forall|i: int, other: SurfaceId| 0 <= i < all.len() implies (#[trigger] removed(
        all,
        window,
    )[i].contains(other) <==> all[i].contains(other) && other != window) by {
        without_leaves(all[i], window);
    }
    if each_once(all) {
        let rest = removed(all, window);
        assert forall|i: int| 0 <= i < rest.len() implies (#[trigger] rest[i]).no_duplicates() by {
            without_leaves(all[i], window);
        }
        assert forall|i: int, j: int, other: SurfaceId|
            0 <= i < j < rest.len() && #[trigger] rest[i].contains(
                other,
            ) implies !#[trigger] rest[j].contains(other) by {
            assert(all[i].contains(other));
            assert(!all[j].contains(other));
        }
    }
}

/// Adding a window that no list holds leaves no double.
pub proof fn added_keeps(all: Seq<Seq<SurfaceId>>, index: int, window: SurfaceId)
    requires
        each_once(all),
        forall|i: int| 0 <= i < all.len() && i != index ==> !#[trigger] all[i].contains(window),
    ensures
        each_once(added(all, index, window)),
        0 <= index < all.len() ==> added(all, index, window)[index].contains(window),
        forall|i: int, other: SurfaceId|
            0 <= i < all.len() && other != window ==> (#[trigger] added(
                all,
                index,
                window,
            )[i].contains(other) <==> all[i].contains(other)),
{
    if 0 <= index < all.len() {
        let list = all[index];
        let grown = with(list, window);
        assert forall|other: SurfaceId| #[trigger]
            grown.contains(other) <==> list.contains(other) || other == window by {
            if !list.contains(window) {
                assert(grown.last() == window);
                if list.contains(other) {
                    let i = choose|i: int| 0 <= i < list.len() && list[i] == other;
                    assert(grown[i] == other);
                }
            }
        }
        let after = added(all, index, window);
        assert(all[index].no_duplicates());
        assert forall|i: int| 0 <= i < after.len() implies (#[trigger] after[i]).no_duplicates() by {
            assert(all[i].no_duplicates());
        }
        assert forall|i: int, j: int, other: SurfaceId|
            0 <= i < j < after.len() && #[trigger] after[i].contains(
                other,
            ) implies !#[trigger] after[j].contains(other) by {
            if other != window {
                assert(all[i].contains(other));
                assert(!all[j].contains(other));
            }
        }
    }
}

/// Whether `list` holds `window`.
pub fn workspace_contains_window_entry(list: &Vec<SurfaceId>, window: SurfaceId) -> (result: bool)
    ensures
        result == list@.contains(window),
{
    let mut index: usize = 0;
    while index < list.len()
        invariant
            index <= list.len(),
            forall|i: int| 0 <= i < index ==> list[i] != window,
        decreases list.len() - index,
    {
        if list[index] == window {
            assert(list@[index as int] == window);
            return true;
        }
        index = index + 1;
    }
    false
}

/// Takes `window` out of `list`.
pub fn remove_entry(list: &mut Vec<SurfaceId>, window: SurfaceId)
    ensures
        final(list)@ == without(old(list)@, window),
{
    let mut kept: Vec<SurfaceId> = Vec::new();
    let ghost all = list@;
    let mut index: usize = 0;
    assert(all.take(0) =~= seq![]);
    while index < list.len()
        invariant
            index <= list.len(),
            all == list@,
            kept@ == without(all.take(index as int), window),
        decreases list.len() - index,
    {
        assert(all.take(index + 1).drop_last() =~= all.take(index as int));
        if list[index] != window {
            kept.push(list[index]);
        }
        index = index + 1;
    }
    assert(all.take(all.len() as int) =~= all);
    *list = kept;
}

/// Puts `window` at the end of `list`, unless it is there already.
pub fn add_entry(list: &mut Vec<SurfaceId>, window: SurfaceId)
    ensures
        final(list)@ == with(old(list)@, window),
{
    if !workspace_contains_window_entry(list, window) {
        list.push(window);
    }
}

/// The failure of a workspace that does not exist.
pub open spec fn no_such_workspace(index: int) -> Failure {
    Failure::Backend("invalid workspace index "@ + numbers::decimal(index as nat))
}

/// The error of a workspace that does not exist.
pub fn no_such_workspace_error(index: usize) -> (error: CompositorError)
    ensures
        error@ == no_such_workspace(index as int),
{
    let mut message = "invalid workspace index ".to_owned();
    message.append(write_decimal(index as u64).as_str());
    CompositorError::Backend(message)
}

/// Puts `window` on list `index`, unless it is there already.
pub fn add_window_to_workspace_list(
    workspaces: &mut Vec<Vec<SurfaceId>>,
    workspace_index: usize,
    window: SurfaceId,
) -> (result: Result<(), CompositorError>)
    ensures
        lists(final(workspaces)@) == added(lists(old(workspaces)@), workspace_index as int, window),
        errors::outcome(result) == (if workspace_index < old(workspaces)@.len() {
            Ok(())
        } else {
            Err(no_such_workspace(workspace_index as int))
        }),
{
    let ghost before = lists(workspaces@);
    if workspace_index >= workspaces.len() {
        assert(lists(workspaces@) =~= before);
        return Err(no_such_workspace_error(workspace_index));
    }
    add_entry(&mut workspaces[workspace_index], window);
    assert(lists(workspaces@) =~= added(before, workspace_index as int, window));
    Ok(())
}

/// The first list that holds `window`.
pub fn workspace_index_in_list(workspaces: &Vec<Vec<SurfaceId>>, window: SurfaceId) -> (index: Option<
    usize,
>)
    ensures
        index == index_of(lists(workspaces@), window),
{
    let ghost all = lists(workspaces@);
    let mut index: usize = 0;
    while index < workspaces.len()
        invariant
            index <= workspaces.len(),
            all == lists(workspaces@),
            index_of(all, window) == index_from(all, window, index as int),
        decreases workspaces.len() - index,
    {
        assert(all[index as int] == workspaces[index as int]@);
        if workspace_contains_window_entry(&workspaces[index], window) {
            return Some(index);
        }
        index = index + 1;
    }
    None
}

/// Takes `window` out of all lists; the first that held it is returned.
pub fn remove_window_from_workspace_list(workspaces: &mut Vec<Vec<SurfaceId>>, window: SurfaceId) -> (first:
    Option<usize>)
    ensures
        lists(final(workspaces)@) == removed(lists(old(workspaces)@), window),
        first == index_of(lists(old(workspaces)@), window),
{
    let first = workspace_index_in_list(workspaces, window);
    let ghost before = lists(workspaces@);
    let mut index: usize = 0;
    while index < workspaces.len()
        invariant
            index <= workspaces.len(),
            workspaces.len() == before.len(),
            forall|i: int| 0 <= i < index ==> #[trigger] workspaces[i]@ == without(before[i], window),
            forall|i: int| index <= i < workspaces.len() ==> #[trigger] workspaces[i]@ == before[i],
        decreases workspaces.len() - index,
    {
        remove_entry(&mut workspaces[index], window);
        index = index + 1;
    }
    assert(lists(workspaces@) =~= removed(before, window));
    first
}

/// A list without what occurs in it a second time.
pub open spec fn firsts(list: Seq<SurfaceId>) -> Seq<SurfaceId>
    decreases list.len(),
{
    if list.len() == 0 {
        list
    } else if list.drop_last().contains(list.last()) {
        firsts(list.drop_last())
    } else {
        firsts(list.drop_last()).push(list.last())
    }
}

/// Whether a window of a list occurs in it before.
pub fn occurs_before(list: &Vec<SurfaceId>, at: usize) -> (result: bool)
    requires
        at < list.len(),
    ensures
        result == list@.take(at as int).contains(list@[at as int]),
{
    let mut index: usize = 0;
    while index < at
        invariant
            index <= at < list.len(),
            forall|i: int| 0 <= i < index ==> list@[i] != list@[at as int],
        decreases at - index,
    {
        if list[index] == list[at] {
            assert(list@.take(at as int)[index as int] == list@[at as int]);
            return true;
        }
        index = index + 1;
    }
    false
}

/// A list without what occurs in it a second time.
pub fn keep_firsts(list: &Vec<SurfaceId>) -> (kept: Vec<SurfaceId>)
    ensures
        kept@ == firsts(list@),
{
    let mut kept: Vec<SurfaceId> = Vec::new();
    let mut index: usize = 0;
    assert(list@.take(0) =~= seq![]);
    while index < list.len()
        invariant
            index <= list.len(),
            kept@ == firsts(list@.take(index as int)),
        decreases list.len() - index,
    {
        assert(list@.take(index + 1).drop_last() =~= list@.take(index as int));
        if !occurs_before(list, index) {
            kept.push(list[index]);
        }
        index = index + 1;
    }
    assert(list@.take(list@.len() as int) =~= list@);
    kept
}

} // verus!
