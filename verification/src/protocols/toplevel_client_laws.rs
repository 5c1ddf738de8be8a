//! What holds of every manager that follows the windows.

use crate::protocols::foreign_toplevel;
use crate::protocols::foreign_toplevel::{ToplevelEvent, Told, WindowFacts};
use crate::protocols::numbering;
use crate::protocols::numbering::HandleId;
use crate::protocols::toplevel_clients;
use crate::protocols::toplevel_clients::{
    Acquaintance, Changes, Circle, OutputProxy, ToplevelFollower,
};
use crate::protocols::workspace_clients::ManagerId;
use crate::state::lists::SurfaceId;
use crate::state::raven::State;
use vstd::prelude::*;

verus! {

/// Whether a window is told of.
pub open spec fn is_told(told: Seq<Told>, surface: SurfaceId) -> bool {
    exists|i: int| 0 <= i < told.len() && (#[trigger] told[i]).surface == surface
}

impl Circle {
    /// Whether a manager follows the windows.
    pub open spec fn follows(self, manager: ManagerId) -> bool {
        exists|i: int| 0 <= i < self.managers.len() && (#[trigger] self.managers[i]).id == manager
    }

    /// Whether no two handles have one number, and the next has none of theirs.
    pub open spec fn numbered(self) -> bool {
        &&& forall|i: int| 0 <= i < self.handles.len() ==> (#[trigger] self.handles[i]).id < self.made
        &&& forall|i: int, j: int|
            0 <= i < j < self.handles.len() ==> (#[trigger] self.handles[i]).id != (
            #[trigger] self.handles[j]).id
    }

    /// Whether a manager follows, and knows just the windows that are told of.
    pub open spec fn caught_up(self, manager: ManagerId, told: Seq<Told>) -> bool {
        &&& self.follows(manager)
        &&& forall|surface: SurfaceId| #[trigger]
            self.knows(manager, surface) <==> is_told(told, surface)
    }
}

spec fn known(handles: Seq<Acquaintance>, manager: ManagerId, surface: SurfaceId) -> bool {
    exists|i: int|
        0 <= i < handles.len() && (#[trigger] handles[i]).manager == manager && handles[i].surface
            == surface
}

proof fn more_known(
    handles: Seq<Acquaintance>,
    more: Seq<Acquaintance>,
    manager: ManagerId,
    surface: SurfaceId,
)
    ensures
        known(handles + more, manager, surface) <==> known(handles, manager, surface) || known(
            more,
            manager,
            surface,
        ),
{
    let both = handles + more;
    if known(both, manager, surface) {
        let i = choose|i: int|
            0 <= i < both.len() && (#[trigger] both[i]).manager == manager && both[i].surface
                == surface;
        if i < handles.len() {
            assert(handles[i].manager == manager);
        } else {
            assert(more[i - handles.len()].manager == manager);
        }
    }
    if known(handles, manager, surface) {
        let i = choose|i: int|
            0 <= i < handles.len() && (#[trigger] handles[i]).manager == manager
                && handles[i].surface == surface;
        assert(both[i].manager == manager);
    }
    if known(more, manager, surface) {
        let i = choose|i: int|
            0 <= i < more.len() && (#[trigger] more[i]).manager == manager && more[i].surface
                == surface;
        assert(both[handles.len() + i].manager == manager);
    }
}

proof fn known_but_for(
    handles: Seq<Acquaintance>,
    gone: SurfaceId,
    manager: ManagerId,
    surface: SurfaceId,
)
    ensures
        known(toplevel_clients::handles_without(handles, gone), manager, surface) <==> known(
            handles,
            manager,
            surface,
        ) && surface != gone,
    decreases handles.len(),
{
    if handles.len() > 0 {
        let rest = handles.drop_last();
        let last = seq![handles.last()];
        known_but_for(rest, gone, manager, surface);
        assert(rest + last =~= handles);
        more_known(rest, last, manager, surface);
        assert(last[0] == handles.last());
        let kept = toplevel_clients::handles_without(rest, gone);
        assert(kept.push(handles.last()) =~= kept + last);
        more_known(kept, last, manager, surface);
    }
}

proof fn same_known(
    one: Seq<Acquaintance>,
    other: Seq<Acquaintance>,
    manager: ManagerId,
    surface: SurfaceId,
)
    requires
        one.len() == other.len(),
        forall|i: int|
            0 <= i < one.len() ==> (#[trigger] one[i]).manager == other[i].manager
                && one[i].surface == other[i].surface,
    ensures
        known(one, manager, surface) <==> known(other, manager, surface),
{
    if known(one, manager, surface) {
        let i = choose|i: int|
            0 <= i < one.len() && (#[trigger] one[i]).manager == manager && one[i].surface
                == surface;
        assert(other[i].manager == manager);
    }
    if known(other, manager, surface) {
        let i = choose|i: int|
            0 <= i < other.len() && (#[trigger] other[i]).manager == manager && other[i].surface
                == surface;
        assert(one[i].manager == manager);
    }
}

/// A manager that begins to follow knows just the windows that are told of.
pub proof fn newcomer_catches_up(
    circle: Circle,
    follower: ToplevelFollower,
    told: Seq<Told>,
    bound: Seq<OutputProxy>,
)
    requires
        forall|surface: SurfaceId| !#[trigger] circle.knows(follower.id, surface),
    ensures
        circle.joined(follower, told, bound).caught_up(follower.id, told),
{
    let after = circle.joined(follower, told, bound);
    assert(after.managers[circle.managers.len() as int].id == follower.id);
    let news = Seq::new(
        told.len(),
        |i: int|
            toplevel_clients::met(
                follower,
                told[i],
                bound,
                numbering::number(circle.made, i),
            ),
    );
    assert(after.handles =~= circle.handles + news);
    assert forall|surface: SurfaceId| #[trigger]
        after.knows(follower.id, surface) <==> is_told(told, surface) by {
        more_known(circle.handles, news, follower.id, surface);
        assert(after.knows(follower.id, surface) == known(after.handles, follower.id, surface));
        assert(circle.knows(follower.id, surface) == known(circle.handles, follower.id, surface));
        if is_told(told, surface) {
            let i = choose|i: int|
                0 <= i < told.len() && (#[trigger] told[i]).surface == surface;
            assert(news[i].manager == follower.id && news[i].surface == surface);
        }
        if known(news, follower.id, surface) {
            let i = choose|i: int|
                0 <= i < news.len() && (#[trigger] news[i]).manager == follower.id
                    && news[i].surface == surface;
            assert(told[i].surface == surface);
        }
    }
}

spec fn known_after(events: Seq<ToplevelEvent>, surface: SurfaceId, known: bool) -> bool
    decreases events.len(),
{
    if events.len() == 0 {
        known
    } else {
        let before = known_after(events.drop_last(), surface, known);
        match events.last() {
            ToplevelEvent::Closed(gone) => before && gone != surface,
            ToplevelEvent::Created(new) => before || new == surface,
            _ => before,
        }
    }
}

proof fn known_after_both(
    first: Seq<ToplevelEvent>,
    second: Seq<ToplevelEvent>,
    surface: SurfaceId,
    known: bool,
)
    ensures
        known_after(first + second, surface, known) == known_after(
            second,
            surface,
            known_after(first, surface, known),
        ),
    decreases second.len(),
{
    if second.len() > 0 {
        known_after_both(first, second.drop_last(), surface, known);
        assert((first + second).drop_last() =~= first + second.drop_last());
    } else {
        assert(first + second =~= first);
    }
}

proof fn informed_knows(
    circle: Circle,
    manager: ManagerId,
    events: Seq<ToplevelEvent>,
    told: Seq<Told>,
    bound: Seq<OutputProxy>,
)
    requires
        circle.follows(manager),
    ensures
        circle.informed(events, told, bound).managers == circle.managers,
        forall|surface: SurfaceId| #[trigger]
            circle.informed(events, told, bound).knows(manager, surface) <==> known_after(
                events,
                surface,
                circle.knows(manager, surface),
            ),
    decreases events.len(),
{
    if events.len() > 0 {
        let before = circle.informed(events.drop_last(), told, bound);
        let after = circle.informed(events, told, bound);
        informed_knows(circle, manager, events.drop_last(), told, bound);
        let place = choose|i: int|
            0 <= i < circle.managers.len() && (#[trigger] circle.managers[i]).id == manager;
        assert forall|surface: SurfaceId| #[trigger]
            after.knows(manager, surface) <==> known_after(
                events,
                surface,
                circle.knows(manager, surface),
            ) by {
            assert(before.knows(manager, surface) <==> known_after(
                events.drop_last(),
                surface,
                circle.knows(manager, surface),
            ));
            assert(before.knows(manager, surface) == known(before.handles, manager, surface));
            assert(after.knows(manager, surface) == known(after.handles, manager, surface));
            match events.last() {
                ToplevelEvent::Closed(gone) => {
                    known_but_for(before.handles, gone, manager, surface);
                },
                ToplevelEvent::Created(new) => {
                    let entry = toplevel_clients::told_at(told, new);
                    foreign_toplevel::place_is_there(told, new);
                    let news = Seq::new(
                        before.managers.len(),
                        |i: int|
                            toplevel_clients::met(
                                before.managers[i],
                                entry,
                                bound,
                                numbering::number(before.made, i),
                            ),
                    );
                    assert(after.handles =~= before.handles + news);
                    more_known(before.handles, news, manager, surface);
                    assert(news[place].manager == manager && news[place].surface == new);
                    if known(news, manager, surface) {
                        let i = choose|i: int|
                            0 <= i < news.len() && (#[trigger] news[i]).manager == manager
                                && news[i].surface == surface;
                        assert(news[i].surface == new);
                    }
                },
                ToplevelEvent::Changed { .. } => {
                    same_known(before.handles, after.handles, manager, surface);
                },
            }
        }
    }
}

proof fn told_is_place(told: Seq<Told>, surface: SurfaceId)
    ensures
        foreign_toplevel::told_place(told, surface) < told.len() <==> is_told(told, surface),
{
    foreign_toplevel::place_is_there(told, surface);
    let place = foreign_toplevel::told_place(told, surface);
    if place < told.len() {
        assert(told[place as int].surface == surface);
    }
}

proof fn last_told_or_before(told: Seq<Told>, surface: SurfaceId)
    requires
        told.len() > 0,
    ensures
        is_told(told, surface) <==> is_told(told.drop_last(), surface) || told.last().surface
            == surface,
{
    let rest = told.drop_last();
    if is_told(told, surface) {
        let i = choose|i: int| 0 <= i < told.len() && (#[trigger] told[i]).surface == surface;
        if i < rest.len() {
            assert(rest[i].surface == surface);
        }
    }
    if is_told(rest, surface) {
        let i = choose|i: int| 0 <= i < rest.len() && (#[trigger] rest[i]).surface == surface;
        assert(told[i].surface == surface);
    }
    if told.last().surface == surface {
        assert(told[told.len() - 1].surface == surface);
    }
}

proof fn told_with_is_told(told: Seq<Told>, entry: Told, surface: SurfaceId)
    ensures
        is_told(foreign_toplevel::told_with(told, entry), surface) <==> is_told(told, surface)
            || entry.surface == surface,
{
    let after = foreign_toplevel::told_with(told, entry);
    let place = foreign_toplevel::told_place(told, entry.surface) as int;
    foreign_toplevel::place_is_there(told, entry.surface);
    if is_told(told, surface) {
        let i = choose|i: int| 0 <= i < told.len() && (#[trigger] told[i]).surface == surface;
        assert(after[i].surface == surface);
    }
    if entry.surface == surface {
        assert(after[place].surface == surface);
    }
    if is_told(after, surface) {
        let i = choose|i: int| 0 <= i < after.len() && (#[trigger] after[i]).surface == surface;
        if i != place {
            assert(told[i].surface == surface);
        }
    }
}

proof fn still_told(told: Seq<Told>, windows: Seq<SurfaceId>, surface: SurfaceId)
    ensures
        is_told(foreign_toplevel::still_there(told, windows), surface) <==> is_told(told, surface)
            && windows.contains(surface),
        known_after(foreign_toplevel::closings(told, windows), surface, is_told(told, surface))
            == is_told(foreign_toplevel::still_there(told, windows), surface),
{
    closings_close(told, windows, surface, is_told(told, surface));
}

proof fn closings_close(
    told: Seq<Told>,
    windows: Seq<SurfaceId>,
    surface: SurfaceId,
    known: bool,
)
    ensures
        is_told(foreign_toplevel::still_there(told, windows), surface) <==> is_told(told, surface)
            && windows.contains(surface),
        known_after(foreign_toplevel::closings(told, windows), surface, known) == (known && !(
        is_told(told, surface) && !windows.contains(surface))),
    decreases told.len(),
{
    if told.len() > 0 {
        let rest = told.drop_last();
        closings_close(rest, windows, surface, known);
        last_told_or_before(told, surface);
        let kept = foreign_toplevel::still_there(rest, windows);
        let longer = kept.push(told.last());
        assert(longer.drop_last() =~= kept);
        last_told_or_before(longer, surface);
        let earlier = foreign_toplevel::closings(rest, windows);
        assert(earlier.push(ToplevelEvent::Closed(told.last().surface)).drop_last() =~= earlier);
    }
}

proof fn news_create(
    state: State,
    told: Seq<Told>,
    windows: Seq<SurfaceId>,
    facts: Seq<WindowFacts>,
    surface: SurfaceId,
)
    ensures
        known_after(state.news_after(told, windows, facts), surface, is_told(told, surface))
            == is_told(state.told_after(told, windows, facts), surface),
    decreases windows.len(),
{
    if windows.len() > 0 {
        let fewer = windows.drop_last();
        let before = state.told_after(told, fewer, facts);
        let entry = state.told_of(
            windows.last(),
            foreign_toplevel::said_of(facts, windows.last()),
        );
        news_create(state, told, fewer, facts, surface);
        told_is_place(before, entry.surface);
        told_with_is_told(before, entry, surface);
        let news = state.news_after(told, fewer, facts);
        match foreign_toplevel::news_of(before, entry) {
            Some(event) => {
                assert(news.push(event).drop_last() =~= news);
            },
            None => {},
        }
    }
}

/// A manager that knows just the windows that are told of still does after it heard the news.
pub proof fn followers_keep_up(
    circle: Circle,
    manager: ManagerId,
    state: State,
    told: Seq<Told>,
    facts: Seq<WindowFacts>,
    bound: Seq<OutputProxy>,
)
    requires
        circle.caught_up(manager, told),
    ensures
        ({
            let windows = state.shown_windows();
            let kept = foreign_toplevel::still_there(told, windows);
            let after = state.told_after(kept, windows, facts);
            let news = foreign_toplevel::closings(told, windows) + state.news_after(
                kept,
                windows,
                facts,
            );
            circle.informed(news, after, bound).pruned(bound).caught_up(manager, after)
        }),
{
    let windows = state.shown_windows();
    let kept = foreign_toplevel::still_there(told, windows);
    let after = state.told_after(kept, windows, facts);
    let closed = foreign_toplevel::closings(told, windows);
    let fresh = state.news_after(kept, windows, facts);
    let informed = circle.informed(closed + fresh, after, bound);
    let last = informed.pruned(bound);
    informed_knows(circle, manager, closed + fresh, after, bound);
    let place = choose|i: int|
        0 <= i < circle.managers.len() && (#[trigger] circle.managers[i]).id == manager;
    assert(last.managers[place].id == manager);
    assert forall|surface: SurfaceId| #[trigger]
        last.knows(manager, surface) <==> is_told(after, surface) by {
        same_known(last.handles, informed.handles, manager, surface);
        assert(last.knows(manager, surface) == known(last.handles, manager, surface));
        assert(informed.knows(manager, surface) == known(informed.handles, manager, surface));
        assert(circle.knows(manager, surface) == is_told(told, surface));
        still_told(told, windows, surface);
        known_after_both(closed, fresh, surface, is_told(told, surface));
        news_create(state, kept, windows, facts, surface);
    }
}

/// Once a window is gone, nobody knows it.
pub proof fn gone_is_forgotten(
    circle: Circle,
    surface: SurfaceId,
    manager: ManagerId,
    told: Seq<Told>,
    bound: Seq<OutputProxy>,
)
    ensures
        !circle.knowing_of(ToplevelEvent::Closed(surface), told, bound).knows(manager, surface),
{
    let after = circle.knowing_of(ToplevelEvent::Closed(surface), told, bound);
    known_but_for(circle.handles, surface, manager, surface);
    assert(after.knows(manager, surface) == known(after.handles, manager, surface));
}

proof fn stopped_is_gone(managers: Seq<ToplevelFollower>, manager: ManagerId)
    ensures
        forall|i: int|
            0 <= i < toplevel_clients::managers_without(managers, manager).len() ==> (
            #[trigger] toplevel_clients::managers_without(managers, manager)[i]).id != manager,
    decreases managers.len(),
{
    if managers.len() > 0 {
        let before = toplevel_clients::managers_without(managers.drop_last(), manager);
        let after = toplevel_clients::managers_without(managers, manager);
        stopped_is_gone(managers.drop_last(), manager);
        assert forall|i: int| 0 <= i < after.len() implies (#[trigger] after[i]).id != manager by {
            if i < before.len() {
                assert(after[i] == before[i]);
            }
        }
    }
}

proof fn meetings_are_of_managers(
    managers: Seq<ToplevelFollower>,
    manager: ManagerId,
    told: Told,
    bound: Seq<OutputProxy>,
    made: HandleId,
)
    requires
        forall|i: int| 0 <= i < managers.len() ==> (#[trigger] managers[i]).id != manager,
    ensures
        forall|i: int|
            0 <= i < toplevel_clients::meetings(managers, told, bound, made).len() ==> (
            #[trigger] toplevel_clients::meetings(managers, told, bound, made)[i]).to != manager,
    decreases managers.len(),
{
    if managers.len() > 0 {
        let rest = managers.drop_last();
        assert forall|i: int| 0 <= i < rest.len() implies (#[trigger] rest[i]).id != manager by {
            assert(rest[i] == managers[i]);
        }
        meetings_are_of_managers(rest, manager, told, bound, made);
        let before = toplevel_clients::meetings(rest, told, bound, made);
        let after = toplevel_clients::meetings(managers, told, bound, made);
        assert forall|i: int| 0 <= i < after.len() implies (#[trigger] after[i]).to != manager by {
            if i < before.len() {
                assert(after[i] == before[i]);
            } else {
                assert(after[i].to == managers[managers.len() - 1].id);
            }
        }
    }
}

proof fn updates_are_old(
    handles: Seq<Acquaintance>,
    told: Told,
    changes: Changes,
    bound: Seq<OutputProxy>,
)
    ensures
        forall|i: int|
            0 <= i < toplevel_clients::update_messages(handles, told, changes, bound).len() ==> !((
            #[trigger] toplevel_clients::update_messages(handles, told, changes, bound)[i]).notice
                is New),
    decreases handles.len(),
{
    if handles.len() > 0 {
        let handle = handles.last();
        updates_are_old(handles.drop_last(), told, changes, bound);
        let before = toplevel_clients::update_messages(handles.drop_last(), told, changes, bound);
        let after = toplevel_clients::update_messages(handles, told, changes, bound);
        let notices = toplevel_clients::update(
            told,
            changes,
            handle.outputs,
            toplevel_clients::proxies_of(bound, handle.client, told.output),
        );
        assert(forall|i: int| 0 <= i < notices.len() ==> !((#[trigger] notices[i]) is New));
        assert forall|i: int| 0 <= i < after.len() implies !((#[trigger] after[i]).notice is New) by {
            if i < before.len() {
                assert(after[i] == before[i]);
            } else {
                assert(after[i].notice == notices[i - before.len()]);
            }
        }
    }
}

proof fn closings_are_old(handles: Seq<Acquaintance>, surface: SurfaceId)
    ensures
        forall|i: int|
            0 <= i < toplevel_clients::closing_messages(handles, surface).len() ==> !((
            #[trigger] toplevel_clients::closing_messages(handles, surface)[i]).notice is New),
    decreases handles.len(),
{
    if handles.len() > 0 {
        closings_are_old(handles.drop_last(), surface);
        let before = toplevel_clients::closing_messages(handles.drop_last(), surface);
        let after = toplevel_clients::closing_messages(handles, surface);
        assert forall|i: int| 0 <= i < after.len() implies !((#[trigger] after[i]).notice is New) by {
            if i < before.len() {
                assert(after[i] == before[i]);
            }
        }
    }
}

proof fn strangers_meet_nothing(
    circle: Circle,
    manager: ManagerId,
    events: Seq<ToplevelEvent>,
    told: Seq<Told>,
    bound: Seq<OutputProxy>,
)
    requires
        forall|i: int|
            0 <= i < circle.managers.len() ==> (#[trigger] circle.managers[i]).id != manager,
    ensures
        circle.informed(events, told, bound).managers == circle.managers,
        forall|i: int|
            0 <= i < circle.messages(events, told, bound).len() ==> !((
            #[trigger] circle.messages(events, told, bound)[i]).to == manager && circle.messages(
                events,
                told,
                bound,
            )[i].notice is New),
    decreases events.len(),
{
    if events.len() > 0 {
        let fewer = events.drop_last();
        strangers_meet_nothing(circle, manager, fewer, told, bound);
        let informed = circle.informed(fewer, told, bound);
        let before = circle.messages(fewer, told, bound);
        let last = informed.messages_of(events.last(), told, bound);
        let after = circle.messages(events, told, bound);
        match events.last() {
            ToplevelEvent::Closed(surface) => {
                closings_are_old(informed.handles, surface);
            },
            ToplevelEvent::Created(surface) => {
                meetings_are_of_managers(
                    informed.managers,
                    manager,
                    toplevel_clients::told_at(told, surface),
                    bound,
                    informed.made,
                );
            },
            ToplevelEvent::Changed { surface, title, app_id, states, output } => {
                updates_are_old(
                    informed.handles,
                    toplevel_clients::told_at(told, surface),
                    Changes { title, app_id, states, output },
                    bound,
                );
            },
        }
        assert forall|i: int| 0 <= i < after.len() implies !((#[trigger] after[i]).to == manager
            && after[i].notice is New) by {
            if i < before.len() {
                assert(after[i] == before[i]);
            } else {
                assert(after[i] == last[i - before.len()]);
            }
        }
    }
}

/// Once it is done following, a manager meets no new window, whatever is told.
pub proof fn stopped_meets_nothing_new(
    circle: Circle,
    manager: ManagerId,
    events: Seq<ToplevelEvent>,
    told: Seq<Told>,
    bound: Seq<OutputProxy>,
)
    ensures
        ({
            let stopped = Circle {
                managers: toplevel_clients::managers_without(circle.managers, manager),
                ..circle
            };
            forall|i: int|
                0 <= i < stopped.messages(events, told, bound).len() ==> !((
                #[trigger] stopped.messages(events, told, bound)[i]).to == manager
                    && stopped.messages(events, told, bound)[i].notice is New)
        }),
{
    let stopped = Circle {
        managers: toplevel_clients::managers_without(circle.managers, manager),
        ..circle
    };
    stopped_is_gone(circle.managers, manager);
    strangers_meet_nothing(stopped, manager, events, told, bound);
}

proof fn handles_without_are_some(handles: Seq<Acquaintance>, surface: SurfaceId)
    ensures
        forall|i: int|
            0 <= i < toplevel_clients::handles_without(handles, surface).len() ==> {
                let kept = #[trigger] toplevel_clients::handles_without(handles, surface)[i];
                kept.surface != surface && handles.contains(kept)
            },
        forall|i: int, j: int|
            0 <= i < j < toplevel_clients::handles_without(handles, surface).len() && (forall|
                k: int,
                l: int,
            |
                0 <= k < l < handles.len() ==> (#[trigger] handles[k]).id != (
                #[trigger] handles[l]).id) ==> (#[trigger] toplevel_clients::handles_without(
                handles,
                surface,
            )[i]).id != (#[trigger] toplevel_clients::handles_without(handles, surface)[j]).id,
    decreases handles.len(),
{
    if handles.len() > 0 {
        let rest = handles.drop_last();
        handles_without_are_some(rest, surface);
        let before = toplevel_clients::handles_without(rest, surface);
        let after = toplevel_clients::handles_without(handles, surface);
        assert forall|i: int| 0 <= i < after.len() implies (#[trigger] after[i]).surface != surface
            && handles.contains(after[i]) by {
            if i < before.len() {
                assert(after[i] == before[i]);
                let k = choose|k: int| 0 <= k < rest.len() && rest[k] == before[i];
                assert(handles[k] == after[i]);
            } else {
                assert(handles[handles.len() - 1] == after[i]);
            }
        }
        if forall|k: int, l: int|
            0 <= k < l < handles.len() ==> (#[trigger] handles[k]).id != (
            #[trigger] handles[l]).id {
            assert forall|k: int, l: int| 0 <= k < l < rest.len() implies (
            #[trigger] rest[k]).id != (#[trigger] rest[l]).id by {
                assert(handles[k] == rest[k] && handles[l] == rest[l]);
            }
            assert forall|i: int, j: int| 0 <= i < j < after.len() implies (
            #[trigger] after[i]).id != (#[trigger] after[j]).id by {
                assert(after[i] == before[i]);
                if j < before.len() {
                    assert(after[j] == before[j]);
                } else {
                    let k = choose|k: int| 0 <= k < rest.len() && rest[k] == before[i];
                    assert(handles[k] == after[i]);
                    assert(handles[handles.len() - 1] == after[j]);
                }
            }
        }
    }
}

proof fn unknown_is_none(handles: Seq<Acquaintance>, handle: HandleId)
    ensures
        toplevel_clients::known_by(handles, handle) is None <==> (forall|i: int|
            0 <= i < handles.len() ==> (#[trigger] handles[i]).id != handle),
    decreases handles.len(),
{
    if handles.len() > 0 {
        let rest = handles.skip(1);
        unknown_is_none(rest, handle);
        if forall|i: int| 0 <= i < rest.len() ==> (#[trigger] rest[i]).id != handle {
            assert forall|i: int| 0 < i < handles.len() implies (#[trigger] handles[i]).id
                != handle by {
                assert(rest[i - 1] == handles[i]);
            }
        } else {
            let i = choose|i: int| 0 <= i < rest.len() && (#[trigger] rest[i]).id == handle;
            assert(handles[i + 1] == rest[i]);
        }
    }
}

/// A handle stands for one window: that of the manager that has it.
pub proof fn handle_stands_for_its_window(circle: Circle, i: int)
    requires
        circle.numbered(),
        0 <= i < circle.handles.len(),
    ensures
        toplevel_clients::known_by(circle.handles, circle.handles[i].id) == Some(
            circle.handles[i].surface,
        ),
{
    first_is_known(circle.handles, i);
}

proof fn first_is_known(handles: Seq<Acquaintance>, i: int)
    requires
        0 <= i < handles.len(),
        forall|k: int, l: int|
            0 <= k < l < handles.len() ==> (#[trigger] handles[k]).id != (#[trigger] handles[l]).id,
    ensures
        toplevel_clients::known_by(handles, handles[i].id) == Some(handles[i].surface),
    decreases handles.len(),
{
    if i > 0 {
        let rest = handles.skip(1);
        assert forall|k: int, l: int| 0 <= k < l < rest.len() implies (#[trigger] rest[k]).id != (
        #[trigger] rest[l]).id by {
            assert(handles[k + 1] == rest[k] && handles[l + 1] == rest[l]);
        }
        assert(rest[i - 1] == handles[i]);
        assert(handles[0].id != handles[i].id);
        first_is_known(rest, i - 1);
    }
}

proof fn closing_stays_numbered(
    circle: Circle,
    surface: SurfaceId,
    told: Seq<Told>,
    bound: Seq<OutputProxy>,
)
    requires
        circle.numbered(),
    ensures
        circle.knowing_of(ToplevelEvent::Closed(surface), told, bound).numbered(),
{
    let after = circle.knowing_of(ToplevelEvent::Closed(surface), told, bound);
    handles_without_are_some(circle.handles, surface);
    assert forall|i: int| 0 <= i < after.handles.len() implies (#[trigger] after.handles[i]).id
        < after.made by {
        let kept = after.handles[i];
        assert(circle.handles.contains(kept));
        let k = choose|k: int| 0 <= k < circle.handles.len() && circle.handles[k] == kept;
        assert(circle.handles[k].id < circle.made);
    }
}

proof fn meeting_stays_numbered(
    circle: Circle,
    surface: SurfaceId,
    told: Seq<Told>,
    bound: Seq<OutputProxy>,
)
    requires
        circle.numbered(),
        circle.made + circle.managers.len() <= u64::MAX,
    ensures
        circle.knowing_of(ToplevelEvent::Created(surface), told, bound).numbered(),
{
    let after = circle.knowing_of(ToplevelEvent::Created(surface), told, bound);
    let old = circle.handles.len() as int;
    assert forall|i: int| 0 <= i < after.handles.len() implies (#[trigger] after.handles[i]).id
        < after.made by {
        if i < old {
            assert(after.handles[i] == circle.handles[i]);
        } else {
            assert(after.handles[i].id == circle.made + (i - old));
        }
    }
    assert forall|i: int, j: int| 0 <= i < j < after.handles.len() implies (
    #[trigger] after.handles[i]).id != (#[trigger] after.handles[j]).id by {
        if i < old {
            assert(after.handles[i] == circle.handles[i]);
        } else {
            assert(after.handles[i].id == circle.made + (i - old));
        }
        if j < old {
            assert(after.handles[j] == circle.handles[j]);
        } else {
            assert(after.handles[j].id == circle.made + (j - old));
        }
    }
}

proof fn same_numbers_stay(before: Circle, after: Circle)
    requires
        before.numbered(),
        after.made == before.made,
        after.handles.len() == before.handles.len(),
        forall|i: int|
            0 <= i < after.handles.len() ==> (#[trigger] after.handles[i]).id
                == before.handles[i].id,
    ensures
        after.numbered(),
{
    assert forall|i: int, j: int| 0 <= i < j < after.handles.len() implies (
    #[trigger] after.handles[i]).id != (#[trigger] after.handles[j]).id by {
        assert(before.handles[i].id != before.handles[j].id);
    }
}

/// Every handle gets a number of its own, as long as the numbers last.
pub proof fn handles_stay_numbered(
    circle: Circle,
    event: ToplevelEvent,
    told: Seq<Told>,
    bound: Seq<OutputProxy>,
)
    requires
        circle.numbered(),
        circle.made + circle.managers.len() <= u64::MAX,
    ensures
        circle.knowing_of(event, told, bound).numbered(),
        circle.pruned(bound).numbered(),
{
    same_numbers_stay(circle, circle.pruned(bound));
    match event {
        ToplevelEvent::Closed(surface) => closing_stays_numbered(circle, surface, told, bound),
        ToplevelEvent::Created(surface) => meeting_stays_numbered(circle, surface, told, bound),
        ToplevelEvent::Changed { .. } => {
            same_numbers_stay(circle, circle.knowing_of(event, told, bound));
        },
    }
}

/// A manager that begins to follow gets handles with numbers of their own, as long as the numbers
/// last.
pub proof fn newcomer_is_numbered(
    circle: Circle,
    follower: ToplevelFollower,
    told: Seq<Told>,
    bound: Seq<OutputProxy>,
)
    requires
        circle.numbered(),
        circle.made + told.len() <= u64::MAX,
    ensures
        circle.joined(follower, told, bound).numbered(),
{
    let after = circle.joined(follower, told, bound);
    let old = circle.handles.len() as int;
    assert forall|i: int| 0 <= i < after.handles.len() implies (#[trigger] after.handles[i]).id
        < after.made by {
        if i < old {
            assert(after.handles[i] == circle.handles[i]);
        } else {
            assert(after.handles[i].id == circle.made + (i - old));
        }
    }
    assert forall|i: int, j: int| 0 <= i < j < after.handles.len() implies (
    #[trigger] after.handles[i]).id != (#[trigger] after.handles[j]).id by {
        if i < old {
            assert(after.handles[i] == circle.handles[i]);
        } else {
            assert(after.handles[i].id == circle.made + (i - old));
        }
        if j < old {
            assert(after.handles[j] == circle.handles[j]);
        } else {
            assert(after.handles[j].id == circle.made + (j - old));
        }
    }
}

/// A handle that stands for no window any longer never stands for one again, whatever is told, as
/// long as the numbers last.
pub proof fn old_handle_stays_void(
    circle: Circle,
    handle: HandleId,
    events: Seq<ToplevelEvent>,
    told: Seq<Told>,
    bound: Seq<OutputProxy>,
)
    requires
        handle < circle.made,
        toplevel_clients::known_by(circle.handles, handle) is None,
        circle.made + events.len() * circle.managers.len() <= u64::MAX,
    ensures
        toplevel_clients::known_by(circle.informed(events, told, bound).handles, handle) is None,
        circle.informed(events, told, bound).managers == circle.managers,
        circle.made <= circle.informed(events, told, bound).made <= circle.made + events.len()
            * circle.managers.len(),
    decreases events.len(),
{
    if events.len() > 0 {
        let fewer = events.drop_last();
        let count = circle.managers.len() as int;
        assert(events.len() * count == fewer.len() * count + count) by (nonlinear_arith)
            requires
                events.len() == fewer.len() + 1,
        ;
        old_handle_stays_void(circle, handle, fewer, told, bound);
        let before = circle.informed(fewer, told, bound);
        let after = circle.informed(events, told, bound);
        unknown_is_none(before.handles, handle);
        unknown_is_none(after.handles, handle);
        assert forall|i: int| 0 <= i < after.handles.len() implies (#[trigger] after.handles[i]).id
            != handle by {
            match events.last() {
                ToplevelEvent::Closed(surface) => {
                    handles_without_are_some(before.handles, surface);
                    let kept = after.handles[i];
                    assert(before.handles.contains(kept));
                    let k = choose|k: int|
                        0 <= k < before.handles.len() && before.handles[k] == kept;
                    assert(before.handles[k].id != handle);
                },
                ToplevelEvent::Created(surface) => {
                    let old = before.handles.len() as int;
                    if i < old {
                        assert(after.handles[i] == before.handles[i]);
                    } else {
                        assert(after.handles[i].id == before.made + (i - old));
                    }
                },
                ToplevelEvent::Changed { .. } => {
                    assert(before.handles[i].id != handle);
                },
            }
        }
    }
}

/// Once a window is gone, what is asked by a handle on it is ignored, also after the window is told of
/// again.
pub proof fn closed_handle_is_ignored(
    circle: Circle,
    i: int,
    events: Seq<ToplevelEvent>,
    told: Seq<Told>,
    bound: Seq<OutputProxy>,
)
    requires
        circle.numbered(),
        0 <= i < circle.handles.len(),
        circle.made + events.len() * circle.managers.len() <= u64::MAX,
    ensures
        ({
            let closed = circle.knowing_of(
                ToplevelEvent::Closed(circle.handles[i].surface),
                told,
                bound,
            );
            toplevel_clients::known_by(
                closed.informed(events, told, bound).handles,
                circle.handles[i].id,
            ) is None
        }),
{
    let surface = circle.handles[i].surface;
    let handle = circle.handles[i].id;
    let closed = circle.knowing_of(ToplevelEvent::Closed(surface), told, bound);
    handles_without_are_some(circle.handles, surface);
    unknown_is_none(closed.handles, handle);
    assert forall|j: int| 0 <= j < closed.handles.len() implies (#[trigger] closed.handles[j]).id
        != handle by {
        let kept = closed.handles[j];
        assert(circle.handles.contains(kept));
        let k = choose|k: int| 0 <= k < circle.handles.len() && circle.handles[k] == kept;
        assert(k != i);
        assert(circle.handles[k].id != circle.handles[i].id);
    }
    old_handle_stays_void(closed, handle, events, told, bound);
}

} // verus!
