//! What holds of every manager that follows the workspaces.

use crate::protocols::ext_workspace;
use crate::protocols::ext_workspace::{Board, WorkspaceData, WorkspaceEvent};
use crate::protocols::numbering;
use crate::protocols::numbering::HandleId;
use crate::protocols::workspace_clients;
use crate::protocols::workspace_clients::{
    Audience, ClientId, Following, GroupHandle, ManagerId, WorkspaceHandle,
};
use crate::state::raven::{State, WORKSPACE_COUNT};
use crate::state::toplevel::OutputId;
use vstd::prelude::*;

verus! {

impl Audience {
    /// Whether a manager follows the workspaces.
    pub open spec fn follows(self, manager: ManagerId) -> bool {
        exists|i: int|
            0 <= i < self.followers.len() && (#[trigger] self.followers[i]).id == manager
    }

    /// Whether a manager knows the group of an output.
    pub open spec fn knows_group(self, manager: ManagerId, output: OutputId) -> bool {
        exists|i: int|
            0 <= i < self.groups.len() && (#[trigger] self.groups[i]).manager == manager
                && self.groups[i].output == output
    }

    /// Whether a manager knows a workspace.
    pub open spec fn knows_workspace(self, manager: ManagerId, index: usize) -> bool {
        self.workspaces.contains(WorkspaceHandle { manager, index })
    }

    /// Whether no two handles on groups have one number, and the next has none of theirs.
    pub open spec fn numbered(self) -> bool {
        &&& forall|i: int| 0 <= i < self.groups.len() ==> (#[trigger] self.groups[i]).id < self.made
        &&& forall|i: int, j: int|
            0 <= i < j < self.groups.len() ==> (#[trigger] self.groups[i]).id != (
            #[trigger] self.groups[j]).id
    }

    /// Whether a number is that of no handle on a group.
    pub open spec fn is_void(self, handle: HandleId) -> bool {
        forall|i: int| 0 <= i < self.groups.len() ==> (#[trigger] self.groups[i]).id != handle
    }

    /// Whether a manager follows, and knows just the groups and workspaces that there are.
    pub open spec fn caught_up(self, manager: ManagerId, board: Board) -> bool {
        &&& self.follows(manager)
        &&& forall|output: OutputId| #[trigger]
            self.knows_group(manager, output) <==> board.groups.contains(output)
        &&& forall|index: usize| #[trigger]
            self.knows_workspace(manager, index) <==> index < board.workspaces.len()
    }
}

/// Everybody hears of new groups and workspaces and of the end of news; of a group or a workspace,
/// just those who know it; of a workspace in a group, just those who know both.
pub proof fn hearers_know(audience: Audience, event: WorkspaceEvent, manager: ManagerId)
    ensures
        audience.hearers(event).contains(manager) <==> match event {
            WorkspaceEvent::GroupRemoved(output) => audience.knows_group(manager, output),
            WorkspaceEvent::GroupCreated(_) => audience.follows(manager),
            WorkspaceEvent::Created(_) => audience.follows(manager),
            WorkspaceEvent::Leave(index, output) => audience.knows_group(manager, output)
                && audience.knows_workspace(manager, index),
            WorkspaceEvent::Enter(index, output) => audience.knows_group(manager, output)
                && audience.knows_workspace(manager, index),
            WorkspaceEvent::State(index, _) => audience.knows_workspace(manager, index),
            WorkspaceEvent::Done => audience.follows(manager),
        },
{
    match event {
        WorkspaceEvent::GroupRemoved(output) => {
            holders_of_group(audience.groups, output, manager);
        },
        WorkspaceEvent::Leave(index, output) => {
            holders_of_group(audience.groups, output, manager);
            those_who_know(
                workspace_clients::group_holders(audience.groups, output),
                audience.workspaces,
                index,
                manager,
            );
        },
        WorkspaceEvent::Enter(index, output) => {
            holders_of_group(audience.groups, output, manager);
            those_who_know(
                workspace_clients::group_holders(audience.groups, output),
                audience.workspaces,
                index,
                manager,
            );
        },
        WorkspaceEvent::State(index, _) => {
            holders_of_workspace(audience.workspaces, index, manager);
        },
        _ => {
            ids_are_followers(audience, manager);
        },
    }
}

proof fn ids_are_followers(audience: Audience, manager: ManagerId)
    ensures
        workspace_clients::follower_ids(audience.followers).contains(manager) <==> audience.follows(
            manager,
        ),
{
    let ids = workspace_clients::follower_ids(audience.followers);
    if audience.follows(manager) {
        let i = choose|i: int|
            0 <= i < audience.followers.len() && (#[trigger] audience.followers[i]).id == manager;
        assert(ids[i] == manager);
    }
    if ids.contains(manager) {
        let i = choose|i: int| 0 <= i < ids.len() && ids[i] == manager;
        assert(audience.followers[i].id == manager);
    }
}

proof fn pushed_contains<A>(list: Seq<A>, last: A, item: A)
    ensures
        list.push(last).contains(item) <==> list.contains(item) || last == item,
{
    let longer = list.push(last);
    if list.contains(item) {
        let i = choose|i: int| 0 <= i < list.len() && list[i] == item;
        assert(longer[i] == item);
    }
    if last == item {
        assert(longer[list.len() as int] == item);
    }
}

proof fn last_or_before<A>(list: Seq<A>, item: A)
    requires
        list.len() > 0,
    ensures
        list.contains(item) <==> list.drop_last().contains(item) || list.last() == item,
{
    assert(list.drop_last().push(list.last()) =~= list);
    pushed_contains(list.drop_last(), list.last(), item);
}

spec fn group_known(groups: Seq<GroupHandle>, manager: ManagerId, output: OutputId) -> bool {
    exists|i: int|
        0 <= i < groups.len() && (#[trigger] groups[i]).manager == manager && groups[i].output
            == output
}

proof fn last_group_or_before(groups: Seq<GroupHandle>, manager: ManagerId, output: OutputId)
    requires
        groups.len() > 0,
    ensures
        group_known(groups, manager, output) <==> group_known(groups.drop_last(), manager, output)
            || (groups.last().manager == manager && groups.last().output == output),
{
    let before = groups.drop_last();
    if group_known(groups, manager, output) {
        let i = choose|i: int|
            0 <= i < groups.len() && (#[trigger] groups[i]).manager == manager && groups[i].output
                == output;
        if i < before.len() {
            assert(before[i].manager == manager);
        }
    }
    if group_known(before, manager, output) {
        let i = choose|i: int|
            0 <= i < before.len() && (#[trigger] before[i]).manager == manager && before[i].output
                == output;
        assert(groups[i].manager == manager);
    }
    if groups.last().manager == manager && groups.last().output == output {
        assert(groups[groups.len() - 1].manager == manager);
    }
}

proof fn holders_of_group(groups: Seq<GroupHandle>, output: OutputId, manager: ManagerId)
    ensures
        workspace_clients::group_holders(groups, output).contains(manager) <==> group_known(
            groups,
            manager,
            output,
        ),
    decreases groups.len(),
{
    if groups.len() > 0 {
        holders_of_group(groups.drop_last(), output, manager);
        last_group_or_before(groups, manager, output);
        pushed_contains(
            workspace_clients::group_holders(groups.drop_last(), output),
            groups.last().manager,
            manager,
        );
    }
}

proof fn holders_of_workspace(workspaces: Seq<WorkspaceHandle>, index: usize, manager: ManagerId)
    ensures
        workspace_clients::workspace_holders(workspaces, index).contains(manager)
            <==> workspaces.contains(WorkspaceHandle { manager, index }),
    decreases workspaces.len(),
{
    if workspaces.len() > 0 {
        holders_of_workspace(workspaces.drop_last(), index, manager);
        last_or_before(workspaces, WorkspaceHandle { manager, index });
        pushed_contains(
            workspace_clients::workspace_holders(workspaces.drop_last(), index),
            workspaces.last().manager,
            manager,
        );
    }
}

proof fn those_who_know(
    list: Seq<ManagerId>,
    workspaces: Seq<WorkspaceHandle>,
    index: usize,
    manager: ManagerId,
)
    ensures
        workspace_clients::knowing(list, workspaces, index).contains(manager) <==> list.contains(
            manager,
        ) && workspaces.contains(WorkspaceHandle { manager, index }),
    decreases list.len(),
{
    if list.len() > 0 {
        those_who_know(list.drop_last(), workspaces, index, manager);
        last_or_before(list, manager);
        pushed_contains(
            workspace_clients::knowing(list.drop_last(), workspaces, index),
            list.last(),
            manager,
        );
    }
}

proof fn groups_left(
    groups: Seq<GroupHandle>,
    dropped: Option<OutputId>,
    leaving: Option<ManagerId>,
    manager: ManagerId,
    output: OutputId,
)
    ensures
        group_known(
            workspace_clients::groups_without(groups, dropped, leaving),
            manager,
            output,
        ) <==> group_known(groups, manager, output) && !((dropped is None || dropped == Some(
            output,
        )) && (leaving is None || leaving == Some(manager))),
    decreases groups.len(),
{
    if groups.len() > 0 {
        groups_left(groups.drop_last(), dropped, leaving, manager, output);
        last_group_or_before(groups, manager, output);
        let before = workspace_clients::groups_without(groups.drop_last(), dropped, leaving);
        let after = workspace_clients::groups_without(groups, dropped, leaving);
        if after.len() > 0 && after == before.push(groups.last()) {
            assert(after.drop_last() =~= before);
            last_group_or_before(after, manager, output);
        }
    }
}

proof fn workspaces_left(
    workspaces: Seq<WorkspaceHandle>,
    dropped: Option<usize>,
    leaving: ManagerId,
    handle: WorkspaceHandle,
)
    ensures
        workspace_clients::workspaces_without(workspaces, dropped, leaving).contains(handle)
            <==> workspaces.contains(handle) && !(handle.manager == leaving && (dropped is None
            || dropped == Some(handle.index))),
    decreases workspaces.len(),
{
    if workspaces.len() > 0 {
        workspaces_left(workspaces.drop_last(), dropped, leaving, handle);
        last_or_before(workspaces, handle);
        pushed_contains(
            workspace_clients::workspaces_without(workspaces.drop_last(), dropped, leaving),
            workspaces.last(),
            handle,
        );
    }
}

proof fn followers_left(followers: Seq<Following>, leaving: ManagerId)
    ensures
        forall|i: int|
            0 <= i < workspace_clients::followers_without(followers, leaving).len() ==> (
            #[trigger] workspace_clients::followers_without(followers, leaving)[i]).id != leaving,
    decreases followers.len(),
{
    if followers.len() > 0 {
        let before = workspace_clients::followers_without(followers.drop_last(), leaving);
        let after = workspace_clients::followers_without(followers, leaving);
        followers_left(followers.drop_last(), leaving);
        assert forall|i: int| 0 <= i < after.len() implies (#[trigger] after[i]).id != leaving by {
            if i < before.len() {
                assert(after[i] == before[i]);
            }
        }
    }
}

proof fn more_groups_known(
    groups: Seq<GroupHandle>,
    more: Seq<GroupHandle>,
    manager: ManagerId,
    output: OutputId,
)
    ensures
        group_known(groups + more, manager, output) <==> group_known(groups, manager, output)
            || group_known(more, manager, output),
{
    let both = groups + more;
    if group_known(both, manager, output) {
        let i = choose|i: int|
            0 <= i < both.len() && (#[trigger] both[i]).manager == manager && both[i].output
                == output;
        if i < groups.len() {
            assert(groups[i].manager == manager);
        } else {
            assert(more[i - groups.len()].manager == manager);
        }
    }
    if group_known(groups, manager, output) {
        let i = choose|i: int|
            0 <= i < groups.len() && (#[trigger] groups[i]).manager == manager && groups[i].output
                == output;
        assert(both[i].manager == manager);
    }
    if group_known(more, manager, output) {
        let i = choose|i: int|
            0 <= i < more.len() && (#[trigger] more[i]).manager == manager && more[i].output
                == output;
        assert(both[groups.len() + i].manager == manager);
    }
}

proof fn more_contains<A>(list: Seq<A>, more: Seq<A>, item: A)
    ensures
        (list + more).contains(item) <==> list.contains(item) || more.contains(item),
{
    let both = list + more;
    if both.contains(item) {
        let i = choose|i: int| 0 <= i < both.len() && both[i] == item;
        if i < list.len() {
            assert(list[i] == item);
        } else {
            assert(more[i - list.len()] == item);
        }
    }
    if list.contains(item) {
        let i = choose|i: int| 0 <= i < list.len() && list[i] == item;
        assert(both[i] == item);
    }
    if more.contains(item) {
        let i = choose|i: int| 0 <= i < more.len() && more[i] == item;
        assert(both[list.len() + i] == item);
    }
}

/// Once it is done following, a manager hears nothing more, whatever is told.
pub proof fn stopped_hears_nothing(
    audience: Audience,
    manager: ManagerId,
    events: Seq<WorkspaceEvent>,
)
    ensures
        audience.left(manager).is_stranger(manager),
        forall|i: int|
            0 <= i < audience.left(manager).messages(events).len() ==> (
            #[trigger] audience.left(manager).messages(events)[i]).to != manager,
{
    let left = audience.left(manager);
    followers_left(audience.followers, manager);
    assert forall|i: int| 0 <= i < left.groups.len() implies (
    #[trigger] left.groups[i]).manager != manager by {
        groups_left(audience.groups, None, Some(manager), manager, left.groups[i].output);
    }
    assert forall|i: int| 0 <= i < left.workspaces.len() implies (
    #[trigger] left.workspaces[i]).manager != manager by {
        workspaces_left(audience.workspaces, None, manager, left.workspaces[i]);
        assert(left.workspaces.contains(left.workspaces[i]));
    }
    stranger_hears_nothing(left, manager, events);
}

proof fn stranger_hears_nothing(
    audience: Audience,
    manager: ManagerId,
    events: Seq<WorkspaceEvent>,
)
    requires
        audience.is_stranger(manager),
    ensures
        audience.informed(events).is_stranger(manager),
        forall|i: int|
            0 <= i < audience.messages(events).len() ==> (
            #[trigger] audience.messages(events)[i]).to != manager,
    decreases events.len(),
{
    if events.len() > 0 {
        let event = events.last();
        let before = audience.informed(events.drop_last());
        let after = audience.informed(events);
        stranger_hears_nothing(audience, manager, events.drop_last());
        hearers_know(before, event, manager);
        let heard = before.hearers(event);
        let earlier = audience.messages(events.drop_last());
        let messages = audience.messages(events);
        assert forall|i: int| 0 <= i < messages.len() implies (#[trigger] messages[i]).to
            != manager by {
            if i < earlier.len() {
                assert(messages[i] == earlier[i]);
            } else {
                assert(messages[i].to == heard[i - earlier.len()]);
                assert(heard.contains(heard[i - earlier.len()]));
            }
        }
        assert forall|i: int| 0 <= i < after.groups.len() implies (
        #[trigger] after.groups[i]).manager != manager by {
            match event {
                WorkspaceEvent::GroupRemoved(output) => {
                    groups_left(
                        before.groups,
                        Some(output),
                        None,
                        manager,
                        after.groups[i].output,
                    );
                },
                WorkspaceEvent::GroupCreated(output) => {
                    if i < before.groups.len() {
                        assert(after.groups[i] == before.groups[i]);
                    } else {
                        assert(after.groups[i].manager == before.followers[i
                            - before.groups.len()].id);
                    }
                },
                _ => {},
            }
        }
        assert forall|i: int| 0 <= i < after.workspaces.len() implies (
        #[trigger] after.workspaces[i]).manager != manager by {
            if i < before.workspaces.len() {
                assert(after.workspaces[i] == before.workspaces[i]);
            } else {
                assert(after.workspaces[i].manager == before.followers[i
                    - before.workspaces.len()].id);
            }
        }
    }
}

/// What was asked for by a manager is done once: after a commit nothing waits, and asking again
/// waits for the next commit.
pub proof fn committed_once(audience: Audience, manager: ManagerId, state: State)
    ensures
        audience.committed(manager).queue_of(manager).len() == 0,
        state.activations_done(audience.committed(manager).queue_of(manager)) == state,
        audience.committed(manager).committed(manager) == audience.committed(manager),
        forall|index: usize|
            audience.follows(manager) && #[trigger] audience.knows_workspace(manager, index)
                ==> audience.committed(manager).asked(manager, index).queue_of(manager) == seq![
                index,
            ],
{
    let after = audience.committed(manager);
    place_is_follower(audience, manager);
    let place = workspace_clients::follower_place(audience.followers, manager);
    if place < audience.followers.len() {
        let emptied = Following { queue: seq![], ..audience.followers[place as int] };
        same_place(audience.followers, manager, emptied);
        assert(after.committed(manager).followers =~= after.followers);
        assert forall|index: usize|
            audience.follows(manager) && #[trigger] audience.knows_workspace(
                manager,
                index,
            ) implies after.asked(manager, index).queue_of(manager) == seq![index] by {
            let asking = Following { queue: seq![index], ..emptied };
            same_place(after.followers, manager, asking);
            assert(after.followers[place as int] == emptied);
            assert(emptied.queue.push(index) =~= seq![index]);
        }
    }
}

proof fn place_is_follower(audience: Audience, manager: ManagerId)
    ensures
        workspace_clients::follower_place(audience.followers, manager) < audience.followers.len()
            <==> audience.follows(manager),
        workspace_clients::follower_place(audience.followers, manager) < audience.followers.len()
            ==> audience.followers[workspace_clients::follower_place(
            audience.followers,
            manager,
        ) as int].id == manager,
    decreases audience.followers.len(),
{
    let followers = audience.followers;
    if followers.len() > 0 && followers[0].id != manager {
        let rest = Audience { followers: followers.skip(1), ..audience };
        place_is_follower(rest, manager);
        if audience.follows(manager) {
            let i = choose|i: int|
                0 <= i < followers.len() && (#[trigger] followers[i]).id == manager;
            assert(rest.followers[i - 1].id == manager);
        }
        if rest.follows(manager) {
            let i = choose|i: int|
                0 <= i < rest.followers.len() && (#[trigger] rest.followers[i]).id == manager;
            assert(followers[i + 1].id == manager);
        }
    }
}

proof fn same_place(followers: Seq<Following>, manager: ManagerId, new: Following)
    requires
        workspace_clients::follower_place(followers, manager) < followers.len(),
        new.id == manager,
    ensures
        ({
            let place = workspace_clients::follower_place(followers, manager);
            workspace_clients::follower_place(followers.update(place as int, new), manager) == place
        }),
    decreases followers.len(),
{
    let place = workspace_clients::follower_place(followers, manager);
    let after = followers.update(place as int, new);
    if followers[0].id != manager {
        same_place(followers.skip(1), manager, new);
        assert(after.skip(1) =~= followers.skip(1).update(place - 1, new));
    }
}

/// A manager that begins to follow knows just the groups and workspaces that there are.
pub proof fn newcomer_catches_up(
    audience: Audience,
    manager: ManagerId,
    client: ClientId,
    board: Board,
)
    requires
        audience.is_stranger(manager),
        board.settled(),
    ensures
        audience.joined(manager, client, board).caught_up(manager, board),
{
    let after = audience.joined(manager, client, board);
    let others = workspace_clients::followers_without(audience.followers, manager);
    assert(after.followers[others.len() as int].id == manager);
    let news = Seq::new(
        board.groups.len(),
        |i: int|
            GroupHandle {
                id: numbering::number(audience.made, i),
                manager,
                client,
                output: board.groups[i],
            },
    );
    assert forall|output: OutputId| #[trigger]
        after.knows_group(manager, output) <==> board.groups.contains(output) by {
        more_groups_known(audience.groups, news, manager, output);
        assert(after.groups =~= audience.groups + news);
        assert(after.knows_group(manager, output) == group_known(after.groups, manager, output));
        if board.groups.contains(output) {
            let i = choose|i: int| 0 <= i < board.groups.len() && board.groups[i] == output;
            assert(news[i].manager == manager && news[i].output == output);
        }
        if group_known(news, manager, output) {
            let i = choose|i: int|
                0 <= i < news.len() && (#[trigger] news[i]).manager == manager && news[i].output
                    == output;
            assert(board.groups[i] == output);
        }
    }
    let known = Seq::new(
        board.workspaces.len(),
        |i: int| WorkspaceHandle { manager, index: i as usize },
    );
    assert forall|index: usize| #[trigger]
        after.knows_workspace(manager, index) <==> index < board.workspaces.len() by {
        let handle = WorkspaceHandle { manager, index };
        more_contains(audience.workspaces, known, handle);
        if index < board.workspaces.len() {
            assert(known[index as int] == handle);
        }
        if known.contains(handle) {
            let i = choose|i: int| 0 <= i < known.len() && known[i] == handle;
            assert(i as usize == index);
        }
    }
}

spec fn group_known_after(events: Seq<WorkspaceEvent>, output: OutputId, known: bool) -> bool
    decreases events.len(),
{
    if events.len() == 0 {
        known
    } else {
        let before = group_known_after(events.drop_last(), output, known);
        match events.last() {
            WorkspaceEvent::GroupRemoved(gone) => before && gone != output,
            WorkspaceEvent::GroupCreated(new) => before || new == output,
            _ => before,
        }
    }
}

spec fn workspace_known_after(events: Seq<WorkspaceEvent>, index: usize, known: bool) -> bool
    decreases events.len(),
{
    if events.len() == 0 {
        known
    } else {
        workspace_known_after(events.drop_last(), index, known) || events.last()
            == WorkspaceEvent::Created(index)
    }
}

proof fn informed_knows(audience: Audience, manager: ManagerId, events: Seq<WorkspaceEvent>)
    requires
        audience.follows(manager),
    ensures
        audience.informed(events).followers == audience.followers,
        forall|output: OutputId| #[trigger]
            audience.informed(events).knows_group(manager, output) <==> group_known_after(
                events,
                output,
                audience.knows_group(manager, output),
            ),
        forall|index: usize| #[trigger]
            audience.informed(events).knows_workspace(manager, index) <==> workspace_known_after(
                events,
                index,
                audience.knows_workspace(manager, index),
            ),
    decreases events.len(),
{
    if events.len() > 0 {
        let event = events.last();
        let before = audience.informed(events.drop_last());
        let after = audience.informed(events);
        informed_knows(audience, manager, events.drop_last());
        let place = choose|i: int|
            0 <= i < audience.followers.len() && (#[trigger] audience.followers[i]).id == manager;
        assert forall|output: OutputId| #[trigger]
            after.knows_group(manager, output) <==> group_known_after(
                events,
                output,
                audience.knows_group(manager, output),
            ) by {
            assert(before.knows_group(manager, output) <==> group_known_after(
                events.drop_last(),
                output,
                audience.knows_group(manager, output),
            ));
            match event {
                WorkspaceEvent::GroupRemoved(gone) => {
                    groups_left(before.groups, Some(gone), None, manager, output);
                },
                WorkspaceEvent::GroupCreated(new) => {
                    let news = workspace_clients::group_handles(
                        before.followers,
                        new,
                        before.made,
                    );
                    more_groups_known(before.groups, news, manager, output);
                    assert(news[place].manager == manager && news[place].output == new);
                    assert(after.groups =~= before.groups + news);
                    assert(after.knows_group(manager, output) == group_known(
                        after.groups,
                        manager,
                        output,
                    ));
                    if group_known(news, manager, output) {
                        let i = choose|i: int|
                            0 <= i < news.len() && (#[trigger] news[i]).manager == manager
                                && news[i].output == output;
                        assert(news[i].output == new);
                    }
                },
                _ => {},
            }
        }
        assert forall|index: usize| #[trigger]
            after.knows_workspace(manager, index) <==> workspace_known_after(
                events,
                index,
                audience.knows_workspace(manager, index),
            ) by {
            assert(before.knows_workspace(manager, index) <==> workspace_known_after(
                events.drop_last(),
                index,
                audience.knows_workspace(manager, index),
            ));
            if event is Created {
                let new = event->Created_0;
                let ids = workspace_clients::follower_ids(before.followers);
                let news = workspace_clients::workspace_handles(ids, new);
                let handle = WorkspaceHandle { manager, index };
                more_contains(before.workspaces, news, handle);
                assert(news[place] == (WorkspaceHandle { manager, index: new }));
                if news.contains(handle) {
                    let i = choose|i: int| 0 <= i < news.len() && news[i] == handle;
                    assert(news[i].index == new);
                }
            }
        }
    }
}

proof fn known_after_both(
    first: Seq<WorkspaceEvent>,
    second: Seq<WorkspaceEvent>,
    output: OutputId,
    index: usize,
    group: bool,
    workspace: bool,
)
    ensures
        group_known_after(first + second, output, group) == group_known_after(
            second,
            output,
            group_known_after(first, output, group),
        ),
        workspace_known_after(first + second, index, workspace) == workspace_known_after(
            second,
            index,
            workspace_known_after(first, index, workspace),
        ),
    decreases second.len(),
{
    if second.len() > 0 {
        known_after_both(first, second.drop_last(), output, index, group, workspace);
        assert((first + second).drop_last() =~= first + second.drop_last());
    } else {
        assert(first + second =~= first);
    }
}

proof fn kept_contains(groups: Seq<OutputId>, outputs: Seq<OutputId>, output: OutputId)
    ensures
        ext_workspace::groups_kept(groups, outputs).contains(output) <==> groups.contains(output)
            && outputs.contains(output),
    decreases groups.len(),
{
    if groups.len() > 0 {
        kept_contains(groups.drop_last(), outputs, output);
        last_or_before(groups, output);
        pushed_contains(
            ext_workspace::groups_kept(groups.drop_last(), outputs),
            groups.last(),
            output,
        );
    }
}

proof fn known_after_removals(
    groups: Seq<OutputId>,
    outputs: Seq<OutputId>,
    output: OutputId,
    index: usize,
    group: bool,
    workspace: bool,
)
    ensures
        group_known_after(ext_workspace::group_removals(groups, outputs), output, group) == (group
            && !(groups.contains(output) && !outputs.contains(output))),
        workspace_known_after(ext_workspace::group_removals(groups, outputs), index, workspace)
            == workspace,
    decreases groups.len(),
{
    if groups.len() > 0 {
        let before = ext_workspace::group_removals(groups.drop_last(), outputs);
        known_after_removals(groups.drop_last(), outputs, output, index, group, workspace);
        last_or_before(groups, output);
        assert(before.push(WorkspaceEvent::GroupRemoved(groups.last())).drop_last() =~= before);
    }
}

proof fn known_after_creations(
    groups: Seq<OutputId>,
    outputs: Seq<OutputId>,
    output: OutputId,
    index: usize,
    group: bool,
    workspace: bool,
)
    ensures
        groups.contains(output) ==> ext_workspace::groups_with(groups, outputs).contains(output),
        group_known_after(ext_workspace::group_creations(groups, outputs), output, group) == (group
            || (ext_workspace::groups_with(groups, outputs).contains(output) && !groups.contains(
            output,
        ))),
        workspace_known_after(ext_workspace::group_creations(groups, outputs), index, workspace)
            == workspace,
    decreases outputs.len(),
{
    if outputs.len() > 0 {
        let fewer = outputs.drop_last();
        let before = ext_workspace::group_creations(groups, fewer);
        known_after_creations(groups, fewer, output, index, group, workspace);
        pushed_contains(ext_workspace::groups_with(groups, fewer), outputs.last(), output);
        assert(before.push(WorkspaceEvent::GroupCreated(outputs.last())).drop_last() =~= before);
    }
}

proof fn known_after_news(
    groups: Seq<OutputId>,
    old: Option<WorkspaceData>,
    at: usize,
    new: WorkspaceData,
    output: OutputId,
    index: usize,
    group: bool,
    workspace: bool,
)
    ensures
        group_known_after(ext_workspace::workspace_news(groups, old, at, new), output, group)
            == group,
        workspace_known_after(ext_workspace::workspace_news(groups, old, at, new), index, workspace)
            == (workspace || (old is None && at == index)),
{
    let news = ext_workspace::workspace_news(groups, old, at, new);
    assert(news.len() <= 3);
    reveal_with_fuel(group_known_after, 4);
    reveal_with_fuel(workspace_known_after, 4);
    if old is None {
        assert(news[0] == WorkspaceEvent::Created(at));
        if news.len() == 2 {
            assert(news.drop_last()[0] == WorkspaceEvent::Created(at));
        }
    }
    assert(forall|i: int|
        0 <= i < news.len() ==> !((#[trigger] news[i]) is GroupRemoved || news[i] is GroupCreated
            || (old is Some && news[i] is Created)));
}

proof fn known_after_workspaces(
    state: State,
    groups: Seq<OutputId>,
    old: Seq<WorkspaceData>,
    count: nat,
    output: OutputId,
    index: usize,
    group: bool,
    workspace: bool,
)
    requires
        count <= WORKSPACE_COUNT,
    ensures
        group_known_after(state.workspaces_news(groups, old, count), output, group) == group,
        workspace_known_after(state.workspaces_news(groups, old, count), index, workspace) == (
        workspace || old.len() <= index < count),
    decreases count,
{
    if count > 0 {
        let fewer = (count - 1) as nat;
        let known = if count <= old.len() {
            Some(old[count - 1])
        } else {
            None
        };
        let before = state.workspaces_news(groups, old, fewer);
        let last = ext_workspace::workspace_news(
            groups,
            known,
            fewer as usize,
            state.workspace_data(count - 1),
        );
        known_after_workspaces(state, groups, old, fewer, output, index, group, workspace);
        known_after_both(before, last, output, index, group, workspace);
        known_after_news(
            groups,
            known,
            fewer as usize,
            state.workspace_data(count - 1),
            output,
            index,
            group,
            workspace || old.len() <= index < fewer,
        );
    }
}

proof fn known_after_board_news(
    state: State,
    board: Board,
    output: OutputId,
    index: usize,
)
    requires
        board.settled(),
    ensures
        group_known_after(state.board_news(board), output, board.groups.contains(output))
            == state.board(board).groups.contains(output),
        workspace_known_after(state.board_news(board), index, index < board.workspaces.len()) == (
        index < state.board(board).workspaces.len()),
{
    let outputs = ext_workspace::output_ids(state.outputs);
    let group = board.groups.contains(output);
    let workspace = index < board.workspaces.len();
    let kept = ext_workspace::groups_kept(board.groups, outputs);
    let removals = ext_workspace::group_removals(board.groups, outputs);
    let creations = ext_workspace::group_creations(kept, outputs);
    let rest = state.workspaces_news(
        state.board(board).groups,
        board.workspaces,
        WORKSPACE_COUNT as nat,
    );
    let news = removals + creations + rest;
    kept_contains(board.groups, outputs, output);
    known_after_removals(board.groups, outputs, output, index, group, workspace);
    known_after_creations(kept, outputs, output, index, kept.contains(output), workspace);
    known_after_both(removals, creations, output, index, group, workspace);
    known_after_workspaces(
        state,
        state.board(board).groups,
        board.workspaces,
        WORKSPACE_COUNT as nat,
        output,
        index,
        state.board(board).groups.contains(output),
        workspace,
    );
    known_after_both(removals + creations, rest, output, index, group, workspace);
    assert(news.push(WorkspaceEvent::Done).drop_last() =~= news);
}

/// A manager that knows just the groups and workspaces that there are still does after it heard
/// the news.
pub proof fn followers_keep_up(audience: Audience, manager: ManagerId, state: State, board: Board)
    requires
        board.settled(),
        audience.caught_up(manager, board),
    ensures
        audience.informed(state.board_news(board)).caught_up(manager, state.board(board)),
{
    let news = state.board_news(board);
    let after = audience.informed(news);
    informed_knows(audience, manager, news);
    assert(after.follows(manager));
    assert forall|output: OutputId| #[trigger]
        after.knows_group(manager, output) <==> state.board(board).groups.contains(output) by {
        assert(audience.knows_group(manager, output) <==> board.groups.contains(output));
        known_after_board_news(state, board, output, 0);
    }
    assert forall|index: usize| #[trigger]
        after.knows_workspace(manager, index) <==> index < state.board(
        board,
    ).workspaces.len() by {
        assert(audience.knows_workspace(manager, index) <==> index < board.workspaces.len());
        known_after_board_news(state, board, 0, index);
    }
}

proof fn groups_without_are_some(groups: Seq<GroupHandle>, output: OutputId)
    ensures
        forall|i: int|
            0 <= i < workspace_clients::groups_without(groups, Some(output), None).len() ==> {
                let kept = #[trigger] workspace_clients::groups_without(
                    groups,
                    Some(output),
                    None,
                )[i];
                kept.output != output && groups.contains(kept)
            },
        (forall|k: int, l: int|
            0 <= k < l < groups.len() ==> (#[trigger] groups[k]).id != (#[trigger] groups[l]).id)
            ==> (forall|i: int, j: int|
            0 <= i < j < workspace_clients::groups_without(groups, Some(output), None).len() ==> (
            #[trigger] workspace_clients::groups_without(groups, Some(output), None)[i]).id != (
            #[trigger] workspace_clients::groups_without(groups, Some(output), None)[j]).id),
    decreases groups.len(),
{
    if groups.len() > 0 {
        let rest = groups.drop_last();
        groups_without_are_some(rest, output);
        let before = workspace_clients::groups_without(rest, Some(output), None);
        let after = workspace_clients::groups_without(groups, Some(output), None);
        assert forall|i: int| 0 <= i < after.len() implies (#[trigger] after[i]).output != output
            && groups.contains(after[i]) by {
            if i < before.len() {
                assert(after[i] == before[i]);
                let k = choose|k: int| 0 <= k < rest.len() && rest[k] == before[i];
                assert(groups[k] == after[i]);
            } else {
                assert(groups[groups.len() - 1] == after[i]);
            }
        }
        if forall|k: int, l: int|
            0 <= k < l < groups.len() ==> (#[trigger] groups[k]).id != (#[trigger] groups[l]).id {
            assert forall|k: int, l: int| 0 <= k < l < rest.len() implies (
            #[trigger] rest[k]).id != (#[trigger] rest[l]).id by {
                assert(groups[k] == rest[k] && groups[l] == rest[l]);
            }
            assert forall|i: int, j: int| 0 <= i < j < after.len() implies (
            #[trigger] after[i]).id != (#[trigger] after[j]).id by {
                assert(after[i] == before[i]);
                if j < before.len() {
                    assert(after[j] == before[j]);
                } else {
                    let k = choose|k: int| 0 <= k < rest.len() && rest[k] == before[i];
                    assert(groups[k] == after[i]);
                    assert(groups[groups.len() - 1] == after[j]);
                }
            }
        }
    }
}

proof fn removing_stays_numbered(audience: Audience, output: OutputId)
    requires
        audience.numbered(),
    ensures
        audience.knowing_of(WorkspaceEvent::GroupRemoved(output)).numbered(),
{
    let after = audience.knowing_of(WorkspaceEvent::GroupRemoved(output));
    groups_without_are_some(audience.groups, output);
    assert forall|i: int| 0 <= i < after.groups.len() implies (#[trigger] after.groups[i]).id
        < after.made by {
        let kept = after.groups[i];
        assert(audience.groups.contains(kept));
        let k = choose|k: int| 0 <= k < audience.groups.len() && audience.groups[k] == kept;
        assert(audience.groups[k].id < audience.made);
    }
}

proof fn creating_stays_numbered(audience: Audience, output: OutputId)
    requires
        audience.numbered(),
        audience.made + audience.followers.len() <= u64::MAX,
    ensures
        audience.knowing_of(WorkspaceEvent::GroupCreated(output)).numbered(),
{
    let after = audience.knowing_of(WorkspaceEvent::GroupCreated(output));
    let old = audience.groups.len() as int;
    assert forall|i: int| 0 <= i < after.groups.len() implies (#[trigger] after.groups[i]).id
        < after.made by {
        if i < old {
            assert(after.groups[i] == audience.groups[i]);
        } else {
            assert(after.groups[i].id == audience.made + (i - old));
        }
    }
    assert forall|i: int, j: int| 0 <= i < j < after.groups.len() implies (
    #[trigger] after.groups[i]).id != (#[trigger] after.groups[j]).id by {
        if i < old {
            assert(after.groups[i] == audience.groups[i]);
        } else {
            assert(after.groups[i].id == audience.made + (i - old));
        }
        if j < old {
            assert(after.groups[j] == audience.groups[j]);
        } else {
            assert(after.groups[j].id == audience.made + (j - old));
        }
    }
}

/// Every handle on a group gets a number of its own, as long as the numbers last.
pub proof fn groups_stay_numbered(audience: Audience, event: WorkspaceEvent)
    requires
        audience.numbered(),
        audience.made + audience.followers.len() <= u64::MAX,
    ensures
        audience.knowing_of(event).numbered(),
{
    match event {
        WorkspaceEvent::GroupRemoved(output) => removing_stays_numbered(audience, output),
        WorkspaceEvent::GroupCreated(output) => creating_stays_numbered(audience, output),
        _ => {},
    }
}

/// A manager that begins to follow gets handles on the groups with numbers of their own, as long as
/// the numbers last.
pub proof fn newcomer_is_numbered(
    audience: Audience,
    manager: ManagerId,
    client: ClientId,
    board: Board,
)
    requires
        audience.numbered(),
        audience.made + board.groups.len() <= u64::MAX,
    ensures
        audience.joined(manager, client, board).numbered(),
{
    let after = audience.joined(manager, client, board);
    let old = audience.groups.len() as int;
    assert forall|i: int| 0 <= i < after.groups.len() implies (#[trigger] after.groups[i]).id
        < after.made by {
        if i < old {
            assert(after.groups[i] == audience.groups[i]);
        } else {
            assert(after.groups[i].id == audience.made + (i - old));
        }
    }
    assert forall|i: int, j: int| 0 <= i < j < after.groups.len() implies (
    #[trigger] after.groups[i]).id != (#[trigger] after.groups[j]).id by {
        if i < old {
            assert(after.groups[i] == audience.groups[i]);
        } else {
            assert(after.groups[i].id == audience.made + (i - old));
        }
        if j < old {
            assert(after.groups[j] == audience.groups[j]);
        } else {
            assert(after.groups[j].id == audience.made + (j - old));
        }
    }
}

/// A number that no handle on a group has any longer is never given again, whatever is told, as long
/// as the numbers last.
pub proof fn old_group_stays_void(
    audience: Audience,
    handle: HandleId,
    events: Seq<WorkspaceEvent>,
)
    requires
        handle < audience.made,
        audience.is_void(handle),
        audience.made + events.len() * audience.followers.len() <= u64::MAX,
    ensures
        audience.informed(events).is_void(handle),
        audience.informed(events).followers == audience.followers,
        audience.made <= audience.informed(events).made <= audience.made + events.len()
            * audience.followers.len(),
    decreases events.len(),
{
    if events.len() > 0 {
        let fewer = events.drop_last();
        let count = audience.followers.len() as int;
        assert(events.len() * count == fewer.len() * count + count) by (nonlinear_arith)
            requires
                events.len() == fewer.len() + 1,
        ;
        old_group_stays_void(audience, handle, fewer);
        let before = audience.informed(fewer);
        let after = audience.informed(events);
        assert forall|i: int| 0 <= i < after.groups.len() implies (#[trigger] after.groups[i]).id
            != handle by {
            match events.last() {
                WorkspaceEvent::GroupRemoved(output) => {
                    groups_without_are_some(before.groups, output);
                    let kept = after.groups[i];
                    assert(before.groups.contains(kept));
                    let k = choose|k: int|
                        0 <= k < before.groups.len() && before.groups[k] == kept;
                    assert(before.groups[k].id != handle);
                },
                WorkspaceEvent::GroupCreated(output) => {
                    let old = before.groups.len() as int;
                    if i < old {
                        assert(after.groups[i] == before.groups[i]);
                    } else {
                        assert(after.groups[i].id == before.made + (i - old));
                    }
                },
                _ => {
                    assert(before.groups[i].id != handle);
                },
            }
        }
    }
}

proof fn void_changes_nothing(groups: Seq<GroupHandle>, handle: HandleId)
    requires
        forall|i: int| 0 <= i < groups.len() ==> (#[trigger] groups[i]).id != handle,
    ensures
        workspace_clients::groups_forgotten(groups, handle) == groups,
    decreases groups.len(),
{
    if groups.len() > 0 {
        let rest = groups.drop_last();
        assert forall|i: int| 0 <= i < rest.len() implies (#[trigger] rest[i]).id != handle by {
            assert(groups[i] == rest[i]);
        }
        void_changes_nothing(rest, handle);
        assert(groups[groups.len() - 1].id != handle);
        assert(rest.push(groups.last()) =~= groups);
    }
}

/// Once a group is gone, giving up a handle on it changes nothing, also after its output has a group
/// again.
pub proof fn removed_group_is_ignored(audience: Audience, i: int, events: Seq<WorkspaceEvent>)
    requires
        audience.numbered(),
        0 <= i < audience.groups.len(),
        audience.made + events.len() * audience.followers.len() <= u64::MAX,
    ensures
        ({
            let removed = audience.knowing_of(
                WorkspaceEvent::GroupRemoved(audience.groups[i].output),
            );
            let later = removed.informed(events).groups;
            workspace_clients::groups_forgotten(later, audience.groups[i].id) == later
        }),
{
    let handle = audience.groups[i].id;
    let removed = audience.knowing_of(WorkspaceEvent::GroupRemoved(audience.groups[i].output));
    groups_without_are_some(audience.groups, audience.groups[i].output);
    assert forall|j: int| 0 <= j < removed.groups.len() implies (#[trigger] removed.groups[j]).id
        != handle by {
        let kept = removed.groups[j];
        assert(audience.groups.contains(kept));
        let k = choose|k: int| 0 <= k < audience.groups.len() && audience.groups[k] == kept;
        assert(k != i);
        assert(audience.groups[k].id != audience.groups[i].id);
    }
    old_group_stays_void(removed, handle, events);
    void_changes_nothing(removed.informed(events).groups, handle);
}

} // verus!
