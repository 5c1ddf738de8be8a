//! The programs that follow the workspaces: who is told what, and what they ask for.

use crate::protocols::ext_workspace::{
    ActivationQueue, Board, ExtWorkspaceManagerState, WorkspaceData, WorkspaceEvent,
};
use crate::protocols::numbering;
use crate::protocols::numbering::HandleId;
use crate::state::raven::Raven;
use crate::state::toplevel::OutputId;
use vstd::prelude::*;

verus! {

/// The number of a manager: that by which a program follows the workspaces.
pub type ManagerId = u64;

/// The number of a program that is connected. One program may have several managers.
pub type ClientId = u64;

/// A manager, and the workspaces that were asked for by it so far.
#[derive(Debug)]
pub struct Follower {
    pub id: ManagerId,
    pub client: ClientId,
    pub queue: ActivationQueue,
}

/// That a manager knows the group of an output.
#[derive(Clone, Copy, Debug, PartialEq, Eq, Structural)]
pub struct GroupHandle {
    pub id: HandleId,
    pub manager: ManagerId,
    pub client: ClientId,
    pub output: OutputId,
}

/// That a manager knows a workspace.
#[derive(Clone, Copy, Debug, PartialEq, Eq, Structural)]
pub struct WorkspaceHandle {
    pub manager: ManagerId,
    pub index: usize,
}

/// What one manager is told, and by which handle it knows the group where that is a new one.
#[derive(Clone, Copy, Debug, PartialEq, Eq, Structural)]
pub struct WorkspaceMessage {
    pub to: ManagerId,
    pub event: WorkspaceEvent,
    pub group: Option<HandleId>,
}

/// Which managers are told that an output is in its group, and which that this was all.
#[derive(Debug)]
pub struct OutputBound {
    pub entered: Vec<ManagerId>,
    pub done: Vec<ManagerId>,
}

/// The managers that there are, and what they know.
#[derive(Debug)]
pub struct WorkspaceClients {
    pub followers: Vec<Follower>,
    pub groups: Vec<GroupHandle>,
    pub workspaces: Vec<WorkspaceHandle>,
    /// The number of the next handle on a group.
    pub made: HandleId,
}

/// A `Follower` as plain values.
pub struct Following {
    pub id: ManagerId,
    pub client: ClientId,
    pub queue: Seq<usize>,
}

impl View for Follower {
    type V = Following;

    open spec fn view(&self) -> Following {
        Following { id: self.id, client: self.client, queue: self.queue.indices@ }
    }
}

/// Followers as plain values.
pub open spec fn followings(followers: Seq<Follower>) -> Seq<Following> {
    Seq::new(followers.len(), |i: int| followers[i]@)
}

/// A `WorkspaceClients` as plain values.
#[verifier::ext_equal]
pub struct Audience {
    pub followers: Seq<Following>,
    pub groups: Seq<GroupHandle>,
    pub workspaces: Seq<WorkspaceHandle>,
    pub made: HandleId,
}

impl View for WorkspaceClients {
    type V = Audience;

    open spec fn view(&self) -> Audience {
        Audience {
            followers: followings(self.followers@),
            groups: self.groups@,
            workspaces: self.workspaces@,
            made: self.made,
        }
    }
}

/// The numbers of followers.
pub open spec fn follower_ids(followers: Seq<Following>) -> Seq<ManagerId> {
    Seq::new(followers.len(), |i: int| followers[i].id)
}

/// The place of a follower; past the end, where it is not there.
pub open spec fn follower_place(followers: Seq<Following>, id: ManagerId) -> nat
    decreases followers.len(),
{
    if followers.len() == 0 || followers[0].id == id {
        0
    } else {
        1 + follower_place(followers.skip(1), id)
    }
}

/// The followers but for one.
pub open spec fn followers_without(followers: Seq<Following>, id: ManagerId) -> Seq<Following>
    decreases followers.len(),
{
    if followers.len() == 0 {
        followers
    } else if followers.last().id == id {
        followers_without(followers.drop_last(), id)
    } else {
        followers_without(followers.drop_last(), id).push(followers.last())
    }
}

/// Who knows the group of an output.
pub open spec fn group_holders(groups: Seq<GroupHandle>, output: OutputId) -> Seq<ManagerId>
    decreases groups.len(),
{
    if groups.len() == 0 {
        Seq::<ManagerId>::empty()
    } else if groups.last().output == output {
        group_holders(groups.drop_last(), output).push(groups.last().manager)
    } else {
        group_holders(groups.drop_last(), output)
    }
}

/// Which managers of a program know the group of an output.
pub open spec fn client_group_holders(
    groups: Seq<GroupHandle>,
    client: ClientId,
    output: OutputId,
) -> Seq<ManagerId>
    decreases groups.len(),
{
    if groups.len() == 0 {
        Seq::<ManagerId>::empty()
    } else if groups.last().output == output && groups.last().client == client {
        client_group_holders(groups.drop_last(), client, output).push(groups.last().manager)
    } else {
        client_group_holders(groups.drop_last(), client, output)
    }
}

/// The managers of a program.
pub open spec fn client_followers(followers: Seq<Following>, client: ClientId) -> Seq<ManagerId>
    decreases followers.len(),
{
    if followers.len() == 0 {
        Seq::<ManagerId>::empty()
    } else if followers.last().client == client {
        client_followers(followers.drop_last(), client).push(followers.last().id)
    } else {
        client_followers(followers.drop_last(), client)
    }
}

/// Who knows a workspace.
pub open spec fn workspace_holders(workspaces: Seq<WorkspaceHandle>, index: usize) -> Seq<ManagerId>
    decreases workspaces.len(),
{
    if workspaces.len() == 0 {
        Seq::<ManagerId>::empty()
    } else if workspaces.last().index == index {
        workspace_holders(workspaces.drop_last(), index).push(workspaces.last().manager)
    } else {
        workspace_holders(workspaces.drop_last(), index)
    }
}

/// Those of `list` that know a workspace.
pub open spec fn knowing(list: Seq<ManagerId>, workspaces: Seq<WorkspaceHandle>, index: usize) -> Seq<
    ManagerId,
>
    decreases list.len(),
{
    if list.len() == 0 {
        list
    } else {
        let before = knowing(list.drop_last(), workspaces, index);
        if workspaces.contains(WorkspaceHandle { manager: list.last(), index }) {
            before.push(list.last())
        } else {
            before
        }
    }
}

/// What is known of groups, but for one output, or one manager.
pub open spec fn groups_without(
    groups: Seq<GroupHandle>,
    output: Option<OutputId>,
    manager: Option<ManagerId>,
) -> Seq<GroupHandle>
    decreases groups.len(),
{
    if groups.len() == 0 {
        groups
    } else {
        let before = groups_without(groups.drop_last(), output, manager);
        if (output is None || output == Some(groups.last().output)) && (manager is None || manager
            == Some(groups.last().manager)) {
            before
        } else {
            before.push(groups.last())
        }
    }
}

/// What is known of groups, but for what is known by one handle.
pub open spec fn groups_forgotten(groups: Seq<GroupHandle>, handle: HandleId) -> Seq<GroupHandle>
    decreases groups.len(),
{
    if groups.len() == 0 {
        groups
    } else if groups.last().id == handle {
        groups_forgotten(groups.drop_last(), handle)
    } else {
        groups_forgotten(groups.drop_last(), handle).push(groups.last())
    }
}

/// What is known of workspaces, but for what one manager knows of one, or of all.
pub open spec fn workspaces_without(
    workspaces: Seq<WorkspaceHandle>,
    index: Option<usize>,
    manager: ManagerId,
) -> Seq<WorkspaceHandle>
    decreases workspaces.len(),
{
    if workspaces.len() == 0 {
        workspaces
    } else {
        let before = workspaces_without(workspaces.drop_last(), index, manager);
        if workspaces.last().manager == manager && (index is None || index == Some(
            workspaces.last().index,
        )) {
            before
        } else {
            before.push(workspaces.last())
        }
    }
}

/// The handle that an event makes after `count` others, where it tells of a new group.
pub open spec fn handle_for(event: WorkspaceEvent, made: HandleId, count: int) -> Option<HandleId> {
    match event {
        WorkspaceEvent::GroupCreated(_) => Some(numbering::number(made, count)),
        _ => None,
    }
}

/// An event for each of these managers.
pub open spec fn told_to(list: Seq<ManagerId>, event: WorkspaceEvent, made: HandleId) -> Seq<
    WorkspaceMessage,
> {
    Seq::new(
        list.len(),
        |i: int| WorkspaceMessage { to: list[i], event, group: handle_for(event, made, i) },
    )
}

/// That these followers know the group of an output.
pub open spec fn group_handles(
    followers: Seq<Following>,
    output: OutputId,
    made: HandleId,
) -> Seq<GroupHandle> {
    Seq::new(
        followers.len(),
        |i: int|
            GroupHandle {
                id: numbering::number(made, i),
                manager: followers[i].id,
                client: followers[i].client,
                output,
            },
    )
}

/// That these managers know a workspace.
pub open spec fn workspace_handles(list: Seq<ManagerId>, index: usize) -> Seq<WorkspaceHandle> {
    Seq::new(list.len(), |i: int| WorkspaceHandle { manager: list[i], index })
}

/// The workspaces of an output among the first `count`.
pub open spec fn workspaces_on(workspaces: Seq<WorkspaceData>, output: OutputId, count: nat) -> Seq<
    usize,
>
    decreases count,
{
    if count == 0 || count > workspaces.len() {
        Seq::<usize>::empty()
    } else {
        let before = workspaces_on(workspaces, output, (count - 1) as nat);
        if workspaces[count - 1].output == Some(output) {
            before.push((count - 1) as usize)
        } else {
            before
        }
    }
}

/// That these workspaces are in the group of an output.
pub open spec fn entered(manager: ManagerId, indices: Seq<usize>, output: OutputId) -> Seq<
    WorkspaceMessage,
> {
    Seq::new(
        indices.len(),
        |i: int|
            WorkspaceMessage {
                to: manager,
                event: WorkspaceEvent::Enter(indices[i], output),
                group: None,
            },
    )
}

/// That the workspaces are in the groups that they are in.
pub open spec fn all_entered(
    manager: ManagerId,
    groups: Seq<OutputId>,
    workspaces: Seq<WorkspaceData>,
) -> Seq<WorkspaceMessage>
    decreases groups.len(),
{
    if groups.len() == 0 {
        Seq::<WorkspaceMessage>::empty()
    } else {
        all_entered(manager, groups.drop_last(), workspaces) + entered(
            manager,
            workspaces_on(workspaces, groups.last(), workspaces.len()),
            groups.last(),
        )
    }
}

/// What a manager is told when it begins to follow: the groups, the workspaces, which are where, and
/// that this was all.
pub open spec fn introduction(manager: ManagerId, board: Board, made: HandleId) -> Seq<
    WorkspaceMessage,
> {
    (Seq::new(
        board.groups.len(),
        |i: int|
            WorkspaceMessage {
                to: manager,
                event: WorkspaceEvent::GroupCreated(board.groups[i]),
                group: Some(numbering::number(made, i)),
            },
    ) + Seq::new(
        board.workspaces.len(),
        |i: int|
            WorkspaceMessage {
                to: manager,
                event: WorkspaceEvent::Created(i as usize),
                group: None,
            },
    ) + all_entered(manager, board.groups, board.workspaces)).push(
        WorkspaceMessage { to: manager, event: WorkspaceEvent::Done, group: None },
    )
}

impl Audience {
    /// Who is told of an event: of a new group or workspace and of the end of news everybody, of the
    /// rest those who know what it is about.
    pub open spec fn hearers(self, event: WorkspaceEvent) -> Seq<ManagerId> {
        match event {
            WorkspaceEvent::GroupRemoved(output) => group_holders(self.groups, output),
            WorkspaceEvent::GroupCreated(_) => follower_ids(self.followers),
            WorkspaceEvent::Created(_) => follower_ids(self.followers),
            WorkspaceEvent::Leave(index, output) => knowing(
                group_holders(self.groups, output),
                self.workspaces,
                index,
            ),
            WorkspaceEvent::Enter(index, output) => knowing(
                group_holders(self.groups, output),
                self.workspaces,
                index,
            ),
            WorkspaceEvent::State(index, _) => workspace_holders(self.workspaces, index),
            WorkspaceEvent::Done => follower_ids(self.followers),
        }
    }

    /// What is known after an event was told.
    pub open spec fn knowing_of(self, event: WorkspaceEvent) -> Audience {
        match event {
            WorkspaceEvent::GroupRemoved(output) => Audience {
                groups: groups_without(self.groups, Some(output), None),
                ..self
            },
            WorkspaceEvent::GroupCreated(output) => Audience {
                groups: self.groups + group_handles(self.followers, output, self.made),
                made: numbering::number(self.made, self.followers.len() as int),
                ..self
            },
            WorkspaceEvent::Created(index) => Audience {
                workspaces: self.workspaces + workspace_handles(
                    follower_ids(self.followers),
                    index,
                ),
                ..self
            },
            _ => self,
        }
    }

    /// What is known after these events were told.
    pub open spec fn informed(self, events: Seq<WorkspaceEvent>) -> Audience
        decreases events.len(),
    {
        if events.len() == 0 {
            self
        } else {
            self.informed(events.drop_last()).knowing_of(events.last())
        }
    }

    /// What is told of these events, and to whom.
    pub open spec fn messages(self, events: Seq<WorkspaceEvent>) -> Seq<WorkspaceMessage>
        decreases events.len(),
    {
        if events.len() == 0 {
            Seq::<WorkspaceMessage>::empty()
        } else {
            self.messages(events.drop_last()) + told_to(
                self.informed(events.drop_last()).hearers(events.last()),
                events.last(),
                self.informed(events.drop_last()).made,
            )
        }
    }

    /// What is known after a manager begins to follow.
    pub open spec fn joined(self, manager: ManagerId, client: ClientId, board: Board) -> Audience {
        Audience {
            followers: followers_without(self.followers, manager).push(
                Following { id: manager, client, queue: seq![] },
            ),
            groups: self.groups + Seq::new(
                board.groups.len(),
                |i: int|
                    GroupHandle {
                        id: numbering::number(self.made, i),
                        manager,
                        client,
                        output: board.groups[i],
                    },
            ),
            made: numbering::number(self.made, board.groups.len() as int),
            workspaces: self.workspaces + Seq::new(
                board.workspaces.len(),
                |i: int| WorkspaceHandle { manager, index: i as usize },
            ),
        }
    }

    /// The managers of a program that know the group of an output: they are told of it once the
    /// program knows the output.
    pub open spec fn output_hearers(self, client: ClientId, output: OutputId) -> Seq<ManagerId> {
        client_group_holders(self.groups, client, output)
    }

    /// The managers of a program that are told that this was all.
    pub open spec fn output_done(self, client: ClientId, output: OutputId) -> Seq<ManagerId> {
        if self.output_hearers(client, output).len() > 0 {
            client_followers(self.followers, client)
        } else {
            Seq::<ManagerId>::empty()
        }
    }

    /// What is known after a manager is done following.
    pub open spec fn left(self, manager: ManagerId) -> Audience {
        Audience {
            followers: followers_without(self.followers, manager),
            groups: groups_without(self.groups, None, Some(manager)),
            workspaces: workspaces_without(self.workspaces, None, manager),
            ..self
        }
    }

    /// The audience after a workspace that a manager knows is asked for by it.
    pub open spec fn asked(self, manager: ManagerId, index: usize) -> Audience {
        let place = follower_place(self.followers, manager);
        if place < self.followers.len() && self.workspaces.contains(
            WorkspaceHandle { manager, index },
        ) {
            let follower = self.followers[place as int];
            Audience {
                followers: self.followers.update(
                    place as int,
                    Following { queue: follower.queue.push(index), ..follower },
                ),
                ..self
            }
        } else {
            self
        }
    }

    /// What was asked for by a manager and not committed yet.
    pub open spec fn queue_of(self, manager: ManagerId) -> Seq<usize> {
        let place = follower_place(self.followers, manager);
        if place < self.followers.len() {
            self.followers[place as int].queue
        } else {
            Seq::<usize>::empty()
        }
    }

    /// The audience after what was asked for by a manager is committed.
    pub open spec fn committed(self, manager: ManagerId) -> Audience {
        let place = follower_place(self.followers, manager);
        if place < self.followers.len() {
            Audience {
                followers: self.followers.update(
                    place as int,
                    Following { queue: seq![], ..self.followers[place as int] },
                ),
                ..self
            }
        } else {
            self
        }
    }

    /// Whether a manager neither follows nor knows anything.
    pub open spec fn is_stranger(self, manager: ManagerId) -> bool {
        &&& forall|i: int|
            0 <= i < self.followers.len() ==> (#[trigger] self.followers[i]).id != manager
        &&& forall|i: int|
            0 <= i < self.groups.len() ==> (#[trigger] self.groups[i]).manager != manager
        &&& forall|i: int|
            0 <= i < self.workspaces.len() ==> (#[trigger] self.workspaces[i]).manager != manager
    }
}

fn tell(
    messages: &mut Vec<WorkspaceMessage>,
    list: &Vec<ManagerId>,
    event: WorkspaceEvent,
    made: HandleId,
)
    ensures
        final(messages)@ == old(messages)@ + told_to(list@, event, made),
{
    let ghost before = messages@;
    let mut index: usize = 0;
    let mut next: HandleId = made;
    while index < list.len()
        invariant
            index <= list.len(),
            next == numbering::number(made, index as int),
            messages@ =~= before + told_to(list@.take(index as int), event, made),
        decreases list.len() - index,
    {
        let group = match event {
            WorkspaceEvent::GroupCreated(_) => Some(next),
            _ => None,
        };
        messages.push(WorkspaceMessage { to: list[index], event, group });
        next = next.wrapping_add(1);
        index = index + 1;
    }
    assert(list@.take(list@.len() as int) =~= list@);
}

impl WorkspaceClients {
    /// Nobody follows.
    pub fn new() -> (clients: WorkspaceClients)
        ensures
            clients@ == (Audience {
                followers: seq![],
                groups: seq![],
                workspaces: seq![],
                made: 0,
            }),
    {
        let clients = WorkspaceClients {
            followers: Vec::new(),
            groups: Vec::new(),
            workspaces: Vec::new(),
            made: 0,
        };
        assert(clients@.followers =~= seq![]);
        clients
    }

    fn ids(&self) -> (ids: Vec<ManagerId>)
        ensures
            ids@ == follower_ids(self@.followers),
    {
        let mut ids: Vec<ManagerId> = Vec::new();
        let mut index: usize = 0;
        while index < self.followers.len()
            invariant
                index <= self.followers.len(),
                ids@ =~= follower_ids(self@.followers).take(index as int),
            decreases self.followers.len() - index,
        {
            ids.push(self.followers[index].id);
            index = index + 1;
        }
        assert(ids@ =~= follower_ids(self@.followers));
        ids
    }

    fn holders_of_group(&self, output: OutputId) -> (list: Vec<ManagerId>)
        ensures
            list@ == group_holders(self@.groups, output),
    {
        let mut list: Vec<ManagerId> = Vec::new();
        let mut index: usize = 0;
        assert(self.groups@.take(0) =~= seq![]);
        while index < self.groups.len()
            invariant
                index <= self.groups.len(),
                list@ == group_holders(self.groups@.take(index as int), output),
            decreases self.groups.len() - index,
        {
            assert(self.groups@.take(index + 1).drop_last() =~= self.groups@.take(index as int));
            if self.groups[index].output == output {
                list.push(self.groups[index].manager);
            }
            index = index + 1;
        }
        assert(self.groups@.take(self.groups@.len() as int) =~= self.groups@);
        list
    }

    fn holders_of_workspace(&self, workspace: usize) -> (list: Vec<ManagerId>)
        ensures
            list@ == workspace_holders(self@.workspaces, workspace),
    {
        let mut list: Vec<ManagerId> = Vec::new();
        let mut index: usize = 0;
        assert(self.workspaces@.take(0) =~= seq![]);
        while index < self.workspaces.len()
            invariant
                index <= self.workspaces.len(),
                list@ == workspace_holders(self.workspaces@.take(index as int), workspace),
            decreases self.workspaces.len() - index,
        {
            assert(self.workspaces@.take(index + 1).drop_last() =~= self.workspaces@.take(
                index as int,
            ));
            if self.workspaces[index].index == workspace {
                list.push(self.workspaces[index].manager);
            }
            index = index + 1;
        }
        assert(self.workspaces@.take(self.workspaces@.len() as int) =~= self.workspaces@);
        list
    }

    fn knows(&self, manager: ManagerId, workspace: usize) -> (result: bool)
        ensures
            result == self@.workspaces.contains(WorkspaceHandle { manager, index: workspace }),
    {
        let handle = WorkspaceHandle { manager, index: workspace };
        let mut index: usize = 0;
        while index < self.workspaces.len()
            invariant
                index <= self.workspaces.len(),
                handle == (WorkspaceHandle { manager, index: workspace }),
                forall|i: int| 0 <= i < index ==> self.workspaces@[i] != handle,
            decreases self.workspaces.len() - index,
        {
            if self.workspaces[index] == handle {
                assert(self.workspaces@.contains(self.workspaces@[index as int]));
                return true;
            }
            index = index + 1;
        }
        false
    }

    fn who_knows(&self, list: &Vec<ManagerId>, workspace: usize) -> (kept: Vec<ManagerId>)
        ensures
            kept@ == knowing(list@, self@.workspaces, workspace),
    {
        let mut kept: Vec<ManagerId> = Vec::new();
        let mut index: usize = 0;
        assert(list@.take(0) =~= seq![]);
        while index < list.len()
            invariant
                index <= list.len(),
                kept@ == knowing(list@.take(index as int), self@.workspaces, workspace),
            decreases list.len() - index,
        {
            assert(list@.take(index + 1).drop_last() =~= list@.take(index as int));
            if self.knows(list[index], workspace) {
                kept.push(list[index]);
            }
            index = index + 1;
        }
        assert(list@.take(list@.len() as int) =~= list@);
        kept
    }

    fn who_hears(&self, event: WorkspaceEvent) -> (list: Vec<ManagerId>)
        ensures
            list@ == self@.hearers(event),
    {
        match event {
            WorkspaceEvent::GroupRemoved(output) => self.holders_of_group(output),
            WorkspaceEvent::GroupCreated(_) => self.ids(),
            WorkspaceEvent::Created(_) => self.ids(),
            WorkspaceEvent::Leave(index, output) => {
                let list = self.holders_of_group(output);
                self.who_knows(&list, index)
            },
            WorkspaceEvent::Enter(index, output) => {
                let list = self.holders_of_group(output);
                self.who_knows(&list, index)
            },
            WorkspaceEvent::State(index, _) => self.holders_of_workspace(index),
            WorkspaceEvent::Done => self.ids(),
        }
    }

    fn forget_groups(&mut self, output: Option<OutputId>, manager: Option<ManagerId>)
        ensures
            final(self)@ == (Audience {
                groups: groups_without(old(self)@.groups, output, manager),
                ..old(self)@
            }),
    {
        let ghost all = self.groups@;
        let mut kept: Vec<GroupHandle> = Vec::new();
        let mut index: usize = 0;
        assert(all.take(0) =~= seq![]);
        while index < self.groups.len()
            invariant
                index <= self.groups.len(),
                all == self.groups@,
                self@ == old(self)@,
                kept@ == groups_without(all.take(index as int), output, manager),
            decreases self.groups.len() - index,
        {
            assert(all.take(index + 1).drop_last() =~= all.take(index as int));
            let handle = self.groups[index];
            let of_output = match output {
                Some(output) => output == handle.output,
                None => true,
            };
            let of_manager = match manager {
                Some(manager) => manager == handle.manager,
                None => true,
            };
            if !(of_output && of_manager) {
                kept.push(handle);
            }
            index = index + 1;
        }
        assert(all.take(all.len() as int) =~= all);
        self.groups = kept;
    }

    fn forget_workspaces(&mut self, workspace: Option<usize>, manager: ManagerId)
        ensures
            final(self)@ == (Audience {
                workspaces: workspaces_without(old(self)@.workspaces, workspace, manager),
                ..old(self)@
            }),
    {
        let ghost all = self.workspaces@;
        let mut kept: Vec<WorkspaceHandle> = Vec::new();
        let mut index: usize = 0;
        assert(all.take(0) =~= seq![]);
        while index < self.workspaces.len()
            invariant
                index <= self.workspaces.len(),
                all == self.workspaces@,
                self@ == old(self)@,
                kept@ == workspaces_without(all.take(index as int), workspace, manager),
            decreases self.workspaces.len() - index,
        {
            assert(all.take(index + 1).drop_last() =~= all.take(index as int));
            let handle = self.workspaces[index];
            let meant = match workspace {
                Some(workspace) => workspace == handle.index,
                None => true,
            };
            if !(handle.manager == manager && meant) {
                kept.push(handle);
            }
            index = index + 1;
        }
        assert(all.take(all.len() as int) =~= all);
        self.workspaces = kept;
    }

    fn know_group(&mut self, output: OutputId)
        ensures
            final(self)@ == (Audience {
                groups: old(self)@.groups + group_handles(
                    old(self)@.followers,
                    output,
                    old(self).made,
                ),
                made: numbering::number(old(self).made, old(self)@.followers.len() as int),
                ..old(self)@
            }),
    {
        let ghost all = self@.followers;
        let mut index: usize = 0;
        while index < self.followers.len()
            invariant
                index <= self.followers.len(),
                all == old(self)@.followers,
                self@.followers == all,
                self@.workspaces == old(self)@.workspaces,
                self.made == numbering::number(old(self).made, index as int),
                self@.groups =~= old(self)@.groups + group_handles(
                    all.take(index as int),
                    output,
                    old(self).made,
                ),
            decreases self.followers.len() - index,
        {
            let manager = self.followers[index].id;
            let client = self.followers[index].client;
            assert(all[index as int].id == manager);
            self.groups.push(GroupHandle { id: self.made, manager, client, output });
            self.made = self.made.wrapping_add(1);
            index = index + 1;
        }
        assert(all.take(all.len() as int) =~= all);
    }

    fn know_workspace(&mut self, list: &Vec<ManagerId>, workspace: usize)
        ensures
            final(self)@ == (Audience {
                workspaces: old(self)@.workspaces + workspace_handles(list@, workspace),
                ..old(self)@
            }),
    {
        let mut index: usize = 0;
        while index < list.len()
            invariant
                index <= list.len(),
                self@.followers == old(self)@.followers,
                self@.groups == old(self)@.groups,
                self.made == old(self).made,
                self@.workspaces =~= old(self)@.workspaces + workspace_handles(
                    list@.take(index as int),
                    workspace,
                ),
            decreases list.len() - index,
        {
            self.workspaces.push(WorkspaceHandle { manager: list[index], index: workspace });
            index = index + 1;
        }
        assert(list@.take(list@.len() as int) =~= list@);
    }

    /// Takes in what other programs are to be told, and says who is told what, in order.
    pub fn deliver(&mut self, events: &Vec<WorkspaceEvent>) -> (messages: Vec<WorkspaceMessage>)
        ensures
            final(self)@ == old(self)@.informed(events@),
            messages@ == old(self)@.messages(events@),
    {
        let ghost before = self@;
        let mut messages: Vec<WorkspaceMessage> = Vec::new();
        let mut index: usize = 0;
        assert(events@.take(0) =~= seq![]);
        while index < events.len()
            invariant
                index <= events.len(),
                self@ == before.informed(events@.take(index as int)),
                messages@ == before.messages(events@.take(index as int)),
            decreases events.len() - index,
        {
            assert(events@.take(index + 1).drop_last() =~= events@.take(index as int));
            let event = events[index];
            let list = self.who_hears(event);
            tell(&mut messages, &list, event, self.made);
            match event {
                WorkspaceEvent::GroupRemoved(output) => self.forget_groups(Some(output), None),
                WorkspaceEvent::GroupCreated(output) => self.know_group(output),
                WorkspaceEvent::Created(workspace) => self.know_workspace(&list, workspace),
                _ => {},
            }
            index = index + 1;
        }
        assert(events@.take(events@.len() as int) =~= events@);
        messages
    }

    /// A manager of a program begins to follow; `state` is what the others were told. Says what it
    /// is told.
    pub fn bind(
        &mut self,
        manager: ManagerId,
        client: ClientId,
        state: &ExtWorkspaceManagerState,
    ) -> (messages: Vec<WorkspaceMessage>)
        ensures
            final(self)@ == old(self)@.joined(manager, client, state@),
            messages@ == introduction(manager, state@, old(self).made),
    {
        let ghost board = state@;
        let ghost group_news = Seq::new(
            board.groups.len(),
            |i: int|
                WorkspaceMessage {
                    to: manager,
                    event: WorkspaceEvent::GroupCreated(board.groups[i]),
                    group: Some(numbering::number(old(self).made, i)),
                },
        );
        let ghost workspace_news = Seq::new(
            board.workspaces.len(),
            |i: int|
                WorkspaceMessage {
                    to: manager,
                    event: WorkspaceEvent::Created(i as usize),
                    group: None,
                },
        );
        let ghost joined = old(self)@.joined(manager, client, board);
        let mut messages: Vec<WorkspaceMessage> = Vec::new();
        let mut at: usize = 0;
        while at < state.groups.len()
            invariant
                at <= state.groups.len(),
                board == state@,
                group_news == Seq::new(
                    board.groups.len(),
                    |i: int|
                        WorkspaceMessage {
                            to: manager,
                            event: WorkspaceEvent::GroupCreated(board.groups[i]),
                            group: Some(numbering::number(old(self).made, i)),
                        },
                ),
                self@.followers == old(self)@.followers,
                self@.workspaces == old(self)@.workspaces,
                self.made == numbering::number(old(self).made, at as int),
                self@.groups =~= old(self)@.groups + Seq::new(
                    at as nat,
                    |i: int|
                        GroupHandle {
                            id: numbering::number(old(self).made, i),
                            manager,
                            client,
                            output: board.groups[i],
                        },
                ),
                messages@ =~= group_news.take(at as int),
            decreases state.groups.len() - at,
        {
            let output = state.groups[at];
            messages.push(
                WorkspaceMessage {
                    to: manager,
                    event: WorkspaceEvent::GroupCreated(output),
                    group: Some(self.made),
                },
            );
            self.groups.push(GroupHandle { id: self.made, manager, client, output });
            self.made = self.made.wrapping_add(1);
            at = at + 1;
        }
        assert(self@.groups =~= joined.groups);
        let mut workspace: usize = 0;
        assert(messages@ =~= group_news);
        while workspace < state.workspaces.len()
            invariant
                workspace <= state.workspaces.len(),
                board == state@,
                workspace_news == Seq::new(
                    board.workspaces.len(),
                    |i: int|
                        WorkspaceMessage {
                            to: manager,
                            event: WorkspaceEvent::Created(i as usize),
                            group: None,
                        },
                ),
                self@.followers == old(self)@.followers,
                self.made == joined.made,
                self@.groups == joined.groups,
                self@.workspaces =~= old(self)@.workspaces + Seq::new(
                    workspace as nat,
                    |i: int| WorkspaceHandle { manager, index: i as usize },
                ),
                messages@ =~= group_news + workspace_news.take(workspace as int),
            decreases state.workspaces.len() - workspace,
        {
            messages.push(
                WorkspaceMessage {
                    to: manager,
                    event: WorkspaceEvent::Created(workspace),
                    group: None,
                },
            );
            self.workspaces.push(WorkspaceHandle { manager, index: workspace });
            workspace = workspace + 1;
        }
        assert(self@.workspaces =~= joined.workspaces);
        let ghost known = group_news + workspace_news;
        assert(messages@ =~= known);
        let mut group: usize = 0;
        assert(board.groups.take(0) =~= seq![]);
        assert(known + Seq::<WorkspaceMessage>::empty() =~= known);
        while group < state.groups.len()
            invariant
                group <= state.groups.len(),
                board == state@,
                messages@ == known + all_entered(
                    manager,
                    board.groups.take(group as int),
                    board.workspaces,
                ),
            decreases state.groups.len() - group,
        {
            assert(board.groups.take(group + 1).drop_last() =~= board.groups.take(group as int));
            let ghost before = all_entered(
                manager,
                board.groups.take(group as int),
                board.workspaces,
            );
            let indices = workspaces_in(&state.workspaces, state.groups[group]);
            tell_entered(&mut messages, manager, &indices, state.groups[group]);
            assert(messages@ =~= known + (before + entered(
                manager,
                indices@,
                board.groups[group as int],
            )));
            group = group + 1;
        }
        assert(board.groups.take(board.groups.len() as int) =~= board.groups);
        messages.push(
            WorkspaceMessage { to: manager, event: WorkspaceEvent::Done, group: None },
        );
        assert(messages@ =~= introduction(manager, board, old(self).made));
        self.destroyed(manager);
        let ghost others = self@.followers;
        self.followers.push(Follower { id: manager, client, queue: ActivationQueue::new() });
        assert(self@.followers =~= others.push(Following { id: manager, client, queue: seq![] }));
        assert(self@ =~= joined);
        messages
    }

    /// A program comes to know an output. Says which of its managers are told that the output is in
    /// its group, and which that this was all.
    pub fn on_output_bound(&self, client: ClientId, output: OutputId) -> (told: OutputBound)
        ensures
            told.entered@ == self@.output_hearers(client, output),
            told.done@ == self@.output_done(client, output),
    {
        let ghost groups = self.groups@;
        let mut entered: Vec<ManagerId> = Vec::new();
        let mut index: usize = 0;
        assert(groups.take(0) =~= seq![]);
        while index < self.groups.len()
            invariant
                index <= self.groups.len(),
                groups == self.groups@,
                entered@ == client_group_holders(groups.take(index as int), client, output),
            decreases self.groups.len() - index,
        {
            assert(groups.take(index + 1).drop_last() =~= groups.take(index as int));
            let handle = self.groups[index];
            if handle.output == output && handle.client == client {
                entered.push(handle.manager);
            }
            index = index + 1;
        }
        assert(groups.take(groups.len() as int) =~= groups);
        let mut done: Vec<ManagerId> = Vec::new();
        if entered.len() > 0 {
            let ghost all = self@.followers;
            let mut at: usize = 0;
            assert(all.take(0) =~= seq![]);
            while at < self.followers.len()
                invariant
                    at <= self.followers.len(),
                    all == self@.followers,
                    done@ == client_followers(all.take(at as int), client),
                decreases self.followers.len() - at,
            {
                assert(all.take(at + 1).drop_last() =~= all.take(at as int));
                assert(all[at as int] == self.followers[at as int]@);
                if self.followers[at].client == client {
                    done.push(self.followers[at].id);
                }
                at = at + 1;
            }
            assert(all.take(all.len() as int) =~= all);
        }
        OutputBound { entered, done }
    }

    fn find(&self, manager: ManagerId) -> (place: usize)
        ensures
            place == follower_place(self@.followers, manager),
            place <= self.followers.len(),
    {
        let ghost all = self@.followers;
        let mut place: usize = 0;
        assert(all.skip(0) =~= all);
        while place < self.followers.len()
            invariant
                place <= self.followers.len(),
                all == self@.followers,
                follower_place(all, manager) == place + follower_place(
                    all.skip(place as int),
                    manager,
                ),
            decreases self.followers.len() - place,
        {
            assert(all.skip(place as int).skip(1) =~= all.skip(place + 1));
            assert(all.skip(place as int)[0] == all[place as int]);
            if self.followers[place].id == manager {
                return place;
            }
            place = place + 1;
        }
        place
    }

    /// A workspace is asked for by a manager; that waits for its commit.
    pub fn activate(&mut self, manager: ManagerId, index: usize)
        ensures
            final(self)@ == old(self)@.asked(manager, index),
    {
        let place = self.find(manager);
        if place < self.followers.len() && self.knows(manager, index) {
            let ghost before = self@.followers;
            let id = self.followers[place].id;
            let client = self.followers[place].client;
            let mut queue = ActivationQueue::new();
            std::mem::swap(&mut queue, &mut self.followers[place].queue);
            queue.activate(index);
            self.followers.set(place, Follower { id, client, queue });
            assert(self@.followers =~= before.update(
                place as int,
                Following {
                    queue: before[place as int].queue.push(index),
                    ..before[place as int]
                },
            ));
        }
    }

    /// What was asked for by a manager is committed: that is done, in order.
    pub fn commit(&mut self, manager: ManagerId, raven: &mut Raven)
        requires
            old(raven)@.sound(),
        ensures
            final(self)@ == old(self)@.committed(manager),
            final(raven)@ == old(raven)@.activations_done(old(self)@.queue_of(manager)),
            final(raven)@.sound(),
    {
        let place = self.find(manager);
        if place < self.followers.len() {
            let ghost before = self@.followers;
            let id = self.followers[place].id;
            let client = self.followers[place].client;
            let mut queue = ActivationQueue::new();
            std::mem::swap(&mut queue, &mut self.followers[place].queue);
            queue.commit(raven);
            self.followers.set(place, Follower { id, client, queue });
            assert(self@.followers =~= before.update(
                place as int,
                Following { queue: seq![], ..before[place as int] },
            ));
        }
    }

    /// A manager is no longer there, though what it knows may be.
    pub fn destroyed(&mut self, manager: ManagerId)
        ensures
            final(self)@ == (Audience {
                followers: followers_without(old(self)@.followers, manager),
                ..old(self)@
            }),
    {
        let ghost all = self@.followers;
        let mut rest: Vec<Follower> = Vec::new();
        std::mem::swap(&mut rest, &mut self.followers);
        let mut kept: Vec<Follower> = Vec::new();
        let mut index: usize = 0;
        assert(all.take(0) =~= seq![]);
        assert(followings(kept@) =~= seq![]);
        while index < rest.len()
            invariant
                index <= rest.len(),
                all == followings(rest@),
                followings(kept@) == followers_without(all.take(index as int), manager),
            decreases rest.len() - index,
        {
            assert(all.take(index + 1).drop_last() =~= all.take(index as int));
            if rest[index].id != manager {
                let ghost before = followings(kept@);
                let mut indices: Vec<usize> = Vec::new();
                indices.extend_from_slice(rest[index].queue.indices.as_slice());
                assert(indices@ =~= rest[index as int].queue.indices@);
                kept.push(
                    Follower {
                        id: rest[index].id,
                        client: rest[index].client,
                        queue: ActivationQueue { indices },
                    },
                );
                assert(followings(kept@) =~= before.push(all[index as int]));
            }
            index = index + 1;
        }
        assert(all.take(all.len() as int) =~= all);
        self.followers = kept;
    }

    /// A manager is done following: it is to be told that this is finished.
    pub fn stop(&mut self, manager: ManagerId)
        ensures
            final(self)@ == old(self)@.left(manager),
    {
        self.destroyed(manager);
        self.forget_workspaces(None, manager);
        self.forget_groups(None, Some(manager));
    }

    /// A manager no longer is to know of a workspace.
    pub fn workspace_destroyed(&mut self, manager: ManagerId, index: usize)
        ensures
            final(self)@ == (Audience {
                workspaces: workspaces_without(old(self)@.workspaces, Some(index), manager),
                ..old(self)@
            }),
    {
        self.forget_workspaces(Some(index), manager);
    }

    /// A manager gives a handle on the group of an output up; where it had given way to another one,
    /// nothing happens.
    pub fn group_destroyed(&mut self, handle: HandleId)
        ensures
            final(self)@ == (Audience {
                groups: groups_forgotten(old(self)@.groups, handle),
                ..old(self)@
            }),
    {
        let ghost all = self.groups@;
        let mut kept: Vec<GroupHandle> = Vec::new();
        let mut index: usize = 0;
        assert(all.take(0) =~= seq![]);
        while index < self.groups.len()
            invariant
                index <= self.groups.len(),
                all == self.groups@,
                self@ == old(self)@,
                kept@ == groups_forgotten(all.take(index as int), handle),
            decreases self.groups.len() - index,
        {
            assert(all.take(index + 1).drop_last() =~= all.take(index as int));
            if self.groups[index].id != handle {
                kept.push(self.groups[index]);
            }
            index = index + 1;
        }
        assert(all.take(all.len() as int) =~= all);
        self.groups = kept;
    }
}

fn workspaces_in(workspaces: &Vec<WorkspaceData>, output: OutputId) -> (indices: Vec<usize>)
    ensures
        indices@ == workspaces_on(workspaces@, output, workspaces@.len()),
{
    let mut indices: Vec<usize> = Vec::new();
    let mut index: usize = 0;
    while index < workspaces.len()
        invariant
            index <= workspaces.len(),
            indices@ == workspaces_on(workspaces@, output, index as nat),
        decreases workspaces.len() - index,
    {
        let there = match workspaces[index].output {
            Some(place) => place == output,
            None => false,
        };
        if there {
            indices.push(index);
        }
        index = index + 1;
    }
    indices
}

fn tell_entered(
    messages: &mut Vec<WorkspaceMessage>,
    manager: ManagerId,
    indices: &Vec<usize>,
    output: OutputId,
)
    ensures
        final(messages)@ == old(messages)@ + entered(manager, indices@, output),
{
    let ghost before = messages@;
    let mut at: usize = 0;
    while at < indices.len()
        invariant
            at <= indices.len(),
            messages@ =~= before + entered(manager, indices@.take(at as int), output),
        decreases indices.len() - at,
    {
        messages.push(
            WorkspaceMessage {
                to: manager,
                event: WorkspaceEvent::Enter(indices[at], output),
                group: None,
            },
        );
        at = at + 1;
    }
    assert(indices@.take(indices@.len() as int) =~= indices@);
}

} // verus!
