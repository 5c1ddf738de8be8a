//! The workspaces that other programs are told of: which there are, where they are, and which is
//! active.

use crate::numbers;
use crate::numbers::write_decimal;
use crate::state::raven::{Raven, State, WORKSPACE_COUNT};
use crate::state::space::Output;
use crate::state::toplevel::OutputId;
use crate::state::workspace_laws;
use vstd::prelude::*;

verus! {

/// The name of a workspace: its number, from one on.
pub fn build_workspace_name(index: usize) -> (name: String)
    requires
        index < usize::MAX,
    ensures
        name@ == numbers::decimal((index + 1) as nat),
{
    write_decimal(index as u64 + 1)
}

/// The coordinates of a workspace: all of them stand below each other.
pub fn build_workspace_coordinates(index: usize) -> (coordinates: (u32, u32))
    requires
        index <= u32::MAX,
    ensures
        coordinates.0 == 0,
        coordinates.1 == index,
{
    (0, index as u32)
}

/// What is told of a workspace.
#[derive(Clone, Copy, Debug, PartialEq, Eq, Structural)]
pub struct WorkspaceData {
    pub active: bool,
    pub output: Option<OutputId>,
}

/// What other programs are to be told.
#[derive(Clone, Copy, Debug, PartialEq, Eq, Structural)]
pub enum WorkspaceEvent {
    /// The group of an output is gone.
    GroupRemoved(OutputId),
    /// There is a group for an output.
    GroupCreated(OutputId),
    /// There is a workspace.
    Created(usize),
    /// A workspace left the group of an output.
    Leave(usize, OutputId),
    /// A workspace entered the group of an output.
    Enter(usize, OutputId),
    /// A workspace became active, or is no longer.
    State(usize, bool),
    /// That was all.
    Done,
}

/// What other programs were told of workspaces: the outputs that have a group, and the workspaces.
#[derive(Debug)]
pub struct ExtWorkspaceManagerState {
    pub groups: Vec<OutputId>,
    pub workspaces: Vec<WorkspaceData>,
}

/// An `ExtWorkspaceManagerState` as plain values.
#[verifier::ext_equal]
pub struct Board {
    pub groups: Seq<OutputId>,
    pub workspaces: Seq<WorkspaceData>,
}

impl Board {
    /// Whether there are no more workspaces than there should be, and each is on an output that has
    /// a group.
    pub open spec fn settled(self) -> bool {
        &&& self.workspaces.len() <= WORKSPACE_COUNT
        &&& forall|i: int|
            0 <= i < self.workspaces.len() && (#[trigger] self.workspaces[i]).output is Some
                ==> self.groups.contains(self.workspaces[i].output.unwrap())
    }
}

impl View for ExtWorkspaceManagerState {
    type V = Board;

    open spec fn view(&self) -> Board {
        Board { groups: self.groups@, workspaces: self.workspaces@ }
    }
}

/// The numbers of outputs.
pub open spec fn output_ids(outputs: Seq<Output>) -> Seq<OutputId> {
    Seq::new(outputs.len(), |i: int| outputs[i].id)
}

/// The groups whose output is still there.
pub open spec fn groups_kept(groups: Seq<OutputId>, outputs: Seq<OutputId>) -> Seq<OutputId>
    decreases groups.len(),
{
    if groups.len() == 0 {
        groups
    } else if outputs.contains(groups.last()) {
        groups_kept(groups.drop_last(), outputs).push(groups.last())
    } else {
        groups_kept(groups.drop_last(), outputs)
    }
}

/// That groups are gone.
pub open spec fn group_removals(groups: Seq<OutputId>, outputs: Seq<OutputId>) -> Seq<
    WorkspaceEvent,
>
    decreases groups.len(),
{
    if groups.len() == 0 {
        Seq::<WorkspaceEvent>::empty()
    } else if outputs.contains(groups.last()) {
        group_removals(groups.drop_last(), outputs)
    } else {
        group_removals(groups.drop_last(), outputs).push(
            WorkspaceEvent::GroupRemoved(groups.last()),
        )
    }
}

/// The groups with one for each output.
pub open spec fn groups_with(groups: Seq<OutputId>, outputs: Seq<OutputId>) -> Seq<OutputId>
    decreases outputs.len(),
{
    if outputs.len() == 0 {
        groups
    } else {
        let before = groups_with(groups, outputs.drop_last());
        if before.contains(outputs.last()) {
            before
        } else {
            before.push(outputs.last())
        }
    }
}

/// That there are new groups.
pub open spec fn group_creations(groups: Seq<OutputId>, outputs: Seq<OutputId>) -> Seq<
    WorkspaceEvent,
>
    decreases outputs.len(),
{
    if outputs.len() == 0 {
        Seq::<WorkspaceEvent>::empty()
    } else {
        let before = group_creations(groups, outputs.drop_last());
        if groups_with(groups, outputs.drop_last()).contains(outputs.last()) {
            before
        } else {
            before.push(WorkspaceEvent::GroupCreated(outputs.last()))
        }
    }
}

/// What is to be told of a workspace that was told of before, or is new. There is nothing to leave
/// or to enter on an output without a group.
pub open spec fn workspace_news(
    groups: Seq<OutputId>,
    old: Option<WorkspaceData>,
    index: usize,
    new: WorkspaceData,
) -> Seq<WorkspaceEvent> {
    let entered = match new.output {
        Some(output) => if groups.contains(output) {
            seq![WorkspaceEvent::Enter(index, output)]
        } else {
            seq![]
        },
        None => seq![],
    };
    match old {
        Some(old) => (if old.output != new.output {
            (match old.output {
                Some(output) => if groups.contains(output) {
                    seq![WorkspaceEvent::Leave(index, output)]
                } else {
                    seq![]
                },
                None => seq![],
            }) + entered
        } else {
            seq![]
        }) + (if old.active != new.active {
            seq![WorkspaceEvent::State(index, new.active)]
        } else {
            seq![]
        }),
        None => seq![WorkspaceEvent::Created(index)] + entered,
    }
}

impl State {
    /// What is to be told of a workspace: all of them are on the first output.
    pub open spec fn workspace_data(self, index: int) -> WorkspaceData {
        WorkspaceData { active: index == self.current, output: self.first_output() }
    }

    /// What is told of the first `count` workspaces.
    pub open spec fn workspaces_told(self, count: nat) -> Seq<WorkspaceData> {
        Seq::new(count, |i: int| self.workspace_data(i))
    }

    /// What other programs are to be told of the first `count` workspaces.
    pub open spec fn workspaces_news(
        self,
        groups: Seq<OutputId>,
        old: Seq<WorkspaceData>,
        count: nat,
    ) -> Seq<WorkspaceEvent>
        decreases count,
    {
        if count == 0 {
            Seq::<WorkspaceEvent>::empty()
        } else {
            self.workspaces_news(groups, old, (count - 1) as nat) + workspace_news(
                groups,
                if count <= old.len() {
                    Some(old[count - 1])
                } else {
                    None
                },
                (count - 1) as usize,
                self.workspace_data(count - 1),
            )
        }
    }

    /// What other programs are to be told of groups and workspaces.
    pub open spec fn board_news(self, board: Board) -> Seq<WorkspaceEvent> {
        let outputs = output_ids(self.outputs);
        let news = group_removals(board.groups, outputs) + group_creations(
            groups_kept(board.groups, outputs),
            outputs,
        ) + self.workspaces_news(
            self.board(board).groups,
            board.workspaces,
            WORKSPACE_COUNT as nat,
        );
        if news.len() > 0 {
            news.push(WorkspaceEvent::Done)
        } else {
            news
        }
    }

    /// What other programs were told afterwards.
    pub open spec fn board(self, board: Board) -> Board {
        let outputs = output_ids(self.outputs);
        Board {
            groups: groups_with(groups_kept(board.groups, outputs), outputs),
            workspaces: self.workspaces_told(WORKSPACE_COUNT as nat),
        }
    }

    /// The state after these workspaces were asked for, one after the other.
    pub open spec fn activations_done(self, indices: Seq<usize>) -> State
        decreases indices.len(),
    {
        if indices.len() == 0 {
            self
        } else {
            self.activations_done(indices.drop_last()).workspace_switched(indices.last() as int).0
        }
    }
}

fn has_id(ids: &Vec<OutputId>, id: OutputId) -> (result: bool)
    ensures
        result == ids@.contains(id),
{
    let mut index: usize = 0;
    while index < ids.len()
        invariant
            index <= ids.len(),
            forall|i: int| 0 <= i < index ==> ids@[i] != id,
        decreases ids.len() - index,
    {
        if ids[index] == id {
            assert(ids@.contains(ids@[index as int]));
            return true;
        }
        index = index + 1;
    }
    false
}

fn same_place(one: Option<OutputId>, other: Option<OutputId>) -> (same: bool)
    ensures
        same == (one == other),
{
    match (one, other) {
        (Some(one), Some(other)) => one == other,
        (None, None) => true,
        _ => false,
    }
}

fn tell_workspace(
    events: &mut Vec<WorkspaceEvent>,
    groups: &Vec<OutputId>,
    old_data: Option<WorkspaceData>,
    index: usize,
    new: WorkspaceData,
)
    ensures
        final(events)@ == old(events)@ + workspace_news(groups@, old_data, index, new),
{
    let ghost before = events@;
    match old_data {
        Some(data) => {
            if !same_place(data.output, new.output) {
                if let Some(output) = data.output {
                    if has_id(groups, output) {
                        events.push(WorkspaceEvent::Leave(index, output));
                    }
                }
                if let Some(output) = new.output {
                    if has_id(groups, output) {
                        events.push(WorkspaceEvent::Enter(index, output));
                    }
                }
            }
            if data.active != new.active {
                events.push(WorkspaceEvent::State(index, new.active));
            }
        },
        None => {
            events.push(WorkspaceEvent::Created(index));
            if let Some(output) = new.output {
                if has_id(groups, output) {
                    events.push(WorkspaceEvent::Enter(index, output));
                }
            }
        },
    }
    assert(events@ =~= before + workspace_news(groups@, old_data, index, new));
}

impl ExtWorkspaceManagerState {
    /// Nothing was told yet.
    pub fn new() -> (manager: ExtWorkspaceManagerState)
        ensures
            manager@ == (Board { groups: seq![], workspaces: seq![] }),
            manager@.settled(),
    {
        ExtWorkspaceManagerState { groups: Vec::new(), workspaces: Vec::new() }
    }

    fn retain_groups(&mut self, outputs: &Vec<OutputId>) -> (events: Vec<WorkspaceEvent>)
        ensures
            final(self)@ == (Board {
                groups: groups_kept(old(self)@.groups, outputs@),
                ..old(self)@
            }),
            events@ == group_removals(old(self)@.groups, outputs@),
    {
        let ghost all = self.groups@;
        let mut kept: Vec<OutputId> = Vec::new();
        let mut events: Vec<WorkspaceEvent> = Vec::new();
        let mut index: usize = 0;
        assert(all.take(0) =~= seq![]);
        while index < self.groups.len()
            invariant
                index <= self.groups.len(),
                all == self.groups@,
                self@ == old(self)@,
                kept@ == groups_kept(all.take(index as int), outputs@),
                events@ == group_removals(all.take(index as int), outputs@),
            decreases self.groups.len() - index,
        {
            assert(all.take(index + 1).drop_last() =~= all.take(index as int));
            let group = self.groups[index];
            if has_id(outputs, group) {
                kept.push(group);
            } else {
                events.push(WorkspaceEvent::GroupRemoved(group));
            }
            index = index + 1;
        }
        assert(all.take(all.len() as int) =~= all);
        self.groups = kept;
        events
    }

    fn add_groups(&mut self, outputs: &Vec<OutputId>, events: &mut Vec<WorkspaceEvent>)
        ensures
            final(self)@ == (Board {
                groups: groups_with(old(self)@.groups, outputs@),
                ..old(self)@
            }),
            final(events)@ == old(events)@ + group_creations(old(self)@.groups, outputs@),
    {
        let ghost groups = self.groups@;
        let ghost before = events@;
        let mut index: usize = 0;
        assert(outputs@.take(0) =~= seq![]);
        assert(before + Seq::<WorkspaceEvent>::empty() =~= before);
        while index < outputs.len()
            invariant
                index <= outputs.len(),
                groups == old(self)@.groups,
                self@ == (Board {
                    groups: groups_with(groups, outputs@.take(index as int)),
                    ..old(self)@
                }),
                events@ == before + group_creations(groups, outputs@.take(index as int)),
            decreases outputs.len() - index,
        {
            assert(outputs@.take(index + 1).drop_last() =~= outputs@.take(index as int));
            let ghost made = group_creations(groups, outputs@.take(index as int));
            if !has_id(&self.groups, outputs[index]) {
                self.groups.push(outputs[index]);
                events.push(WorkspaceEvent::GroupCreated(outputs[index]));
                assert(events@ =~= before + made.push(
                    WorkspaceEvent::GroupCreated(outputs@[index as int]),
                ));
            }
            index = index + 1;
        }
        assert(outputs@.take(outputs@.len() as int) =~= outputs@);
    }
}

/// The workspaces that a program asked for and did not commit yet.
#[derive(Debug)]
pub struct ActivationQueue {
    pub indices: Vec<usize>,
}

impl ActivationQueue {
    /// Nothing was asked for.
    pub fn new() -> (queue: ActivationQueue)
        ensures
            queue.indices@ == Seq::<usize>::empty(),
    {
        ActivationQueue { indices: Vec::new() }
    }

    /// A workspace is asked for.
    pub fn activate(&mut self, index: usize)
        ensures
            final(self).indices@ == old(self).indices@.push(index),
    {
        self.indices.push(index);
    }

    /// What was asked for is done, in order.
    pub fn commit(&mut self, raven: &mut Raven)
        requires
            old(raven)@.sound(),
        ensures
            final(self).indices@ == Seq::<usize>::empty(),
            final(raven)@ == old(raven)@.activations_done(old(self).indices@),
            final(raven)@.sound(),
    {
        let mut indices: Vec<usize> = Vec::new();
        std::mem::swap(&mut indices, &mut self.indices);
        let ghost before = raven@;
        let mut at: usize = 0;
        assert(indices@.take(0) =~= seq![]);
        while at < indices.len()
            invariant
                at <= indices.len(),
                raven@ == before.activations_done(indices@.take(at as int)),
                raven@.sound(),
            decreases indices.len() - at,
        {
            assert(indices@.take(at + 1).drop_last() =~= indices@.take(at as int));
            raven.activate_workspace(indices[at]);
            at = at + 1;
        }
        assert(indices@.take(indices@.len() as int) =~= indices@);
    }
}

impl Raven {
    /// Another program asks for a workspace; a failure changes nothing.
    pub fn activate_workspace(&mut self, workspace_index: usize)
        requires
            old(self)@.sound(),
        ensures
            final(self)@ == old(self)@.workspace_switched(workspace_index as int).0,
            final(self)@.sound(),
    {
        let _ = self.switch_workspace(workspace_index);
    }

    /// Brings what other programs are told of workspaces up to date, and says what they are to be
    /// told, in order.
    pub fn refresh_ext_workspace(&self, manager: &mut ExtWorkspaceManagerState) -> (events: Vec<
        WorkspaceEvent,
    >)
        requires
            old(manager)@.settled(),
        ensures
            final(manager)@ == self@.board(old(manager)@),
            final(manager)@.settled(),
            events@ == self@.board_news(old(manager)@),
    {
        let mut outputs: Vec<OutputId> = Vec::new();
        let mut at: usize = 0;
        while at < self.outputs.len()
            invariant
                at <= self.outputs.len(),
                outputs@ =~= output_ids(self@.outputs).take(at as int),
            decreases self.outputs.len() - at,
        {
            outputs.push(self.outputs[at].id);
            at = at + 1;
        }
        assert(outputs@ =~= output_ids(self@.outputs));
        let ghost old_board = manager@;
        let mut events = manager.retain_groups(&outputs);
        manager.add_groups(&outputs, &mut events);
        let ghost group_news = events@;
        let primary = self.first_output();
        let mut told: Vec<WorkspaceData> = Vec::new();
        let mut index: usize = 0;
        assert(group_news + Seq::<WorkspaceEvent>::empty() =~= group_news);
        assert(told@ =~= self@.workspaces_told(0));
        while index < WORKSPACE_COUNT
            invariant
                index <= WORKSPACE_COUNT,
                primary == self@.first_output(),
                manager@.workspaces == old_board.workspaces,
                manager@.groups == self@.board(old_board).groups,
                told@ == self@.workspaces_told(index as nat),
                events@ == group_news + self@.workspaces_news(
                    self@.board(old_board).groups,
                    old_board.workspaces,
                    index as nat,
                ),
            decreases WORKSPACE_COUNT - index,
        {
            let data = WorkspaceData { active: index == self.current_workspace, output: primary };
            let known = if index < manager.workspaces.len() {
                Some(manager.workspaces[index])
            } else {
                None
            };
            let ghost before = self@.workspaces_news(
                manager@.groups,
                old_board.workspaces,
                index as nat,
            );
            tell_workspace(&mut events, &manager.groups, known, index, data);
            assert(events@ =~= group_news + (before + workspace_news(
                manager@.groups,
                known,
                index,
                data,
            )));
            told.push(data);
            assert(told@ =~= self@.workspaces_told((index + 1) as nat));
            index = index + 1;
        }
        manager.workspaces = told;
        proof {
            board_is_settled(self@, old_board);
        }
        if events.len() > 0 {
            events.push(WorkspaceEvent::Done);
        }
        events
    }
}

/// Once told, other programs are told nothing more until something changes.
pub proof fn unchanged_board_is_no_news(state: State, board: Board)
    ensures
        state.board_news(state.board(board)).len() == 0,
        state.board(state.board(board)) == state.board(board),
{
    let outputs = output_ids(state.outputs);
    let told = state.board(board);
    let kept = groups_kept(board.groups, outputs);
    assert(outputs.take(outputs.len() as int) =~= outputs);
    groups_are_outputs(kept, outputs, outputs.len());
    kept_are_outputs(board.groups, outputs);
    assert forall|i: int| 0 <= i < told.groups.len() implies outputs.contains(
        #[trigger] told.groups[i],
    ) by {
        let group = told.groups[i];
        if kept.contains(group) {
            let k = choose|k: int| 0 <= k < kept.len() && kept[k] == group;
            assert(outputs.contains(kept[k]));
        }
    }
    all_kept(told.groups, outputs);
    none_made(told.groups, outputs, outputs.len());
    no_workspace_news(state, state.board(told).groups, WORKSPACE_COUNT as nat);
}

/// Once told, every workspace is on an output that has a group.
pub proof fn board_is_settled(state: State, board: Board)
    ensures
        state.board(board).settled(),
{
    let outputs = output_ids(state.outputs);
    assert(outputs.take(outputs.len() as int) =~= outputs);
    groups_are_outputs(groups_kept(board.groups, outputs), outputs, outputs.len());
    if state.outputs.len() > 0 {
        assert(outputs[0] == state.outputs[0].id);
    }
}

proof fn kept_are_outputs(groups: Seq<OutputId>, outputs: Seq<OutputId>)
    ensures
        forall|i: int|
            0 <= i < groups_kept(groups, outputs).len() ==> outputs.contains(
                #[trigger] groups_kept(groups, outputs)[i],
            ),
    decreases groups.len(),
{
    if groups.len() > 0 {
        let before = groups_kept(groups.drop_last(), outputs);
        let after = groups_kept(groups, outputs);
        kept_are_outputs(groups.drop_last(), outputs);
        assert forall|i: int| 0 <= i < after.len() implies outputs.contains(
            #[trigger] after[i],
        ) by {
            if i < before.len() {
                assert(after[i] == before[i]);
            }
        }
    }
}

proof fn groups_are_outputs(groups: Seq<OutputId>, outputs: Seq<OutputId>, count: nat)
    requires
        count <= outputs.len(),
    ensures
        forall|i: int|
            0 <= i < groups_with(groups, outputs.take(count as int)).len() ==> groups.contains(
                #[trigger] groups_with(groups, outputs.take(count as int))[i],
            ) || outputs.contains(groups_with(groups, outputs.take(count as int))[i]),
        forall|j: int|
            0 <= j < count ==> groups_with(groups, outputs.take(count as int)).contains(
                #[trigger] outputs[j],
            ),
    decreases count,
{
    let taken = outputs.take(count as int);
    let after = groups_with(groups, taken);
    if count > 0 {
        let fewer = outputs.take(count - 1);
        groups_are_outputs(groups, outputs, (count - 1) as nat);
        assert(taken.drop_last() =~= fewer);
        let before = groups_with(groups, fewer);
        assert forall|i: int| 0 <= i < after.len() implies groups.contains(#[trigger] after[i])
            || outputs.contains(after[i]) by {
            if i < before.len() {
                assert(after[i] == before[i]);
            } else {
                assert(outputs.contains(outputs[count - 1]));
            }
        }
        assert forall|j: int| 0 <= j < count implies after.contains(#[trigger] outputs[j]) by {
            if j < count - 1 {
                assert(before.contains(outputs[j]));
                let k = choose|k: int| 0 <= k < before.len() && before[k] == outputs[j];
                assert(after[k] == outputs[j]);
            } else if !before.contains(outputs[j]) {
                assert(after[before.len() as int] == outputs[j]);
            }
        }
    } else {
        assert(taken =~= seq![]);
        assert forall|i: int| 0 <= i < after.len() implies groups.contains(#[trigger] after[i])
            || outputs.contains(after[i]) by {
            assert(groups.contains(groups[i]));
        }
    }
}

proof fn all_kept(groups: Seq<OutputId>, outputs: Seq<OutputId>)
    requires
        forall|i: int| 0 <= i < groups.len() ==> outputs.contains(#[trigger] groups[i]),
    ensures
        groups_kept(groups, outputs) == groups,
        group_removals(groups, outputs).len() == 0,
    decreases groups.len(),
{
    if groups.len() > 0 {
        let rest = groups.drop_last();
        assert forall|i: int| 0 <= i < rest.len() implies outputs.contains(#[trigger] rest[i]) by {
            assert(rest[i] == groups[i]);
        }
        all_kept(rest, outputs);
        assert(outputs.contains(groups[groups.len() - 1]));
        assert(rest.push(groups.last()) =~= groups);
    }
}

proof fn none_made(groups: Seq<OutputId>, outputs: Seq<OutputId>, count: nat)
    requires
        count <= outputs.len(),
        forall|j: int| 0 <= j < outputs.len() ==> groups.contains(#[trigger] outputs[j]),
    ensures
        groups_with(groups, outputs.take(count as int)) == groups,
        group_creations(groups, outputs.take(count as int)).len() == 0,
    decreases count,
{
    if count > 0 {
        none_made(groups, outputs, (count - 1) as nat);
        assert(outputs.take(count as int).drop_last() =~= outputs.take(count - 1));
        assert(groups.contains(outputs[count - 1]));
    }
}

proof fn no_workspace_news(state: State, groups: Seq<OutputId>, count: nat)
    requires
        count <= WORKSPACE_COUNT,
    ensures
        state.workspaces_news(groups, state.workspaces_told(WORKSPACE_COUNT as nat), count).len()
            == 0,
    decreases count,
{
    if count > 0 {
        no_workspace_news(state, groups, (count - 1) as nat);
    }
}

proof fn nothing_removed(groups: Seq<OutputId>, outputs: Seq<OutputId>)
    requires
        group_removals(groups, outputs).len() == 0,
    ensures
        groups_kept(groups, outputs) == groups,
    decreases groups.len(),
{
    if groups.len() > 0 {
        nothing_removed(groups.drop_last(), outputs);
        assert(groups.drop_last().push(groups.last()) =~= groups);
    }
}

proof fn nothing_made(groups: Seq<OutputId>, outputs: Seq<OutputId>)
    requires
        group_creations(groups, outputs).len() == 0,
    ensures
        groups_with(groups, outputs) == groups,
    decreases outputs.len(),
{
    if outputs.len() > 0 {
        nothing_made(groups, outputs.drop_last());
    }
}

proof fn nothing_new(state: State, board: Board, count: nat)
    requires
        board.settled(),
        state.board(board).groups == board.groups,
        count <= WORKSPACE_COUNT,
        state.workspaces_news(board.groups, board.workspaces, count).len() == 0,
    ensures
        count <= board.workspaces.len(),
        forall|i: int|
            0 <= i < count ==> #[trigger] board.workspaces[i] == state.workspace_data(i),
    decreases count,
{
    if count > 0 {
        let old_data = if count <= board.workspaces.len() {
            Some(board.workspaces[count - 1])
        } else {
            None
        };
        let new_data = state.workspace_data(count - 1);
        let fewer = state.workspaces_news(board.groups, board.workspaces, (count - 1) as nat);
        let last = workspace_news(board.groups, old_data, (count - 1) as usize, new_data);
        assert((fewer + last).len() == fewer.len() + last.len());
        nothing_new(state, board, (count - 1) as nat);
        board_is_settled(state, board);
        let told = state.board(board);
        assert(told.workspaces[count - 1] == new_data);
        if count <= board.workspaces.len() && board.workspaces[count - 1].output
            != new_data.output {
            if new_data.output is Some {
                assert(board.groups.contains(new_data.output.unwrap()));
            } else {
                assert(board.groups.contains(board.workspaces[count - 1].output.unwrap()));
            }
        }
    }
}

/// Other programs are told something exactly where something changed.
pub proof fn news_is_change(state: State, board: Board)
    requires
        board.settled(),
    ensures
        state.board_news(board).len() == 0 <==> state.board(board) == board,
{
    let outputs = output_ids(state.outputs);
    if state.board(board) == board {
        unchanged_board_is_no_news(state, board);
    }
    if state.board_news(board).len() == 0 {
        let removals = group_removals(board.groups, outputs);
        let creations = group_creations(groups_kept(board.groups, outputs), outputs);
        let rest = state.workspaces_news(
            state.board(board).groups,
            board.workspaces,
            WORKSPACE_COUNT as nat,
        );
        assert((removals + creations + rest).len() == removals.len() + creations.len()
            + rest.len());
        nothing_removed(board.groups, outputs);
        nothing_made(board.groups, outputs);
        nothing_new(state, board, WORKSPACE_COUNT as nat);
        assert(state.board(board).workspaces =~= board.workspaces);
        assert(state.board(board) =~= board);
    }
}

/// Asking for workspaces keeps the windows in order.
pub proof fn activations_stay_orderly(state: State, indices: Seq<usize>)
    requires
        state.orderly(),
    ensures
        state.activations_done(indices).orderly(),
    decreases indices.len(),
{
    if indices.len() > 0 {
        activations_stay_orderly(state, indices.drop_last());
        workspace_laws::switching_stays_orderly(
            state.activations_done(indices.drop_last()),
            indices.last() as int,
        );
    }
}

} // verus!
