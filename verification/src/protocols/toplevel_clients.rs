//! The programs that follow the windows: who is told what, and which window they mean.

use crate::protocols::foreign_toplevel;
use crate::protocols::foreign_toplevel::{
    ForeignToplevelManagerState, ToplevelData, ToplevelEvent, Told,
};
use crate::protocols::numbering;
use crate::protocols::numbering::HandleId;
use crate::protocols::workspace_clients::{ClientId, ManagerId};
use crate::state::lists::SurfaceId;
use crate::state::toplevel::OutputId;
use vstd::prelude::*;

verus! {

/// The number by which a program knows an output.
pub type ProxyId = u64;

/// That a program knows an output, and by which number.
#[derive(Clone, Copy, Debug, PartialEq, Eq, Structural)]
pub struct OutputProxy {
    pub id: ProxyId,
    pub client: ClientId,
    pub output: OutputId,
}

/// That by which a program follows the windows.
#[derive(Clone, Copy, Debug, PartialEq, Eq, Structural)]
pub struct ToplevelFollower {
    pub id: ManagerId,
    pub client: ClientId,
}

/// That a manager knows a window, and the outputs on which it was told that the window is.
#[derive(Debug)]
pub struct ToplevelHandle {
    pub id: HandleId,
    pub manager: ManagerId,
    pub client: ClientId,
    pub surface: SurfaceId,
    pub outputs: Vec<ProxyId>,
}

/// A `ToplevelHandle` as plain values.
pub struct Acquaintance {
    pub id: HandleId,
    pub manager: ManagerId,
    pub client: ClientId,
    pub surface: SurfaceId,
    pub outputs: Seq<ProxyId>,
}

impl View for ToplevelHandle {
    type V = Acquaintance;

    open spec fn view(&self) -> Acquaintance {
        Acquaintance {
            id: self.id,
            manager: self.manager,
            client: self.client,
            surface: self.surface,
            outputs: self.outputs@,
        }
    }
}

/// What managers know as plain values.
pub open spec fn acquaintances(handles: Seq<ToplevelHandle>) -> Seq<Acquaintance> {
    Seq::new(handles.len(), |i: int| handles[i]@)
}

/// What is told of one window. The title, the name of the program and the states are those that
/// all are told.
#[derive(Clone, Copy, Debug, PartialEq, Eq, Structural)]
pub enum ToplevelNotice {
    /// There is the window.
    New,
    /// It has a title.
    Title,
    /// It has a name of a program.
    AppId,
    /// It has these states.
    State,
    /// It left an output.
    OutputLeave(ProxyId),
    /// It entered an output.
    OutputEnter(ProxyId),
    /// That was all of it.
    Done,
    /// It is gone.
    Closed,
}

/// What one manager is told of one window, and by which handle it knows the window.
#[derive(Clone, Copy, Debug, PartialEq, Eq, Structural)]
pub struct ToplevelMessage {
    pub to: ManagerId,
    pub handle: HandleId,
    pub surface: SurfaceId,
    pub notice: ToplevelNotice,
}

/// The managers that there are, and the windows that they know.
#[derive(Debug)]
pub struct ToplevelClients {
    pub managers: Vec<ToplevelFollower>,
    pub handles: Vec<ToplevelHandle>,
    /// The number of the next handle.
    pub made: HandleId,
}

/// A `ToplevelClients` as plain values.
#[verifier::ext_equal]
pub struct Circle {
    pub managers: Seq<ToplevelFollower>,
    pub handles: Seq<Acquaintance>,
    pub made: HandleId,
}

impl View for ToplevelClients {
    type V = Circle;

    open spec fn view(&self) -> Circle {
        Circle {
            managers: self.managers@,
            handles: acquaintances(self.handles@),
            made: self.made,
        }
    }
}

/// The numbers by which a program knows an output.
pub open spec fn proxies_of(
    bound: Seq<OutputProxy>,
    client: ClientId,
    output: Option<OutputId>,
) -> Seq<ProxyId>
    decreases bound.len(),
{
    if bound.len() == 0 {
        Seq::<ProxyId>::empty()
    } else if bound.last().client == client && output == Some(bound.last().output) {
        proxies_of(bound.drop_last(), client, output).push(bound.last().id)
    } else {
        proxies_of(bound.drop_last(), client, output)
    }
}

/// Whether a number is one by which a program knows an output.
pub open spec fn is_bound(bound: Seq<OutputProxy>, id: ProxyId) -> bool {
    exists|i: int| 0 <= i < bound.len() && (#[trigger] bound[i]).id == id
}

/// Those of the numbers that still are ones by which a program knows an output.
pub open spec fn still_bound(ids: Seq<ProxyId>, bound: Seq<OutputProxy>) -> Seq<ProxyId>
    decreases ids.len(),
{
    if ids.len() == 0 {
        ids
    } else if is_bound(bound, ids.last()) {
        still_bound(ids.drop_last(), bound).push(ids.last())
    } else {
        still_bound(ids.drop_last(), bound)
    }
}

/// That a window left these outputs.
pub open spec fn leaving(ids: Seq<ProxyId>) -> Seq<ToplevelNotice> {
    Seq::new(ids.len(), |i: int| ToplevelNotice::OutputLeave(ids[i]))
}

/// That a window entered these outputs.
pub open spec fn entering(ids: Seq<ProxyId>) -> Seq<ToplevelNotice> {
    Seq::new(ids.len(), |i: int| ToplevelNotice::OutputEnter(ids[i]))
}

/// A notice, where there is one to give.
pub open spec fn noticed(there: bool, notice: ToplevelNotice) -> Seq<ToplevelNotice> {
    if there {
        seq![notice]
    } else {
        Seq::<ToplevelNotice>::empty()
    }
}

/// What is told of a window that is new to a manager.
pub open spec fn introduction(told: Told, entered: Seq<ProxyId>) -> Seq<ToplevelNotice> {
    seq![ToplevelNotice::New] + noticed(told.title is Some, ToplevelNotice::Title) + noticed(
        told.app_id is Some,
        ToplevelNotice::AppId,
    ) + seq![ToplevelNotice::State] + entering(entered) + seq![ToplevelNotice::Done]
}

/// What is new of a window.
#[derive(Clone, Copy, Debug, PartialEq, Eq, Structural)]
pub struct Changes {
    pub title: bool,
    pub app_id: bool,
    pub states: bool,
    pub output: bool,
}

/// What is told of what is new of a window that a manager knows. A title or a name that is no
/// longer there is not told.
pub open spec fn update(
    told: Told,
    changes: Changes,
    left: Seq<ProxyId>,
    entered: Seq<ProxyId>,
) -> Seq<ToplevelNotice> {
    noticed(changes.title && told.title is Some, ToplevelNotice::Title) + noticed(
        changes.app_id && told.app_id is Some,
        ToplevelNotice::AppId,
    ) + noticed(changes.states, ToplevelNotice::State) + (if changes.output {
        leaving(left) + entering(entered)
    } else {
        Seq::<ToplevelNotice>::empty()
    }) + seq![ToplevelNotice::Done]
}

/// Notices to a manager about a window.
pub open spec fn about(
    to: ManagerId,
    handle: HandleId,
    surface: SurfaceId,
    notices: Seq<ToplevelNotice>,
) -> Seq<ToplevelMessage> {
    Seq::new(notices.len(), |i: int| ToplevelMessage { to, handle, surface, notice: notices[i] })
}

/// What all are told of a window; nothing, where it is not told of.
pub open spec fn told_at(told: Seq<Told>, surface: SurfaceId) -> Told {
    let place = foreign_toplevel::told_place(told, surface);
    if place < told.len() {
        told[place as int]
    } else {
        Told { surface, title: None, app_id: None, states: Seq::<u32>::empty(), output: None }
    }
}

/// What is known but for one window.
pub open spec fn handles_without(handles: Seq<Acquaintance>, surface: SurfaceId) -> Seq<
    Acquaintance,
>
    decreases handles.len(),
{
    if handles.len() == 0 {
        handles
    } else if handles.last().surface == surface {
        handles_without(handles.drop_last(), surface)
    } else {
        handles_without(handles.drop_last(), surface).push(handles.last())
    }
}

/// What is known but for what is known by one handle.
pub open spec fn handles_forgotten(handles: Seq<Acquaintance>, handle: HandleId) -> Seq<
    Acquaintance,
>
    decreases handles.len(),
{
    if handles.len() == 0 {
        handles
    } else if handles.last().id == handle {
        handles_forgotten(handles.drop_last(), handle)
    } else {
        handles_forgotten(handles.drop_last(), handle).push(handles.last())
    }
}

/// The window that is known by a handle.
pub open spec fn known_by(handles: Seq<Acquaintance>, handle: HandleId) -> Option<SurfaceId>
    decreases handles.len(),
{
    if handles.len() == 0 {
        None
    } else if handles[0].id == handle {
        Some(handles[0].surface)
    } else {
        known_by(handles.skip(1), handle)
    }
}

/// That a window is gone, to those who know it.
pub open spec fn closing_messages(handles: Seq<Acquaintance>, surface: SurfaceId) -> Seq<
    ToplevelMessage,
>
    decreases handles.len(),
{
    if handles.len() == 0 {
        Seq::<ToplevelMessage>::empty()
    } else {
        let before = closing_messages(handles.drop_last(), surface);
        if handles.last().surface == surface {
            before + about(
                handles.last().manager,
                handles.last().id,
                surface,
                seq![ToplevelNotice::Closed],
            )
        } else {
            before
        }
    }
}

/// What is new of a window, to those who know it.
pub open spec fn update_messages(
    handles: Seq<Acquaintance>,
    told: Told,
    changes: Changes,
    bound: Seq<OutputProxy>,
) -> Seq<ToplevelMessage>
    decreases handles.len(),
{
    if handles.len() == 0 {
        Seq::<ToplevelMessage>::empty()
    } else {
        let handle = handles.last();
        let before = update_messages(handles.drop_last(), told, changes, bound);
        if handle.surface == told.surface {
            before + about(
                handle.manager,
                handle.id,
                told.surface,
                update(
                    told,
                    changes,
                    handle.outputs,
                    proxies_of(bound, handle.client, told.output),
                ),
            )
        } else {
            before
        }
    }
}

/// What is known after what is new of a window was told.
pub open spec fn handles_updated(
    handles: Seq<Acquaintance>,
    told: Told,
    changes: Changes,
    bound: Seq<OutputProxy>,
) -> Seq<Acquaintance> {
    Seq::new(
        handles.len(),
        |i: int|
            if handles[i].surface == told.surface && changes.output {
                Acquaintance {
                    outputs: proxies_of(bound, handles[i].client, told.output),
                    ..handles[i]
                }
            } else {
                handles[i]
            },
    )
}

/// What a manager knows of a window that is new to it.
pub open spec fn met(
    follower: ToplevelFollower,
    told: Told,
    bound: Seq<OutputProxy>,
    id: HandleId,
) -> Acquaintance {
    Acquaintance {
        id,
        manager: follower.id,
        client: follower.client,
        surface: told.surface,
        outputs: proxies_of(bound, follower.client, told.output),
    }
}

/// That there is a window, to a manager to which it is new.
pub open spec fn meeting(
    follower: ToplevelFollower,
    told: Told,
    bound: Seq<OutputProxy>,
    id: HandleId,
) -> Seq<ToplevelMessage> {
    about(
        follower.id,
        id,
        told.surface,
        introduction(told, proxies_of(bound, follower.client, told.output)),
    )
}

/// That there is a new window, to everybody.
pub open spec fn meetings(
    managers: Seq<ToplevelFollower>,
    told: Told,
    bound: Seq<OutputProxy>,
    made: HandleId,
) -> Seq<ToplevelMessage>
    decreases managers.len(),
{
    if managers.len() == 0 {
        Seq::<ToplevelMessage>::empty()
    } else {
        meetings(managers.drop_last(), told, bound, made) + meeting(
            managers.last(),
            told,
            bound,
            numbering::number(made, managers.len() - 1),
        )
    }
}

/// Which windows there are, to a manager that begins to follow.
pub open spec fn welcome(
    follower: ToplevelFollower,
    told: Seq<Told>,
    bound: Seq<OutputProxy>,
    made: HandleId,
) -> Seq<ToplevelMessage>
    decreases told.len(),
{
    if told.len() == 0 {
        Seq::<ToplevelMessage>::empty()
    } else {
        welcome(follower, told.drop_last(), bound, made) + meeting(
            follower,
            told.last(),
            bound,
            numbering::number(made, told.len() - 1),
        )
    }
}

/// The managers but for one.
pub open spec fn managers_without(managers: Seq<ToplevelFollower>, id: ManagerId) -> Seq<
    ToplevelFollower,
>
    decreases managers.len(),
{
    if managers.len() == 0 {
        managers
    } else if managers.last().id == id {
        managers_without(managers.drop_last(), id)
    } else {
        managers_without(managers.drop_last(), id).push(managers.last())
    }
}

/// Whether a handle is one of a program on a window that all are told is on an output.
pub open spec fn is_shown_on(
    handle: Acquaintance,
    client: ClientId,
    output: OutputId,
    told: Seq<Told>,
) -> bool {
    handle.client == client && told_at(told, handle.surface).output == Some(output)
}

/// What is told once a program comes to know an output.
pub open spec fn output_messages(
    handles: Seq<Acquaintance>,
    proxy: OutputProxy,
    told: Seq<Told>,
) -> Seq<ToplevelMessage>
    decreases handles.len(),
{
    if handles.len() == 0 {
        Seq::<ToplevelMessage>::empty()
    } else {
        let before = output_messages(handles.drop_last(), proxy, told);
        let handle = handles.last();
        if is_shown_on(handle, proxy.client, proxy.output, told) {
            before + about(
                handle.manager,
                handle.id,
                handle.surface,
                seq![ToplevelNotice::OutputEnter(proxy.id), ToplevelNotice::Done],
            )
        } else {
            before
        }
    }
}

impl Circle {
    /// What is known after an event was told.
    pub open spec fn knowing_of(
        self,
        event: ToplevelEvent,
        told: Seq<Told>,
        bound: Seq<OutputProxy>,
    ) -> Circle {
        match event {
            ToplevelEvent::Closed(surface) => Circle {
                handles: handles_without(self.handles, surface),
                ..self
            },
            ToplevelEvent::Created(surface) => Circle {
                handles: self.handles + Seq::new(
                    self.managers.len(),
                    |i: int|
                        met(self.managers[i], told_at(told, surface), bound, numbering::number(self.made, i)),
                ),
                made: numbering::number(self.made, self.managers.len() as int),
                ..self
            },
            ToplevelEvent::Changed { surface, title, app_id, states, output } => Circle {
                handles: handles_updated(
                    self.handles,
                    told_at(told, surface),
                    Changes { title, app_id, states, output },
                    bound,
                ),
                ..self
            },
        }
    }

    /// What is told of an event, and to whom: that there is a window everybody, of the rest those
    /// who know the window.
    pub open spec fn messages_of(
        self,
        event: ToplevelEvent,
        told: Seq<Told>,
        bound: Seq<OutputProxy>,
    ) -> Seq<ToplevelMessage> {
        match event {
            ToplevelEvent::Closed(surface) => closing_messages(self.handles, surface),
            ToplevelEvent::Created(surface) => meetings(
                self.managers,
                told_at(told, surface),
                bound,
                self.made,
            ),
            ToplevelEvent::Changed { surface, title, app_id, states, output } => update_messages(
                self.handles,
                told_at(told, surface),
                Changes { title, app_id, states, output },
                bound,
            ),
        }
    }

    /// What is known after these events were told.
    pub open spec fn informed(
        self,
        events: Seq<ToplevelEvent>,
        told: Seq<Told>,
        bound: Seq<OutputProxy>,
    ) -> Circle
        decreases events.len(),
    {
        if events.len() == 0 {
            self
        } else {
            self.informed(events.drop_last(), told, bound).knowing_of(events.last(), told, bound)
        }
    }

    /// What is told of these events, and to whom.
    pub open spec fn messages(
        self,
        events: Seq<ToplevelEvent>,
        told: Seq<Told>,
        bound: Seq<OutputProxy>,
    ) -> Seq<ToplevelMessage>
        decreases events.len(),
    {
        if events.len() == 0 {
            Seq::<ToplevelMessage>::empty()
        } else {
            self.messages(events.drop_last(), told, bound) + self.informed(
                events.drop_last(),
                told,
                bound,
            ).messages_of(events.last(), told, bound)
        }
    }

    /// What is known once numbers by which no output is known any longer are forgotten.
    pub open spec fn pruned(self, bound: Seq<OutputProxy>) -> Circle {
        Circle {
            handles: Seq::new(
                self.handles.len(),
                |i: int|
                    Acquaintance {
                        outputs: still_bound(self.handles[i].outputs, bound),
                        ..self.handles[i]
                    },
            ),
            ..self
        }
    }

    /// What is known after a manager begins to follow.
    pub open spec fn joined(
        self,
        follower: ToplevelFollower,
        told: Seq<Told>,
        bound: Seq<OutputProxy>,
    ) -> Circle {
        Circle {
            managers: self.managers.push(follower),
            handles: self.handles + Seq::new(
                told.len(),
                |i: int| met(follower, told[i], bound, numbering::number(self.made, i)),
            ),
            made: numbering::number(self.made, told.len() as int),
        }
    }

    /// What is known after a program comes to know an output.
    pub open spec fn with_output(self, proxy: OutputProxy, told: Seq<Told>) -> Circle {
        Circle {
            handles: Seq::new(
                self.handles.len(),
                |i: int|
                    if is_shown_on(self.handles[i], proxy.client, proxy.output, told) {
                        Acquaintance {
                            outputs: self.handles[i].outputs.push(proxy.id),
                            ..self.handles[i]
                        }
                    } else {
                        self.handles[i]
                    },
            ),
            ..self
        }
    }

    /// Whether a manager knows a window.
    pub open spec fn knows(self, manager: ManagerId, surface: SurfaceId) -> bool {
        exists|i: int|
            0 <= i < self.handles.len() && (#[trigger] self.handles[i]).manager == manager
                && self.handles[i].surface == surface
    }
}

fn tell(
    messages: &mut Vec<ToplevelMessage>,
    to: ManagerId,
    handle: HandleId,
    surface: SurfaceId,
    notices: &Vec<ToplevelNotice>,
)
    ensures
        final(messages)@ == old(messages)@ + about(to, handle, surface, notices@),
{
    let ghost before = messages@;
    let mut index: usize = 0;
    while index < notices.len()
        invariant
            index <= notices.len(),
            messages@ =~= before + about(to, handle, surface, notices@.take(index as int)),
        decreases notices.len() - index,
    {
        messages.push(ToplevelMessage { to, handle, surface, notice: notices[index] });
        index = index + 1;
    }
    assert(notices@.take(notices@.len() as int) =~= notices@);
}

fn client_outputs(
    bound: &Vec<OutputProxy>,
    client: ClientId,
    output: Option<OutputId>,
) -> (ids: Vec<ProxyId>)
    ensures
        ids@ == proxies_of(bound@, client, output),
{
    let mut ids: Vec<ProxyId> = Vec::new();
    let mut index: usize = 0;
    assert(bound@.take(0) =~= seq![]);
    while index < bound.len()
        invariant
            index <= bound.len(),
            ids@ == proxies_of(bound@.take(index as int), client, output),
        decreases bound.len() - index,
    {
        assert(bound@.take(index + 1).drop_last() =~= bound@.take(index as int));
        let same = match output {
            Some(output) => output == bound[index].output,
            None => false,
        };
        if bound[index].client == client && same {
            ids.push(bound[index].id);
        }
        index = index + 1;
    }
    assert(bound@.take(bound@.len() as int) =~= bound@);
    ids
}

fn push_leaving(notices: &mut Vec<ToplevelNotice>, ids: &Vec<ProxyId>)
    ensures
        final(notices)@ == old(notices)@ + leaving(ids@),
{
    let ghost before = notices@;
    let mut index: usize = 0;
    while index < ids.len()
        invariant
            index <= ids.len(),
            notices@ =~= before + leaving(ids@.take(index as int)),
        decreases ids.len() - index,
    {
        notices.push(ToplevelNotice::OutputLeave(ids[index]));
        index = index + 1;
    }
    assert(ids@.take(ids@.len() as int) =~= ids@);
}

fn push_entering(notices: &mut Vec<ToplevelNotice>, ids: &Vec<ProxyId>)
    ensures
        final(notices)@ == old(notices)@ + entering(ids@),
{
    let ghost before = notices@;
    let mut index: usize = 0;
    while index < ids.len()
        invariant
            index <= ids.len(),
            notices@ =~= before + entering(ids@.take(index as int)),
        decreases ids.len() - index,
    {
        notices.push(ToplevelNotice::OutputEnter(ids[index]));
        index = index + 1;
    }
    assert(ids@.take(ids@.len() as int) =~= ids@);
}

/// What of a window decides what is told of it.
#[derive(Clone, Copy, Debug)]
struct Gist {
    title: bool,
    app_id: bool,
    output: Option<OutputId>,
}

spec fn is_gist(gist: Gist, told: Told) -> bool {
    &&& gist.title == told.title is Some
    &&& gist.app_id == told.app_id is Some
    &&& gist.output == told.output
}

fn gist_of_data(data: &ToplevelData) -> (gist: Gist)
    ensures
        is_gist(gist, data@),
{
    Gist { title: data.title.is_some(), app_id: data.app_id.is_some(), output: data.output }
}

fn gist_at(state: &ForeignToplevelManagerState, surface: SurfaceId) -> (gist: Gist)
    ensures
        is_gist(gist, told_at(state@, surface)),
{
    let place: usize = state.find(surface);
    if place < state.toplevels.len() {
        assert(state@[place as int] == state.toplevels[place as int]@);
        gist_of_data(&state.toplevels[place])
    } else {
        Gist { title: false, app_id: false, output: None }
    }
}

fn introduce(
    messages: &mut Vec<ToplevelMessage>,
    follower: ToplevelFollower,
    surface: SurfaceId,
    gist: Gist,
    bound: &Vec<OutputProxy>,
    id: HandleId,
    Ghost(told): Ghost<Told>,
) -> (handle: ToplevelHandle)
    requires
        is_gist(gist, told),
        told.surface == surface,
    ensures
        final(messages)@ == old(messages)@ + meeting(follower, told, bound@, id),
        handle@ == met(follower, told, bound@, id),
{
    let outputs = client_outputs(bound, follower.client, gist.output);
    let mut notices: Vec<ToplevelNotice> = Vec::new();
    notices.push(ToplevelNotice::New);
    if gist.title {
        notices.push(ToplevelNotice::Title);
    }
    if gist.app_id {
        notices.push(ToplevelNotice::AppId);
    }
    notices.push(ToplevelNotice::State);
    push_entering(&mut notices, &outputs);
    notices.push(ToplevelNotice::Done);
    assert(notices@ =~= introduction(told, outputs@));
    tell(messages, follower.id, id, surface, &notices);
    ToplevelHandle { id, manager: follower.id, client: follower.client, surface, outputs }
}

impl ToplevelClients {
    /// Nobody follows.
    pub fn new() -> (clients: ToplevelClients)
        ensures
            clients@ == (Circle { managers: seq![], handles: seq![], made: 0 }),
    {
        let clients = ToplevelClients { managers: Vec::new(), handles: Vec::new(), made: 0 };
        assert(clients@.handles =~= seq![]);
        clients
    }

    /// A manager begins to follow; `state` is what the others were told. Says what it is told.
    pub fn bind(
        &mut self,
        follower: ToplevelFollower,
        state: &ForeignToplevelManagerState,
        bound: &Vec<OutputProxy>,
    ) -> (messages: Vec<ToplevelMessage>)
        ensures
            final(self)@ == old(self)@.joined(follower, state@, bound@),
            messages@ == welcome(follower, state@, bound@, old(self).made),
    {
        let ghost told = state@;
        let ghost before = self@;
        let mut messages: Vec<ToplevelMessage> = Vec::new();
        let mut index: usize = 0;
        assert(told.take(0) =~= seq![]);
        while index < state.toplevels.len()
            invariant
                index <= state.toplevels.len(),
                told == state@,
                self@.managers == before.managers,
                self.made == numbering::number(before.made, index as int),
                self@.handles =~= before.handles + Seq::new(
                    index as nat,
                    |i: int| met(follower, told[i], bound@, numbering::number(before.made, i)),
                ),
                messages@ == welcome(follower, told.take(index as int), bound@, before.made),
            decreases state.toplevels.len() - index,
        {
            assert(told.take(index + 1).drop_last() =~= told.take(index as int));
            assert(told[index as int] == state.toplevels[index as int]@);
            let gist = gist_of_data(&state.toplevels[index]);
            let handle = introduce(
                &mut messages,
                follower,
                state.toplevels[index].surface,
                gist,
                bound,
                self.made,
                Ghost(told[index as int]),
            );
            let ghost handles = self@.handles;
            self.handles.push(handle);
            self.made = self.made.wrapping_add(1);
            assert(self@.handles =~= handles.push(handle@));
            index = index + 1;
        }
        assert(told.take(told.len() as int) =~= told);
        self.managers.push(follower);
        assert(self@ =~= before.joined(follower, told, bound@));
        messages
    }

    fn close(&mut self, surface: SurfaceId, messages: &mut Vec<ToplevelMessage>)
        ensures
            final(self)@ == (Circle {
                handles: handles_without(old(self)@.handles, surface),
                ..old(self)@
            }),
            final(messages)@ == old(messages)@ + closing_messages(old(self)@.handles, surface),
    {
        let ghost all = self@.handles;
        let ghost before = messages@;
        let mut kept: Vec<ToplevelHandle> = Vec::new();
        let mut closed: Vec<ToplevelNotice> = Vec::new();
        closed.push(ToplevelNotice::Closed);
        assert(closed@ =~= seq![ToplevelNotice::Closed]);
        let mut index: usize = 0;
        assert(all.take(0) =~= seq![]);
        assert(acquaintances(kept@) =~= seq![]);
        assert(before + Seq::<ToplevelMessage>::empty() =~= before);
        while index < self.handles.len()
            invariant
                index <= self.handles.len(),
                all == self@.handles,
                self@ == old(self)@,
                closed@ == seq![ToplevelNotice::Closed],
                acquaintances(kept@) == handles_without(all.take(index as int), surface),
                messages@ == before + closing_messages(all.take(index as int), surface),
            decreases self.handles.len() - index,
        {
            assert(all.take(index + 1).drop_last() =~= all.take(index as int));
            let handle = &self.handles[index];
            assert(all[index as int] == handle@);
            let ghost told = closing_messages(all.take(index as int), surface);
            if handle.surface == surface {
                tell(messages, handle.manager, handle.id, surface, &closed);
                assert(messages@ =~= before + (told + about(
                    handle.manager,
                    handle.id,
                    surface,
                    closed@,
                )));
            } else {
                let ghost kept_before = acquaintances(kept@);
                kept.push(copy_handle(handle));
                assert(acquaintances(kept@) =~= kept_before.push(all[index as int]));
            }
            index = index + 1;
        }
        assert(all.take(all.len() as int) =~= all);
        self.handles = kept;
    }

    fn meet(
        &mut self,
        surface: SurfaceId,
        gist: Gist,
        bound: &Vec<OutputProxy>,
        messages: &mut Vec<ToplevelMessage>,
        Ghost(told): Ghost<Told>,
    )
        requires
            is_gist(gist, told),
            told.surface == surface,
        ensures
            final(self)@ == (Circle {
                handles: old(self)@.handles + Seq::new(
                    old(self)@.managers.len(),
                    |i: int|
                        met(old(self)@.managers[i], told, bound@, numbering::number(old(self).made, i)),
                ),
                made: numbering::number(old(self).made, old(self)@.managers.len() as int),
                ..old(self)@
            }),
            final(messages)@ == old(messages)@ + meetings(
                old(self)@.managers,
                told,
                bound@,
                old(self).made,
            ),
    {
        let ghost managers = self.managers@;
        let ghost known = self@.handles;
        let ghost made = self.made;
        let ghost before = messages@;
        let mut index: usize = 0;
        assert(managers.take(0) =~= seq![]);
        assert(before + Seq::<ToplevelMessage>::empty() =~= before);
        while index < self.managers.len()
            invariant
                index <= self.managers.len(),
                managers == self.managers@,
                is_gist(gist, told),
                told.surface == surface,
                self.made == numbering::number(made, index as int),
                self@.handles =~= known + Seq::new(
                    index as nat,
                    |i: int| met(managers[i], told, bound@, numbering::number(made, i)),
                ),
                messages@ == before + meetings(managers.take(index as int), told, bound@, made),
            decreases self.managers.len() - index,
        {
            assert(managers.take(index + 1).drop_last() =~= managers.take(index as int));
            let ghost earlier = meetings(managers.take(index as int), told, bound@, made);
            let follower = self.managers[index];
            let id: HandleId = self.made;
            let handle = introduce(messages, follower, surface, gist, bound, id, Ghost(told));
            assert(messages@ =~= before + (earlier + meeting(follower, told, bound@, id)));
            let ghost handles = self@.handles;
            self.handles.push(handle);
            self.made = self.made.wrapping_add(1);
            assert(self@.handles =~= handles.push(handle@));
            index = index + 1;
        }
        assert(managers.take(managers.len() as int) =~= managers);
    }

    fn renew(
        &mut self,
        surface: SurfaceId,
        gist: Gist,
        changes: Changes,
        bound: &Vec<OutputProxy>,
        messages: &mut Vec<ToplevelMessage>,
        Ghost(told): Ghost<Told>,
    )
        requires
            is_gist(gist, told),
            told.surface == surface,
        ensures
            final(self)@ == (Circle {
                handles: handles_updated(old(self)@.handles, told, changes, bound@),
                ..old(self)@
            }),
            final(messages)@ == old(messages)@ + update_messages(
                old(self)@.handles,
                told,
                changes,
                bound@,
            ),
    {
        let ghost all = self@.handles;
        let ghost managers = self.managers@;
        let ghost updated = handles_updated(all, told, changes, bound@);
        let ghost before = messages@;
        let mut index: usize = 0;
        assert(all.take(0) =~= seq![]);
        assert(before + Seq::<ToplevelMessage>::empty() =~= before);
        while index < self.handles.len()
            invariant
                index <= self.handles.len(),
                self.handles.len() == all.len(),
                updated == handles_updated(all, told, changes, bound@),
                managers == self.managers@,
                self.made == old(self).made,
                is_gist(gist, told),
                told.surface == surface,
                forall|i: int| 0 <= i < index ==> (#[trigger] self.handles@[i])@ == updated[i],
                forall|i: int|
                    index <= i < all.len() ==> (#[trigger] self.handles@[i])@ == all[i],
                messages@ == before + update_messages(
                    all.take(index as int),
                    told,
                    changes,
                    bound@,
                ),
            decreases self.handles.len() - index,
        {
            assert(all.take(index + 1).drop_last() =~= all.take(index as int));
            assert(self.handles@[index as int]@ == all[index as int]);
            let ghost earlier = update_messages(all.take(index as int), told, changes, bound@);
            if self.handles[index].surface == surface {
                let id: HandleId = self.handles[index].id;
                let manager = self.handles[index].manager;
                let client = self.handles[index].client;
                let entered = client_outputs(bound, client, gist.output);
                let mut notices: Vec<ToplevelNotice> = Vec::new();
                if changes.title && gist.title {
                    notices.push(ToplevelNotice::Title);
                }
                if changes.app_id && gist.app_id {
                    notices.push(ToplevelNotice::AppId);
                }
                if changes.states {
                    notices.push(ToplevelNotice::State);
                }
                let ghost all_entered = entered@;
                if changes.output {
                    push_leaving(&mut notices, &self.handles[index].outputs);
                    push_entering(&mut notices, &entered);
                }
                notices.push(ToplevelNotice::Done);
                assert(notices@ =~= update(
                    told,
                    changes,
                    all[index as int].outputs,
                    all_entered,
                ));
                tell(messages, manager, id, surface, &notices);
                assert(messages@ =~= before + (earlier + about(manager, id, surface, notices@)));
                if changes.output {
                    self.handles.set(
                        index,
                        ToplevelHandle { id, manager, client, surface, outputs: entered },
                    );
                }
            }
            index = index + 1;
        }
        assert(all.take(all.len() as int) =~= all);
        assert(self@.handles =~= updated);
    }

    fn prune(&mut self, bound: &Vec<OutputProxy>)
        ensures
            final(self)@ == old(self)@.pruned(bound@),
    {
        let ghost all = self@.handles;
        let ghost managers = self.managers@;
        let ghost pruned = self@.pruned(bound@).handles;
        let mut index: usize = 0;
        while index < self.handles.len()
            invariant
                index <= self.handles.len(),
                self.handles.len() == all.len(),
                managers == self.managers@,
                self.made == old(self).made,
                pruned == old(self)@.pruned(bound@).handles,
                all == old(self)@.handles,
                forall|i: int| 0 <= i < index ==> (#[trigger] self.handles@[i])@ == pruned[i],
                forall|i: int|
                    index <= i < all.len() ==> (#[trigger] self.handles@[i])@ == all[i],
            decreases self.handles.len() - index,
        {
            assert(self.handles@[index as int]@ == all[index as int]);
            let id: HandleId = self.handles[index].id;
            let manager = self.handles[index].manager;
            let client = self.handles[index].client;
            let surface = self.handles[index].surface;
            let outputs = keep_bound(&self.handles[index].outputs, bound);
            self.handles.set(index, ToplevelHandle { id, manager, client, surface, outputs });
            index = index + 1;
        }
        assert(self@ =~= old(self)@.pruned(bound@));
    }

    /// Takes in what other programs are to be told, where `state` is what they all are told then,
    /// and says who is told what, in order.
    pub fn deliver(
        &mut self,
        events: &Vec<ToplevelEvent>,
        state: &ForeignToplevelManagerState,
        bound: &Vec<OutputProxy>,
    ) -> (messages: Vec<ToplevelMessage>)
        ensures
            final(self)@ == old(self)@.informed(events@, state@, bound@).pruned(bound@),
            messages@ == old(self)@.messages(events@, state@, bound@),
    {
        let ghost before = self@;
        let mut messages: Vec<ToplevelMessage> = Vec::new();
        let mut index: usize = 0;
        assert(events@.take(0) =~= seq![]);
        while index < events.len()
            invariant
                index <= events.len(),
                self@ == before.informed(events@.take(index as int), state@, bound@),
                messages@ == before.messages(events@.take(index as int), state@, bound@),
            decreases events.len() - index,
        {
            assert(events@.take(index + 1).drop_last() =~= events@.take(index as int));
            match events[index] {
                ToplevelEvent::Closed(surface) => self.close(surface, &mut messages),
                ToplevelEvent::Created(surface) => {
                    let gist = gist_at(state, surface);
                    proof {
                        told_at_is_of(state@, surface);
                    }
                    self.meet(
                        surface,
                        gist,
                        bound,
                        &mut messages,
                        Ghost(told_at(state@, surface)),
                    );
                },
                ToplevelEvent::Changed { surface, title, app_id, states, output } => {
                    let gist = gist_at(state, surface);
                    proof {
                        told_at_is_of(state@, surface);
                    }
                    self.renew(
                        surface,
                        gist,
                        Changes { title, app_id, states, output },
                        bound,
                        &mut messages,
                        Ghost(told_at(state@, surface)),
                    );
                },
            }
            index = index + 1;
        }
        assert(events@.take(events@.len() as int) =~= events@);
        self.prune(bound);
        messages
    }

    /// A program comes to know an output. Says who is told what.
    pub fn on_output_bound(
        &mut self,
        proxy: OutputProxy,
        state: &ForeignToplevelManagerState,
    ) -> (messages: Vec<ToplevelMessage>)
        ensures
            final(self)@ == old(self)@.with_output(proxy, state@),
            messages@ == output_messages(old(self)@.handles, proxy, state@),
    {
        let ghost all = self@.handles;
        let ghost managers = self.managers@;
        let ghost after = self@.with_output(proxy, state@).handles;
        let mut messages: Vec<ToplevelMessage> = Vec::new();
        let mut notices: Vec<ToplevelNotice> = Vec::new();
        notices.push(ToplevelNotice::OutputEnter(proxy.id));
        notices.push(ToplevelNotice::Done);
        let ghost told = seq![ToplevelNotice::OutputEnter(proxy.id), ToplevelNotice::Done];
        assert(notices@ =~= told);
        let mut index: usize = 0;
        assert(all.take(0) =~= seq![]);
        while index < self.handles.len()
            invariant
                index <= self.handles.len(),
                self.handles.len() == all.len(),
                managers == self.managers@,
                self.made == old(self).made,
                all == old(self)@.handles,
                after == old(self)@.with_output(proxy, state@).handles,
                told == seq![ToplevelNotice::OutputEnter(proxy.id), ToplevelNotice::Done],
                notices@ == told,
                forall|i: int| 0 <= i < index ==> (#[trigger] self.handles@[i])@ == after[i],
                forall|i: int|
                    index <= i < all.len() ==> (#[trigger] self.handles@[i])@ == all[i],
                messages@ == output_messages(all.take(index as int), proxy, state@),
            decreases self.handles.len() - index,
        {
            assert(all.take(index + 1).drop_last() =~= all.take(index as int));
            assert(self.handles@[index as int]@ == all[index as int]);
            let id: HandleId = self.handles[index].id;
            let manager = self.handles[index].manager;
            let client = self.handles[index].client;
            let surface = self.handles[index].surface;
            let gist = gist_at(state, surface);
            let shown = match gist.output {
                Some(output) => output == proxy.output,
                None => false,
            };
            if client == proxy.client && shown {
                tell(&mut messages, manager, id, surface, &notices);
                let mut outputs: Vec<ProxyId> = Vec::new();
                outputs.extend_from_slice(self.handles[index].outputs.as_slice());
                assert(outputs@ =~= all[index as int].outputs);
                outputs.push(proxy.id);
                self.handles.set(index, ToplevelHandle { id, manager, client, surface, outputs });
            }
            index = index + 1;
        }
        assert(all.take(all.len() as int) =~= all);
        assert(self@ =~= old(self)@.with_output(proxy, state@));
        messages
    }

    /// A manager is done following, or is no longer there: it meets no new window. In the first
    /// case it is to be told that this is finished.
    pub fn stop(&mut self, manager: ManagerId)
        ensures
            final(self)@ == (Circle {
                managers: managers_without(old(self)@.managers, manager),
                ..old(self)@
            }),
    {
        let ghost all = self.managers@;
        let mut kept: Vec<ToplevelFollower> = Vec::new();
        let mut index: usize = 0;
        assert(all.take(0) =~= seq![]);
        while index < self.managers.len()
            invariant
                index <= self.managers.len(),
                all == self.managers@,
                self@ == old(self)@,
                kept@ == managers_without(all.take(index as int), manager),
            decreases self.managers.len() - index,
        {
            assert(all.take(index + 1).drop_last() =~= all.take(index as int));
            if self.managers[index].id != manager {
                kept.push(self.managers[index]);
            }
            index = index + 1;
        }
        assert(all.take(all.len() as int) =~= all);
        self.managers = kept;
    }

    /// A manager gives a handle up; where it had given way to another one, nothing happens.
    pub fn handle_destroyed(&mut self, handle: HandleId)
        ensures
            final(self)@ == (Circle {
                handles: handles_forgotten(old(self)@.handles, handle),
                ..old(self)@
            }),
    {
        let ghost all = self@.handles;
        let mut kept: Vec<ToplevelHandle> = Vec::new();
        let mut index: usize = 0;
        assert(all.take(0) =~= seq![]);
        assert(acquaintances(kept@) =~= seq![]);
        while index < self.handles.len()
            invariant
                index <= self.handles.len(),
                all == self@.handles,
                self@ == old(self)@,
                acquaintances(kept@) == handles_forgotten(all.take(index as int), handle),
            decreases self.handles.len() - index,
        {
            assert(all.take(index + 1).drop_last() =~= all.take(index as int));
            let known = &self.handles[index];
            assert(all[index as int] == known@);
            if known.id != handle {
                let ghost kept_before = acquaintances(kept@);
                kept.push(copy_handle(known));
                assert(acquaintances(kept@) =~= kept_before.push(all[index as int]));
            }
            index = index + 1;
        }
        assert(all.take(all.len() as int) =~= all);
        self.handles = kept;
    }

    /// The window that is known by a handle: what is asked by any other handle is ignored.
    pub fn surface_of(&self, handle: HandleId) -> (surface: Option<SurfaceId>)
        ensures
            surface == known_by(self@.handles, handle),
    {
        let ghost all = self@.handles;
        let mut index: usize = 0;
        assert(all.skip(0) =~= all);
        while index < self.handles.len()
            invariant
                index <= self.handles.len(),
                all == self@.handles,
                known_by(all, handle) == known_by(all.skip(index as int), handle),
            decreases self.handles.len() - index,
        {
            assert(all.skip(index as int).skip(1) =~= all.skip(index + 1));
            assert(all[index as int] == self.handles[index as int]@);
            if self.handles[index].id == handle {
                return Some(self.handles[index].surface);
            }
            index = index + 1;
        }
        None
    }
}

proof fn told_at_is_of(told: Seq<Told>, surface: SurfaceId)
    ensures
        told_at(told, surface).surface == surface,
{
    foreign_toplevel::place_is_there(told, surface);
}

fn copy_handle(handle: &ToplevelHandle) -> (copy: ToplevelHandle)
    ensures
        copy@ == handle@,
{
    let mut outputs: Vec<ProxyId> = Vec::new();
    outputs.extend_from_slice(handle.outputs.as_slice());
    assert(outputs@ =~= handle.outputs@);
    ToplevelHandle {
        id: handle.id,
        manager: handle.manager,
        client: handle.client,
        surface: handle.surface,
        outputs,
    }
}

fn keep_bound(ids: &Vec<ProxyId>, bound: &Vec<OutputProxy>) -> (kept: Vec<ProxyId>)
    ensures
        kept@ == still_bound(ids@, bound@),
{
    let mut kept: Vec<ProxyId> = Vec::new();
    let mut index: usize = 0;
    assert(ids@.take(0) =~= seq![]);
    while index < ids.len()
        invariant
            index <= ids.len(),
            kept@ == still_bound(ids@.take(index as int), bound@),
        decreases ids.len() - index,
    {
        assert(ids@.take(index + 1).drop_last() =~= ids@.take(index as int));
        if has_proxy(bound, ids[index]) {
            kept.push(ids[index]);
        }
        index = index + 1;
    }
    assert(ids@.take(ids@.len() as int) =~= ids@);
    kept
}

fn has_proxy(bound: &Vec<OutputProxy>, id: ProxyId) -> (result: bool)
    ensures
        result == is_bound(bound@, id),
{
    let mut index: usize = 0;
    while index < bound.len()
        invariant
            index <= bound.len(),
            forall|i: int| 0 <= i < index ==> (#[trigger] bound@[i]).id != id,
        decreases bound.len() - index,
    {
        if bound[index].id == id {
            assert(bound@[index as int].id == id);
            return true;
        }
        index = index + 1;
    }
    false
}

} // verus!
