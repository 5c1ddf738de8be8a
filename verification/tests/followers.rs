//! The programs that follow workspaces and windows: who is told what.

use raven::config::runtime::RuntimeConfig;
use raven::geometry::{Point, Rectangle, Size};
use raven::protocols::ext_workspace::{
    build_workspace_coordinates, ExtWorkspaceManagerState, WorkspaceEvent,
};
use raven::protocols::foreign_toplevel::{
    ForeignToplevelManagerState, ToplevelData, ToplevelEvent,
};
use raven::protocols::toplevel_clients::{
    OutputProxy, ToplevelClients, ToplevelFollower, ToplevelMessage, ToplevelNotice,
};
use raven::protocols::workspace_clients::{WorkspaceClients, WorkspaceMessage};
use raven::state::raven::Raven;
use raven::state::space::Output;

fn rect(x: i32, y: i32, w: i32, h: i32) -> Rectangle {
    Rectangle { loc: Point { x, y }, size: Size { w, h } }
}

fn output(id: u64) -> Output {
    Output { id, geometry: Some(rect(0, 0, 100, 100)), work_area: rect(0, 0, 100, 100) }
}

fn workspace(to: u64, event: WorkspaceEvent) -> WorkspaceMessage {
    WorkspaceMessage { to, event, group: None }
}

fn group(to: u64, output: u64, handle: u64) -> WorkspaceMessage {
    WorkspaceMessage { to, event: WorkspaceEvent::GroupCreated(output), group: Some(handle) }
}

fn window(
    to: u64,
    handle: u64,
    surface: u64,
    notices: &[ToplevelNotice],
) -> Vec<ToplevelMessage> {
    notices.iter().map(|notice| ToplevelMessage { to, handle, surface, notice: *notice }).collect()
}

fn told(surface: u64, title: Option<&str>, output: Option<u64>) -> ToplevelData {
    ToplevelData {
        surface,
        title: title.map(|title| title.to_string()),
        app_id: None,
        states: vec![2],
        output,
    }
}

#[test]
fn a_follower_is_introduced() {
    let mut raven = Raven::new(RuntimeConfig::default());
    raven.map_output(output(5));
    let mut state = ExtWorkspaceManagerState::new();
    let events = raven.refresh_ext_workspace(&mut state);
    let mut clients = WorkspaceClients::new();
    assert!(clients.deliver(&events).is_empty());
    let messages = clients.bind(1, 100, &state);
    assert_eq!(messages.len(), 1 + 10 + 10 + 1);
    assert_eq!(messages[0], group(1, 5, 0));
    assert_eq!(messages[1], workspace(1, WorkspaceEvent::Created(0)));
    assert_eq!(messages[10], workspace(1, WorkspaceEvent::Created(9)));
    assert_eq!(messages[11], workspace(1, WorkspaceEvent::Enter(0, 5)));
    assert_eq!(messages[21], workspace(1, WorkspaceEvent::Done));
    assert_eq!(clients.groups.len(), 1);
    assert_eq!(clients.workspaces.len(), 10);
    assert_eq!(build_workspace_coordinates(4), (0, 4));
    // Binding the same manager again starts it anew.
    clients.activate(1, 2);
    clients.bind(1, 100, &state);
    assert_eq!(clients.followers.len(), 1);
    assert!(clients.followers[0].queue.indices.is_empty());
}

#[test]
fn followers_hear_what_they_know() {
    let mut clients = WorkspaceClients::new();
    let empty = ExtWorkspaceManagerState::new();
    assert_eq!(clients.bind(1, 100, &empty), vec![workspace(1, WorkspaceEvent::Done)]);
    clients.bind(2, 100, &empty);
    let events = vec![
        WorkspaceEvent::GroupCreated(5),
        WorkspaceEvent::Created(0),
        WorkspaceEvent::Enter(0, 5),
        WorkspaceEvent::Done,
    ];
    let messages = clients.deliver(&events);
    let mut expected = vec![group(1, 5, 0), group(2, 5, 1)];
    expected.extend(
        events[1..].iter().flat_map(|event| [workspace(1, *event), workspace(2, *event)]),
    );
    assert_eq!(messages, expected);
    // Of a workspace in a group only those hear who know both; of its state those who know it.
    clients.workspace_destroyed(1, 0);
    clients.group_destroyed(1);
    assert!(clients.deliver(&vec![WorkspaceEvent::Leave(0, 5)]).is_empty());
    assert_eq!(
        clients.deliver(&vec![WorkspaceEvent::State(0, true), WorkspaceEvent::State(1, true)]),
        vec![workspace(2, WorkspaceEvent::State(0, true))]
    );
    assert_eq!(
        clients.deliver(&vec![WorkspaceEvent::GroupRemoved(5), WorkspaceEvent::GroupRemoved(5)]),
        vec![workspace(1, WorkspaceEvent::GroupRemoved(5))]
    );
}

#[test]
fn a_stopped_follower_hears_nothing() {
    let mut clients = WorkspaceClients::new();
    clients.bind(1, 100, &ExtWorkspaceManagerState::new());
    let events = vec![WorkspaceEvent::GroupCreated(5), WorkspaceEvent::Created(0)];
    clients.deliver(&events);
    clients.stop(1);
    let news = vec![
        WorkspaceEvent::Enter(0, 5),
        WorkspaceEvent::State(0, true),
        WorkspaceEvent::Created(1),
        WorkspaceEvent::Done,
    ];
    assert!(clients.deliver(&news).is_empty());
    // One that is only gone still hears by what it knows, but of nothing new.
    clients.bind(2, 100, &ExtWorkspaceManagerState::new());
    clients.deliver(&events);
    clients.destroyed(2);
    assert_eq!(
        clients.deliver(&news),
        vec![
            workspace(2, WorkspaceEvent::Enter(0, 5)),
            workspace(2, WorkspaceEvent::State(0, true)),
        ]
    );
}

#[test]
fn what_is_asked_for_is_done_once() {
    let mut raven = Raven::new(RuntimeConfig::default());
    let mut clients = WorkspaceClients::new();
    let mut state = ExtWorkspaceManagerState::new();
    raven.refresh_ext_workspace(&mut state);
    clients.bind(1, 100, &state);
    clients.activate(1, 3);
    clients.activate(1, 4);
    clients.activate(1, 10);
    clients.activate(2, 5);
    assert_eq!(clients.followers[0].queue.indices, vec![3, 4]);
    clients.commit(2, &mut raven);
    assert_eq!(raven.current_workspace, 0);
    clients.commit(1, &mut raven);
    assert_eq!(raven.current_workspace, 4);
    let _ = raven.switch_workspace(0);
    clients.commit(1, &mut raven);
    assert_eq!(raven.current_workspace, 0);
}

#[test]
fn outputs_are_met_later() {
    let mut clients = WorkspaceClients::new();
    clients.bind(1, 100, &ExtWorkspaceManagerState::new());
    clients.bind(2, 100, &ExtWorkspaceManagerState::new());
    clients.bind(3, 200, &ExtWorkspaceManagerState::new());
    assert!(clients.on_output_bound(100, 5).done.is_empty());
    clients.deliver(&vec![WorkspaceEvent::GroupCreated(5)]);
    clients.group_destroyed(1);
    let bound = clients.on_output_bound(100, 5);
    assert_eq!(bound.entered, vec![1]);
    assert_eq!(bound.done, vec![1, 2]);
    assert!(clients.on_output_bound(100, 6).entered.is_empty());
}

#[test]
fn windows_are_introduced() {
    let mut clients = ToplevelClients::new();
    let mut state = ForeignToplevelManagerState::new();
    let bound = vec![
        OutputProxy { id: 31, client: 100, output: 5 },
        OutputProxy { id: 32, client: 200, output: 5 },
        OutputProxy { id: 33, client: 100, output: 6 },
    ];
    state.refresh_toplevel(told(7, Some("a"), Some(5)));
    state.refresh_toplevel(told(8, None, None));
    let messages = clients.bind(ToplevelFollower { id: 1, client: 100 }, &state, &bound);
    let mut expected = window(
        1,
        0,
        7,
        &[
            ToplevelNotice::New,
            ToplevelNotice::Title,
            ToplevelNotice::State,
            ToplevelNotice::OutputEnter(31),
            ToplevelNotice::Done,
        ],
    );
    expected.extend(window(
        1,
        1,
        8,
        &[ToplevelNotice::New, ToplevelNotice::State, ToplevelNotice::Done],
    ));
    assert_eq!(messages, expected);
    assert_eq!(clients.surface_of(0), Some(7));
    assert_eq!(clients.surface_of(1), Some(8));
    assert_eq!(clients.surface_of(2), None);
    assert_eq!(clients.handles[0].outputs, vec![31]);
}

#[test]
fn windows_are_followed() {
    let mut clients = ToplevelClients::new();
    let mut state = ForeignToplevelManagerState::new();
    let bound = vec![
        OutputProxy { id: 31, client: 100, output: 5 },
        OutputProxy { id: 33, client: 100, output: 6 },
    ];
    clients.bind(ToplevelFollower { id: 1, client: 100 }, &state, &bound);
    clients.bind(ToplevelFollower { id: 2, client: 200 }, &state, &bound);
    let event = state.refresh_toplevel(told(7, None, Some(5))).unwrap();
    assert_eq!(event, ToplevelEvent::Created(7));
    assert_eq!(clients.deliver(&vec![event], &state, &bound).len(), 4 + 3);
    // A title that is new is told; the window leaves just the outputs that it entered.
    let event = state.refresh_toplevel(told(7, Some("a"), Some(6))).unwrap();
    let mut expected = window(
        1,
        0,
        7,
        &[
            ToplevelNotice::Title,
            ToplevelNotice::OutputLeave(31),
            ToplevelNotice::OutputEnter(33),
            ToplevelNotice::Done,
        ],
    );
    expected.extend(window(2, 1, 7, &[ToplevelNotice::Title, ToplevelNotice::Done]));
    assert_eq!(clients.deliver(&vec![event], &state, &bound), expected);
    // A title that is gone is not told.
    let event = state.refresh_toplevel(told(7, None, Some(6))).unwrap();
    clients.handle_destroyed(1);
    assert_eq!(
        clients.deliver(&vec![event], &state, &bound),
        window(1, 0, 7, &[ToplevelNotice::Done])
    );
    // A program that meets the output later is told then; an output it forgot is not left.
    let proxy = OutputProxy { id: 34, client: 100, output: 6 };
    assert_eq!(
        clients.on_output_bound(proxy, &state),
        window(1, 0, 7, &[ToplevelNotice::OutputEnter(34), ToplevelNotice::Done])
    );
    assert_eq!(clients.handles[0].outputs, vec![33, 34]);
    assert!(clients.deliver(&vec![], &state, &vec![proxy]).is_empty());
    assert_eq!(clients.handles[0].outputs, vec![34]);
    assert_eq!(
        clients.deliver(&vec![ToplevelEvent::Closed(7)], &state, &bound),
        window(1, 0, 7, &[ToplevelNotice::Closed])
    );
    assert_eq!(clients.surface_of(0), None);
}

#[test]
fn a_stopped_follower_meets_no_window() {
    let mut clients = ToplevelClients::new();
    let mut state = ForeignToplevelManagerState::new();
    let bound = vec![];
    clients.bind(ToplevelFollower { id: 1, client: 100 }, &state, &bound);
    let event = state.refresh_toplevel(told(7, None, None)).unwrap();
    clients.deliver(&vec![event], &state, &bound);
    clients.stop(1);
    let first = state.refresh_toplevel(told(8, None, None)).unwrap();
    let second = state.refresh_toplevel(told(7, Some("a"), None)).unwrap();
    assert_eq!(
        clients.deliver(&vec![first, second], &state, &bound),
        window(1, 0, 7, &[ToplevelNotice::Title, ToplevelNotice::Done])
    );
}

#[test]
fn old_handles_are_ignored() {
    let mut clients = ToplevelClients::new();
    let mut state = ForeignToplevelManagerState::new();
    let bound = vec![];
    clients.bind(ToplevelFollower { id: 1, client: 100 }, &state, &bound);
    let event = state.refresh_toplevel(told(7, None, None)).unwrap();
    clients.deliver(&vec![event], &state, &bound);
    assert_eq!(clients.surface_of(0), Some(7));
    // The window goes and is told of again: it has a new handle.
    let again = vec![ToplevelEvent::Closed(7), ToplevelEvent::Created(7)];
    let messages = clients.deliver(&again, &state, &bound);
    assert_eq!(messages[0].handle, 0);
    assert_eq!(messages[1].handle, 1);
    assert_eq!(clients.surface_of(0), None);
    assert_eq!(clients.surface_of(1), Some(7));
    clients.handle_destroyed(0);
    assert_eq!(clients.surface_of(1), Some(7));
    clients.handle_destroyed(1);
    assert_eq!(clients.surface_of(1), None);
}

#[test]
fn old_groups_are_ignored() {
    let mut clients = WorkspaceClients::new();
    clients.bind(1, 100, &ExtWorkspaceManagerState::new());
    let again = vec![
        WorkspaceEvent::GroupCreated(5),
        WorkspaceEvent::GroupRemoved(5),
        WorkspaceEvent::GroupCreated(5),
    ];
    assert_eq!(
        clients.deliver(&again),
        vec![group(1, 5, 0), workspace(1, WorkspaceEvent::GroupRemoved(5)), group(1, 5, 1)]
    );
    clients.group_destroyed(0);
    assert_eq!(clients.on_output_bound(100, 5).entered, vec![1]);
    clients.group_destroyed(1);
    assert!(clients.on_output_bound(100, 5).entered.is_empty());
}
