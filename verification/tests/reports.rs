//! The socket, the command line, the pointer's picture and what other programs are told.

use raven::cli::{
    choose_ipc_socket, ipc_answer, is_nested, is_session_socket, parse_args, BackendKind, Launch,
};
use raven::config::runtime::RuntimeConfig;
use raven::cursor::{
    cursor_size_from_env, fallback_cursor_image, frame, load_default_cursor, CursorFailure,
    CursorImage, CursorImageStatus, CursorThemeManager, PointerElement, PointerImages,
    PointerRenderElement,
};
use raven::geometry::{Point, Rectangle, Size};
use raven::ipc::{
    ipc_read_failure, ipc_refusal, ipc_reload_answer, ipc_socket_name_for_wayland_socket,
    parse_ipc_request, write_thousandths, ClientFacts, IpcRequest, MonitorFacts, ReportedMode,
};
use raven::protocols::ext_workspace::{
    build_workspace_name, ActivationQueue, ExtWorkspaceManagerState, WorkspaceEvent,
};
use raven::protocols::foreign_toplevel::{
    to_state_vec, ForeignToplevelManagerState, ToplevelEvent, WindowFacts,
};
use raven::state::raven::Raven;
use raven::state::space::{Element, Output};
use raven::state::toplevel::Toplevel;

fn rect(x: i32, y: i32, w: i32, h: i32) -> Rectangle {
    Rectangle { loc: Point { x, y }, size: Size { w, h } }
}

fn output(id: u64, geometry: Option<Rectangle>) -> Output {
    Output { id, geometry, work_area: rect(0, 0, 100, 100) }
}

fn raven() -> Raven {
    Raven::new(RuntimeConfig::default())
}

fn texts(list: &[&str]) -> Vec<String> {
    list.iter().map(|word| word.to_string()).collect()
}

#[test]
fn requests_are_understood() {
    assert!(matches!(parse_ipc_request(" clients\n"), IpcRequest::Clients));
    assert!(matches!(parse_ipc_request("monitors"), IpcRequest::Monitors));
    assert!(matches!(parse_ipc_request("reload"), IpcRequest::Reload));
    assert!(matches!(parse_ipc_request(" \n"), IpcRequest::Empty));
    assert!(matches!(parse_ipc_request("quit now"), IpcRequest::Unsupported(word) if word == "quit now"));
    assert_eq!(
        ipc_refusal(Some("quit")),
        "error: unsupported command `quit` (supported: clients, monitors, reload)\n"
    );
    assert_eq!(
        ipc_refusal(None),
        "error: empty command (supported: clients, monitors, reload)\n"
    );
    assert_eq!(ipc_reload_answer(None), "ok\n");
    assert_eq!(ipc_reload_answer(Some("bad")), "error: bad\n");
    assert_eq!(ipc_read_failure("gone"), "error: failed to read request: gone\n");
}

#[test]
fn socket_has_a_name() {
    assert_eq!(
        ipc_socket_name_for_wayland_socket(true, " wayland-1 ").unwrap(),
        "raven-wayland-1.sock"
    );
    assert_eq!(
        ipc_socket_name_for_wayland_socket(false, "wayland-1").unwrap_err().message(),
        "XDG_RUNTIME_DIR is not set; cannot create ipc socket"
    );
    assert_eq!(
        ipc_socket_name_for_wayland_socket(true, " ").unwrap_err().message(),
        "wayland socket name is empty; cannot create ipc socket"
    );
}

#[test]
fn clients_are_reported() {
    let mut raven = raven();
    assert_eq!(raven.handle_ipc_stream("clients", &vec![], &vec![]).unwrap(), "No clients.\n");
    raven.add_window_to_workspace(2, 7);
    raven.add_unmapped_window_to_workspace(0, 8);
    raven.elements.push(Element { window: 7, location: Point { x: 0, y: 0 } });
    raven.set_window_floating(7, true);
    raven.keyboard_focus = Some(7);
    let facts = vec![ClientFacts {
        window: 7,
        surface: "wl_surface@7".to_string(),
        app_id: Some("foot".to_string()),
        title: None,
    }];
    assert_eq!(
        raven.render_clients_report(&facts),
        "Client 1:\n  surface: wl_surface@7\n  class: foot\n  title: <untitled>\n  workspace: 3\n  \
         mapped: true\n  floating: true\n  fullscreen: false\n  focused: true\n\n\
         Client 2:\n  surface: 8\n  class: <unknown>\n  title: <untitled>\n  workspace: 1\n  \
         mapped: false\n  floating: false\n  fullscreen: false\n  focused: false\n\n"
    );
    assert_eq!(raven.all_windows(), vec![7, 8]);
    assert_eq!(raven.shown_windows(), vec![7]);
    assert!(raven.handle_ipc_stream("reload", &vec![], &vec![]).is_none());
    assert_eq!(raven.handle_ipc_stream("", &vec![], &vec![]).unwrap(), ipc_refusal(None));
    assert_eq!(raven.handle_ipc_stream("x", &vec![], &vec![]).unwrap(), ipc_refusal(Some("x")));
}

#[test]
fn monitors_are_reported() {
    let mut raven = raven();
    assert_eq!(raven.render_monitors_report(&vec![]), "No monitors.\n");
    raven.map_output(output(1, None));
    raven.map_output(output(2, Some(rect(1920, 0, 800, 600))));
    raven.map_output(output(3, Some(rect(0, -5, 1920, 1080))));
    let facts = |id: u64, name: &str, mode: Option<ReportedMode>| MonitorFacts {
        id,
        name: name.to_string(),
        mode,
        scale: "1.000".to_string(),
    };
    let list = vec![
        facts(1, "A", None),
        facts(2, "B", Some(ReportedMode { width: 800, height: 600, refresh: 0 })),
        facts(3, "C", Some(ReportedMode { width: 1920, height: 1080, refresh: 59940 })),
    ];
    assert_eq!(
        raven.handle_ipc_stream("monitors", &vec![], &list).unwrap(),
        "Monitor 1:\n  name: C\n  mode: 1920x1080@59.940\n  position: 0, -5\n  \
         logical_size: 1920x1080\n  scale: 1.000\n\n\
         Monitor 2:\n  name: B\n  mode: 800x600\n  position: 1920, 0\n  \
         logical_size: 800x600\n  scale: 1.000\n\n\
         Monitor 3:\n  name: A\n  mode: <unknown>\n  position: <unknown>\n  \
         logical_size: <unknown>\n  scale: 1.000\n\n"
    );
    assert_eq!(write_thousandths(1005), "1.005");
    assert_eq!(write_thousandths(60_000), "60.000");
    assert_eq!(write_thousandths(42), "0.042");
}

#[test]
fn command_line_is_read() {
    let run = |args: &[&str], nested: bool| parse_args(&texts(args), nested).unwrap();
    assert!(matches!(run(&["raven", "monitors"], false), Launch::Ipc(word) if word == "monitors"));
    assert!(matches!(run(&["raven", "reload"], true), Launch::Ipc(word) if word == "reload"));
    assert!(matches!(
        run(&["raven"], true),
        Launch::Run { backend: BackendKind::Winit, spawn: None }
    ));
    assert!(matches!(
        run(&["raven", "--tty", "foot", "bar"], true),
        Launch::Run { backend: BackendKind::Drm, spawn: Some(command) } if command == "foot"
    ));
    assert!(matches!(
        run(&["raven", "--winit", "clients"], false),
        Launch::Run { backend: BackendKind::Winit, spawn: Some(command) } if command == "clients"
    ));
    assert!(matches!(
        run(&["raven"], false),
        Launch::Run { backend: BackendKind::Drm, spawn: None }
    ));
    assert_eq!(
        parse_args(&texts(&["raven", "--winit", "--drm"]), false).unwrap_err().message(),
        "cannot pass both --winit and --drm/--tty"
    );
    assert!(is_nested(None, Some(":0")));
    assert!(!is_nested(None, None));
}

#[test]
fn session_is_chosen() {
    assert!(is_session_socket("raven-wayland-1.sock"));
    assert!(!is_session_socket("raven-wayland-1"));
    let names = texts(&["bus", "raven-wayland-1.sock", "wayland-1"]);
    assert_eq!(choose_ipc_socket(None, &names).unwrap(), "raven-wayland-1.sock");
    assert_eq!(choose_ipc_socket(Some("own".to_string()), &names).unwrap(), "own");
    assert_eq!(
        choose_ipc_socket(None, &texts(&["bus"])).unwrap_err().message(),
        "Raven ipc socket not found (is Raven running?)"
    );
    assert_eq!(
        choose_ipc_socket(None, &texts(&["raven-wayland-1.sock", "raven-wayland-2.sock"]))
            .unwrap_err()
            .message(),
        "multiple Raven sessions detected; set WAYLAND_DISPLAY to select one"
    );
    assert_eq!(ipc_answer("ok\n".to_string()).unwrap(), "ok\n");
    assert_eq!(
        ipc_answer(String::new()).unwrap_err().message(),
        "empty response from compositor ipc"
    );
}

fn image(size: u32, delay: u32, mark: u8) -> CursorImage {
    CursorImage {
        size,
        width: size,
        height: size,
        xhot: 0,
        yhot: 0,
        delay,
        pixels_rgba: vec![mark],
    }
}

#[test]
fn pointer_images_follow_the_time() {
    let images = vec![image(24, 10, 1), image(48, 99, 2), image(24, 20, 3)];
    let shown = |millis: u32, size: u32| frame(millis, size, &images).pixels_rgba[0];
    assert_eq!(shown(0, 24), 1);
    assert_eq!(shown(9, 25), 1);
    assert_eq!(shown(10, 24), 3);
    assert_eq!(shown(29, 24), 3);
    assert_eq!(shown(30, 24), 1);
    assert_eq!(shown(5, 40), 2);
    // Where two sizes are as near, the first counts.
    assert_eq!(shown(0, 36), 1);
    assert_eq!(frame(7, 24, &vec![image(24, 0, 9)]).pixels_rgba, vec![9]);
}

/// A cursor file with one image of four times four pixels.
fn cursor_file() -> Vec<u8> {
    let mut file = vec![
        0x58, 0x63, 0x75, 0x72, 0x10, 0, 0, 0, 0, 0, 1, 0, 1, 0, 0, 0, 2, 0, 0xFD, 0xFF, 4, 0, 0, 0,
        0x1C, 0, 0, 0, 0x24, 0, 0, 0, 2, 0, 0xFD, 0xFF, 4, 0, 0, 0, 1, 0, 0, 0, 4, 0, 0, 0, 4, 0, 0,
        0, 1, 0, 0, 0, 2, 0, 0, 0, 7, 0, 0, 0,
    ];
    for _ in 0..16 {
        file.extend_from_slice(&[1, 2, 3, 4]);
    }
    file
}

#[test]
fn cursor_files_are_read() {
    let images = load_default_cursor(Some(&cursor_file())).unwrap();
    assert_eq!(images.len(), 1);
    assert_eq!((images[0].size, images[0].width, images[0].height), (4, 4, 4));
    assert_eq!((images[0].xhot, images[0].yhot, images[0].delay), (1, 2, 7));
    assert_eq!(images[0].pixels_rgba.len(), 64);
    assert_eq!(images[0].pixels_rgba[..4], [1, 2, 3, 4]);
    assert_eq!(load_default_cursor(Some(&vec![1, 2, 3])).unwrap_err(), CursorFailure::BadFile);
    assert_eq!(load_default_cursor(None).unwrap_err(), CursorFailure::NoFile);
}

#[test]
fn theme_has_a_fallback() {
    let manager = CursorThemeManager::load(None, Some("32"));
    assert_eq!(manager.size, 32);
    assert_eq!(manager.image(2, 5).width, 24);
    let manager = CursorThemeManager::load(Some(&cursor_file()), None);
    assert_eq!(manager.size, 24);
    assert_eq!(manager.image(u32::MAX, 5).width, 4);
    assert_eq!(cursor_size_from_env(Some("big")), 24);
}

#[test]
fn fallback_is_an_arrow() {
    let arrow = fallback_cursor_image();
    assert_eq!((arrow.width, arrow.height, arrow.xhot, arrow.yhot), (24, 24, 1, 1));
    assert_eq!(arrow.pixels_rgba.len(), 24 * 24 * 4);
    let pixel = |x: usize, y: usize| {
        let at = (y * 24 + x) * 4;
        arrow.pixels_rgba[at..at + 4].to_vec()
    };
    assert_eq!(pixel(0, 0), vec![0, 0, 0, 255]);
    assert_eq!(pixel(1, 0), vec![0, 0, 0, 255]);
    assert_eq!(pixel(2, 0), vec![255, 255, 255, 255]);
    assert_eq!(pixel(4, 0), vec![0, 0, 0, 0]);
    assert_eq!(pixel(8, 22), vec![0, 0, 0, 255]);
    assert_eq!(pixel(9, 23), vec![255, 255, 255, 255]);
    assert_eq!(pixel(23, 23), vec![0, 0, 0, 0]);
}

#[test]
fn pointer_looks_as_it_should() {
    let mut element = PointerElement::default();
    assert_eq!(element.render_elements(), None);
    element.set_buffer(3);
    assert_eq!(element.render_elements(), Some(PointerRenderElement::Memory(3)));
    element.set_status(CursorImageStatus::Hidden);
    assert_eq!(element.render_elements(), None);
    let drawn = CursorImageStatus::Surface(9);
    element.set_status(drawn);
    assert_eq!(element.render_elements(), Some(PointerRenderElement::Surface(9)));
    assert_eq!(drawn.outlast(true), drawn);
    assert_eq!(drawn.outlast(false), CursorImageStatus::default_named());
    assert_eq!(CursorImageStatus::Hidden.outlast(false), CursorImageStatus::Hidden);
    assert_eq!(drawn.hotspot(Some(Point { x: 2, y: 3 })), Point { x: 2, y: 3 });
    assert_eq!(drawn.hotspot(None), Point { x: 0, y: 0 });
    assert_eq!(CursorImageStatus::Named.hotspot(Some(Point { x: 2, y: 3 })), Point { x: 0, y: 0 });
}

#[test]
fn pointer_images_are_kept_once() {
    let mut images = PointerImages::new();
    assert_eq!(images.buffer_for(fallback_cursor_image(), 4), 4);
    assert_eq!(images.buffer_for(fallback_cursor_image(), 5), 4);
    let mut other = fallback_cursor_image();
    other.pixels_rgba[0] ^= 1;
    assert_eq!(images.buffer_for(other, 5), 5);
    let mut later = fallback_cursor_image();
    later.delay += 1;
    assert_eq!(images.buffer_for(later, 6), 6);
    assert_eq!(images.buffer_for(fallback_cursor_image(), 7), 4);
    assert_eq!(images.images.len(), 3);
}

#[test]
fn workspaces_are_told() {
    let mut raven = raven();
    let mut manager = ExtWorkspaceManagerState::new();
    raven.map_output(output(5, Some(rect(0, 0, 100, 100))));
    let events = raven.refresh_ext_workspace(&mut manager);
    assert_eq!(events.len(), 1 + 20 + 1);
    assert_eq!(
        events[..3],
        [
            WorkspaceEvent::GroupCreated(5),
            WorkspaceEvent::Created(0),
            WorkspaceEvent::Enter(0, 5),
        ]
    );
    assert_eq!(events.last(), Some(&WorkspaceEvent::Done));
    assert!(manager.workspaces[0].active);
    assert!(raven.refresh_ext_workspace(&mut manager).is_empty());
    let mut queue = ActivationQueue::new();
    queue.activate(3);
    queue.activate(99);
    queue.commit(&mut raven);
    assert_eq!(raven.current_workspace, 3);
    assert!(queue.indices.is_empty());
    assert_eq!(
        raven.refresh_ext_workspace(&mut manager),
        vec![
            WorkspaceEvent::State(0, false),
            WorkspaceEvent::State(3, true),
            WorkspaceEvent::Done,
        ]
    );
    raven.unmap_output(5);
    assert_eq!(
        raven.refresh_ext_workspace(&mut manager),
        vec![WorkspaceEvent::GroupRemoved(5), WorkspaceEvent::Done]
    );
    raven.map_output(output(6, None));
    raven.refresh_ext_workspace(&mut manager);
    raven.outputs.insert(0, output(7, None));
    let events = raven.refresh_ext_workspace(&mut manager);
    assert_eq!(
        events[..3],
        [
            WorkspaceEvent::GroupCreated(7),
            WorkspaceEvent::Leave(0, 6),
            WorkspaceEvent::Enter(0, 7),
        ]
    );
    assert_eq!(build_workspace_name(9), "10");
}

#[test]
fn windows_are_told() {
    let mut raven = raven();
    raven.map_output(output(5, Some(rect(0, 0, 100, 100))));
    raven.set_toplevel(7, Toplevel { live: true, ..Toplevel::new() });
    raven.add_window_to_workspace(0, 7);
    raven.elements.push(Element { window: 7, location: Point { x: 0, y: 0 } });
    let mut manager = ForeignToplevelManagerState::new();
    let facts = |title: &str, maximized: bool| {
        vec![WindowFacts {
            surface: 7,
            title: Some(title.to_string()),
            app_id: None,
            maximized,
            fullscreen: false,
        }]
    };
    assert_eq!(
        raven.refresh_foreign_toplevel(&mut manager, &facts("a", false)),
        vec![ToplevelEvent::Created(7)]
    );
    assert_eq!(manager.toplevels[0].output, Some(5));
    assert!(raven.refresh_foreign_toplevel(&mut manager, &facts("a", false)).is_empty());
    raven.keyboard_focus = Some(7);
    assert_eq!(
        raven.refresh_foreign_toplevel(&mut manager, &facts("b", true)),
        vec![ToplevelEvent::Changed {
            surface: 7,
            title: true,
            app_id: false,
            states: true,
            output: false,
        }]
    );
    assert_eq!(manager.toplevels[0].states, vec![0, 2]);
    raven.workspaces[0].clear();
    raven.elements.clear();
    assert_eq!(
        raven.refresh_foreign_toplevel(&mut manager, &vec![]),
        vec![ToplevelEvent::Closed(7)]
    );
    assert!(manager.toplevels.is_empty());
    assert_eq!(to_state_vec(true, true, true), vec![0, 3, 2]);
    assert!(to_state_vec(false, false, false).is_empty());
}
