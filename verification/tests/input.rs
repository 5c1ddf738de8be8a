//! Keys, the pointer and the focus.

use raven::config::keybinds::{KeybindAction, ModifiersState};
use raven::config::runtime::RuntimeConfig;
use raven::geometry::{Point, Rectangle, Size};
use raven::input::keys::{workspace_from_keysym, KeyRequest};
use raven::input::layers::{LayerSight, LayerSights, SurfaceHit};
use raven::input::pointer::{
    resize_edges_from_local_point, AxisFacts, AxisPart, Button, Constraint, ConstraintKind, Grab, Grabs, MotionAction,
    PointContents, PointerState, ResizeEdges, SurfacePlace, WindowAtPointer, WindowHit,
};
use raven::state::focus::{FocusReason, FocusState};
use raven::state::raven::Raven;
use raven::state::space::{Element, Output};
use raven::state::toplevel::{FullscreenSlot, Toplevel};

fn rect(x: i32, y: i32, w: i32, h: i32) -> Rectangle {
    Rectangle { loc: Point { x, y }, size: Size { w, h } }
}

const FREE: Grabs = Grabs { pointer: false, keyboard: false, input_method: false };
const HELD: ModifiersState = ModifiersState { shift: false, ctrl: false, alt: false, logo: true };
const NONE_HELD: ModifiersState =
    ModifiersState { shift: false, ctrl: false, alt: false, logo: false };

/// A compositor with one output and these windows on the screen, from the bottom to the top.
fn raven_with(windows: &[u64]) -> Raven {
    let mut raven = Raven::new(RuntimeConfig::default());
    raven.map_output(Output {
        id: 1,
        geometry: Some(rect(100, 0, 1000, 800)),
        work_area: rect(100, 0, 1000, 800),
    });
    raven.pointer_output = Some(1);
    for window in windows {
        raven.set_toplevel(
            *window,
            Toplevel {
                live: true,
                has_buffer: true,
                geometry: Size { w: 300, h: 200 },
                configured: true,
                ..Toplevel::new()
            },
        );
        raven.add_window_to_workspace(0, *window);
        raven.elements.push(Element { window: *window, location: Point { x: 120, y: 10 } });
    }
    raven
}

fn sight(surface: u64) -> LayerSight {
    LayerSight {
        surface,
        place: Some(Point { x: 1, y: 2 }),
        can_receive_focus: true,
        exclusive: false,
        on_demand: true,
        under: true,
        popup: None,
        hit: Some(SurfaceHit { surface: surface + 1, local: Point { x: 3, y: 4 } }),
    }
}

#[test]
fn digits_stand_for_workspaces() {
    assert_eq!(workspace_from_keysym(0x31), Some(0));
    assert_eq!(workspace_from_keysym(0x29), Some(9));
    assert_eq!(workspace_from_keysym(0x30), Some(9));
    assert_eq!(workspace_from_keysym(0x5e), Some(5));
    assert_eq!(workspace_from_keysym(0x61), None);
}

#[test]
fn workspace_keys_switch() {
    let mut raven = raven_with(&[7]);
    raven.config.keybinds.clear();
    assert!(raven.handle_keybinding(&NONE_HELD, 0x33).is_none());
    assert!(matches!(raven.handle_keybinding(&HELD, 0x33), Some(KeyRequest::Nothing)));
    assert_eq!(raven.current_workspace, 2);
    raven.switch_workspace(0).unwrap();
    raven.set_keyboard_focus(Some(7));
    let shifted = ModifiersState { shift: true, ..HELD };
    assert!(raven.handle_keybinding(&shifted, 0x40).is_some());
    assert_eq!(raven.workspace_index_for_window(7), Some(1));
    assert!(raven.filter_key(false, &HELD, 0x33).is_none());
    assert_eq!(raven.current_workspace, 0);
}

#[test]
fn actions_leave_requests() {
    let mut raven = raven_with(&[7, 8]);
    assert!(matches!(
        raven.execute_keybind_action(KeybindAction::Exec("foot".to_string())),
        KeyRequest::Spawn(command) if command == "foot"
    ));
    assert!(matches!(
        raven.execute_keybind_action(KeybindAction::CloseFocused),
        KeyRequest::Nothing
    ));
    raven.set_keyboard_focus(Some(7));
    assert!(matches!(
        raven.execute_keybind_action(KeybindAction::CloseFocused),
        KeyRequest::Close(7)
    ));
    assert!(matches!(raven.execute_keybind_action(KeybindAction::Quit), KeyRequest::Quit));
    assert!(matches!(
        raven.execute_keybind_action(KeybindAction::ReloadConfig),
        KeyRequest::ReloadConfig
    ));
    assert!(matches!(
        raven.execute_keybind_action(KeybindAction::Unsupported("x".to_string())),
        KeyRequest::Unsupported(name) if name == "x"
    ));
    raven.execute_keybind_action(KeybindAction::FocusPrevious);
    assert_eq!(raven.keyboard_focus, Some(8));
    raven.execute_keybind_action(KeybindAction::SwitchWorkspace(42));
    assert_eq!(raven.current_workspace, 0);
}

#[test]
fn exclusive_layer_gets_every_key() {
    let mut raven = raven_with(&[7]);
    raven.set_keyboard_focus(Some(7));
    let mut sights = LayerSights::new();
    assert!(!raven.focus_exclusive_layer(&sights));
    sights.top.push(LayerSight { exclusive: true, place: None, ..sight(20) });
    sights.top.push(LayerSight { exclusive: true, ..sight(30) });
    assert!(raven.focus_exclusive_layer(&sights));
    assert_eq!(raven.keyboard_focus, Some(30));
    assert!(raven.redraw_all);
    sights.overlay.push(LayerSight { exclusive: true, ..sight(40) });
    assert!(raven.focus_exclusive_layer(&sights));
    assert_eq!(raven.keyboard_focus, Some(40));
}

fn window_hit() -> Option<WindowHit> {
    Some(WindowHit {
        window: 7,
        render_location: Point { x: 120, y: 10 },
        hit: Some(SurfaceHit { surface: 70, local: Point { x: 5, y: 6 } }),
    })
}

#[test]
fn pointer_finds_what_is_in_front() {
    let mut raven = raven_with(&[7]);
    let mut sights = LayerSights::new();
    assert_eq!(
        raven.contents_under(&sights, None),
        PointContents { output: Some(1), surface: None, window: None, layer: None }
    );
    let under = raven.contents_under(&sights, window_hit());
    assert_eq!(under.window, Some(7));
    assert_eq!(
        under.surface,
        Some(SurfacePlace { surface: 70, place: Point { x: 125, y: 16 } })
    );
    sights.background.push(sight(10));
    assert_eq!(raven.contents_under(&sights, window_hit()).window, Some(7));
    sights.top.push(sight(20));
    let under = raven.contents_under(&sights, window_hit());
    assert_eq!(under.layer, Some(20));
    assert_eq!(
        under.surface,
        Some(SurfacePlace { surface: 21, place: Point { x: 104, y: 6 } })
    );
    // A fullscreen window hides the top layer, but not the overlay.
    raven.fullscreen.owners[0] = Some(FullscreenSlot { surface: 7, output: Some(1) });
    assert_eq!(raven.contents_under(&sights, window_hit()).window, Some(7));
    sights.overlay.push(LayerSight {
        popup: Some(SurfaceHit { surface: 99, local: Point { x: 0, y: 0 } }),
        ..sight(30)
    });
    assert_eq!(raven.contents_under(&sights, window_hit()).surface.unwrap().surface, 99);
    raven.pointer_output = None;
    assert_eq!(raven.contents_under(&sights, window_hit()).output, None);
}

#[test]
fn pointer_frames_are_throttled() {
    let mut raven = raven_with(&[]);
    let mut pointer = PointerState::new();
    raven.queue_pointer_redraw_throttled(&mut pointer, 100);
    assert!(raven.redraw_outputs.contains(&1));
    raven.redraw_outputs.clear();
    raven.queue_pointer_redraw_throttled(&mut pointer, 107);
    assert!(raven.redraw_outputs.is_empty());
    raven.queue_pointer_redraw_throttled(&mut pointer, 108);
    assert!(raven.redraw_outputs.contains(&1));
    assert_eq!(pointer.last_redraw_msec, Some(108));
    raven.pointer_output = None;
    raven.queue_redraw_for_pointer_output(&pointer);
    assert!(raven.redraw_all);
}

#[test]
fn pointer_contents_are_refreshed() {
    let mut raven = raven_with(&[]);
    let mut pointer = PointerState::new();
    let under = PointContents { output: Some(1), surface: None, window: None, layer: Some(3) };
    assert!(raven.refresh_pointer_contents(&mut pointer, under));
    assert!(raven.redraw_outputs.contains(&1));
    assert!(!raven.refresh_pointer_contents(&mut pointer, under));
}

fn locked() -> Constraint {
    Constraint { kind: ConstraintKind::Locked, active: true, in_region: None }
}

fn on_surface(surface: u64) -> PointerState {
    PointerState {
        contents: PointContents {
            output: Some(1),
            surface: Some(SurfacePlace { surface, place: Point { x: 0, y: 0 } }),
            window: Some(7),
            layer: None,
        },
        last_redraw_msec: None,
    }
}

#[test]
fn clients_hold_the_pointer() {
    let mut raven = raven_with(&[7]);
    let sights = LayerSights::new();
    let mut pointer = on_surface(70);
    let place = pointer.contents.surface.unwrap();
    let action = raven.handle_pointer_motion(
        &mut pointer, Some(locked()), &sights, None, &sights, FREE, 10,
    );
    assert_eq!(action, MotionAction::RelativeOnly(place));
    assert_eq!(pointer.contents.window, Some(7));
    let confined = Constraint { kind: ConstraintKind::Confined, ..locked() };
    let action = raven.handle_pointer_motion(
        &mut pointer, Some(confined), &sights, None, &sights, FREE, 20,
    );
    assert_eq!(action, MotionAction::RelativeOnly(place));
    let action = raven.handle_pointer_motion(
        &mut pointer, Some(confined), &sights, window_hit(), &sights, FREE, 30,
    );
    assert_eq!(action, MotionAction::Motion);
    let outside = Constraint { in_region: Some(false), ..locked() };
    let action = raven.handle_pointer_motion(
        &mut pointer, Some(outside), &sights, None, &sights, FREE, 40,
    );
    assert_eq!(action, MotionAction::Motion);
    assert_eq!(pointer.contents.surface, None);
}

#[test]
fn holds_begin_on_the_focused_surface() {
    let pointer = on_surface(70);
    let waiting = Constraint { active: false, ..locked() };
    assert!(pointer.maybe_activate_pointer_constraint(Some(70), Some(waiting)));
    assert!(!pointer.maybe_activate_pointer_constraint(Some(71), Some(waiting)));
    assert!(!pointer.maybe_activate_pointer_constraint(Some(70), Some(locked())));
    let outside = Constraint { in_region: Some(false), ..waiting };
    assert!(!pointer.maybe_activate_pointer_constraint(Some(70), Some(outside)));
    assert!(!pointer.maybe_activate_pointer_constraint(Some(70), None));
    assert!(pointer.accepts_position_hint(70, Some(locked())));
    assert!(!pointer.accepts_position_hint(70, Some(waiting)));
    assert!(!pointer.accepts_position_hint(71, Some(locked())));
}

#[test]
fn focus_follows_the_pointer() {
    let mut raven = raven_with(&[7, 8]);
    let sights = LayerSights::new();
    let mut pointer = PointerState::new();
    raven.pointer_window = Some(7);
    raven.handle_pointer_motion(&mut pointer, None, &sights, window_hit(), &sights, FREE, 1);
    assert_eq!(raven.keyboard_focus, Some(7));
    raven.config.focus_follow_mouse = false;
    raven.pointer_window = Some(8);
    raven.handle_pointer_motion(&mut pointer, None, &sights, None, &sights, FREE, 2);
    assert_eq!(raven.keyboard_focus, Some(7));
    assert_eq!(
        raven.handle_pointer_motion_absolute(&mut pointer, &sights, None, &sights, FREE),
        MotionAction::Motion
    );
    raven.outputs.clear();
    assert_eq!(
        raven.handle_pointer_motion_absolute(&mut pointer, &sights, None, &sights, FREE),
        MotionAction::Ignore
    );
}

#[test]
fn keyboard_goes_to_what_is_at_the_pointer() {
    let mut raven = raven_with(&[7]);
    let mut sights = LayerSights::new();
    sights.bottom.push(sight(10));
    raven.update_keyboard_focus(FREE, &sights, false);
    assert_eq!(raven.keyboard_focus, Some(10));
    raven.pointer_window = Some(7);
    raven.update_keyboard_focus(FREE, &sights, false);
    assert_eq!(raven.keyboard_focus, Some(7));
    sights.top.push(sight(20));
    raven.update_keyboard_focus(FREE, &sights, false);
    assert_eq!(raven.keyboard_focus, Some(20));
    // A layer surface above the windows keeps the keyboard while the pointer moves away.
    sights.top[0].under = false;
    raven.update_keyboard_focus(FREE, &sights, false);
    assert_eq!(raven.keyboard_focus, Some(20));
    raven.update_keyboard_focus(Grabs { pointer: true, ..FREE }, &sights, true);
    assert_eq!(raven.keyboard_focus, Some(20));
    raven.update_keyboard_focus(
        Grabs { keyboard: true, input_method: true, ..FREE },
        &sights,
        true,
    );
    assert_eq!(raven.keyboard_focus, Some(7));
}

#[test]
fn edges_are_the_nearest() {
    let size = Size { w: 100, h: 50 };
    assert_eq!(
        resize_edges_from_local_point(99, 50, size),
        ResizeEdges { left: true, top: false }
    );
    assert_eq!(
        resize_edges_from_local_point(100, 49, size),
        ResizeEdges { left: false, top: true }
    );
    assert_eq!(
        resize_edges_from_local_point(0, 1, Size { w: 0, h: -3 }),
        ResizeEdges { left: true, top: false }
    );
}

#[test]
fn buttons_begin_drags() {
    let mut raven = raven_with(&[7, 8]);
    raven.pointer_window = Some(7);
    let sights = LayerSights::new();
    let mut pointer = PointerState::new();
    let under = on_surface(70).contents;
    let at = Some(WindowAtPointer {
        window: 7,
        render_location: Point { x: 120, y: 10 },
        doubled_x: 590,
        doubled_y: 2,
    });
    let grab = raven.handle_pointer_button(
        &mut pointer, Button::Left, true, &HELD, under, at, &sights, FREE,
    );
    assert_eq!(grab, Grab::Move { window: 7, from: Point { x: 120, y: 10 } });
    assert_eq!(raven.stacked_windows(), vec![8, 7]);
    assert_eq!(pointer.contents, under);
    let alt = ModifiersState { alt: true, ..NONE_HELD };
    let grab = raven.handle_pointer_button(
        &mut pointer, Button::Right, true, &alt, under, at, &sights, FREE,
    );
    assert_eq!(
        grab,
        Grab::Resize {
            window: 7,
            edges: ResizeEdges { left: false, top: true },
            from: rect(120, 10, 300, 200),
        }
    );
    for (button, pressed, held, grabs) in [
        (Button::Left, true, alt, FREE),
        (Button::Left, false, HELD, FREE),
        (Button::Left, true, HELD, Grabs { pointer: true, ..FREE }),
        (Button::Other, true, HELD, FREE),
    ] {
        let grab = raven.handle_pointer_button(
            &mut pointer, button, pressed, &held, under, at, &sights, grabs,
        );
        assert_eq!(grab, Grab::Nothing);
    }
    assert_eq!(raven.keyboard_focus, Some(7));
}

#[test]
fn reasons_of_the_user_are_explicit() {
    assert!(FocusReason::PointerButton.is_explicit_user());
    assert!(FocusReason::KeyboardAction.is_explicit_user());
    assert!(FocusReason::ForeignActivate.is_explicit_user());
    assert!(FocusReason::ExclusiveLayer.is_explicit_user());
    assert!(!FocusReason::PointerMotion.is_explicit_user());
    assert!(!FocusReason::NewWindow.is_explicit_user());
    assert!(!FocusReason::DeferredRules.is_explicit_user());
    assert!(!FocusReason::LayerCommit.is_explicit_user());
}

#[test]
fn focus_is_kept_up_to_date() {
    let mut raven = raven_with(&[7, 8]);
    let sights = LayerSights::new();
    let mut focus = FocusState::default();
    raven.refresh_focus(&mut focus, &sights, &vec![], None);
    assert_eq!(focus.active_window, Some(8));
    assert_eq!(raven.keyboard_focus, Some(8));
    assert!(raven.request_focus_window(&mut focus, 7, FocusReason::PointerMotion, true));
    raven.refresh_focus(&mut focus, &sights, &vec![], None);
    assert_eq!(raven.keyboard_focus, Some(7));
    assert_eq!(raven.focused_window(&focus), Some(7));
    let mut all = vec![sight(20)];
    focus.request_focus_layer(Some(20));
    raven.refresh_focus(&mut focus, &sights, &all, None);
    assert_eq!(raven.keyboard_focus, Some(20));
    all[0].on_demand = false;
    raven.refresh_focus(&mut focus, &sights, &all, None);
    assert_eq!(focus.layer_shell_on_demand_focus, None);
    assert_eq!(raven.keyboard_focus, Some(7));
    focus.clear_focus_for_surface(7);
    assert_eq!(focus.active_window, None);
    focus.refocus_visible_window(&mut raven, &sights, &vec![], Some(8));
    assert_eq!(raven.keyboard_focus, Some(8));
}

#[test]
fn fullscreen_window_keeps_the_focus() {
    let mut raven = raven_with(&[7, 8, 9]);
    raven.fullscreen.owners[0] = Some(FullscreenSlot { surface: 7, output: Some(1) });
    let child = raven.toplevel(9);
    raven.set_toplevel(9, Toplevel { parent: Some(7), ..child });
    let sights = LayerSights::new();
    let mut focus = FocusState::default();
    assert!(!raven.request_focus_window(&mut focus, 8, FocusReason::PointerMotion, false));
    assert!(raven.request_focus_window(&mut focus, 9, FocusReason::PointerMotion, false));
    raven.refresh_focus(&mut focus, &sights, &vec![], None);
    assert_eq!(raven.keyboard_focus, Some(9));
    assert!(raven.request_focus_window(&mut focus, 8, FocusReason::PointerButton, false));
    raven.refresh_focus(&mut focus, &sights, &vec![], None);
    assert_eq!(focus.active_window, Some(7));
    raven.pointer_window = Some(9);
    raven.update_focus_from_pointer(
        &mut focus, FREE, FocusReason::PointerMotion, false, &sights, &sights, &vec![], None,
    );
    assert_eq!(raven.active_toplevel(&focus), Some(9));
}

#[test]
fn scrolling_is_told() {
    let mut raven = Raven::new(RuntimeConfig::default());
    let mut pointer = PointerState::new();
    let under = PointContents { output: Some(4), surface: None, window: None, layer: None };
    let wheel = AxisFacts { moves: true, discrete: Some(120), rests: false };
    let still = AxisFacts { moves: false, discrete: Some(0), rests: true };
    let frame = raven.handle_pointer_axis(&mut pointer, under, still, wheel, false);
    assert_eq!(frame.horizontal, AxisPart { scrolls: false, discrete: None, stops: false });
    assert_eq!(frame.vertical, AxisPart { scrolls: true, discrete: Some(120), stops: false });
    assert!(raven.redraw_outputs.contains(&4));
    assert_eq!(pointer.contents, under);
    let frame = raven.handle_pointer_axis(&mut pointer, under, still, still, true);
    assert!(frame.horizontal.stops && frame.vertical.stops);
}
