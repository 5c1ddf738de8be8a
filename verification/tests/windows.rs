//! Windows: their life, their workspaces, their layout and their fullscreen.

use raven::config::runtime::RuntimeConfig;
use raven::config::window_rules::WindowRule;
use raven::geometry::{Point, Rectangle, Size, WindowGeometry};
use raven::handlers::grabs::{blocker_to_try, check_grab, Blocker, ClickFacts};
use raven::handlers::layer_shell::{handle_commit, Layer, LayerAction, LayerCommit};
use raven::handlers::xdg_shell::{can_view_decoration_globals, kde_decoration_mode, KdeMode};
use raven::state::keyboard::Action;
use raven::state::raven::Raven;
use raven::state::rules::{
    apply_window_rule_to_decision, surface_app_id_and_title, Metadata, NewWindowRuleDecision,
};
use raven::state::space::{Arrangement, Element, Output};
use raven::state::toplevel::{DecorationMode, Toplevel, WindowFullscreenMode};

fn rect(x: i32, y: i32, w: i32, h: i32) -> Rectangle {
    Rectangle { loc: Point { x, y }, size: Size { w, h } }
}

fn tile(x: i32, width: u32) -> WindowGeometry {
    WindowGeometry { x_coordinate: x, y_coordinate: 0, width, height: 800 }
}

fn names() -> Metadata {
    surface_app_id_and_title(Some(" foot "), Some("shell"))
}

fn raven_with(config: RuntimeConfig) -> Raven {
    let mut raven = Raven::new(config);
    raven.map_output(Output {
        id: 1,
        geometry: Some(rect(0, 0, 1000, 800)),
        work_area: rect(0, 0, 1000, 800),
    });
    let area = Size { w: 1000, h: 800 };
    raven.arrangements.push(Arrangement { area, windows: 1, tiles: vec![tile(0, 1000)] });
    raven.arrangements.push(Arrangement {
        area,
        windows: 2,
        tiles: vec![tile(0, 600), tile(600, 400)],
    });
    raven
}

fn raven() -> Raven {
    raven_with(RuntimeConfig::default())
}

fn announce(raven: &mut Raven, window: u64) {
    raven.set_toplevel(window, Toplevel { live: true, ..Toplevel::new() });
    raven.new_toplevel(window, &names());
}

fn show(raven: &mut Raven, window: u64) {
    let size = Size { w: 300, h: 200 };
    let toplevel = raven.toplevel(window);
    raven.set_toplevel(
        window,
        Toplevel {
            has_buffer: true,
            has_buffer_size: true,
            geometry: size,
            surface_size: Some(size),
            configured: true,
            ..toplevel
        },
    );
    raven.commit_tree(window, true, &names());
}

fn open(raven: &mut Raven, window: u64) {
    announce(raven, window);
    show(raven, window);
}

#[test]
fn start_is_in_order() {
    let mut raven = Raven::new(RuntimeConfig::default());
    assert_eq!(raven.current_workspace, 0);
    assert_eq!(raven.workspaces.len(), 10);
    assert!(raven.all_windows().is_empty());
    assert!(raven.state_invariants_hold());
    raven.set_toplevel(7, Toplevel { live: true, ..Toplevel::new() });
    assert!(raven.state_invariants_hold());
    raven.elements.push(Element { window: 7, location: Point { x: 0, y: 0 } });
    assert!(!raven.state_invariants_hold());
}

#[test]
fn window_waits_for_its_first_buffer() {
    let mut raven = raven();
    announce(&mut raven, 7);
    assert!(raven.is_surface_unmapped_toplevel(7));
    assert!(!raven.is_window_mapped(7));
    assert_eq!(raven.workspace_index_for_unmapped_window(7), Some(0));
    assert!(raven.state_invariants_hold());
    assert!(raven.commit_tree(7, true, &names()));
    assert!(!raven.commit_tree(7, true, &names()));
    show(&mut raven, 7);
    assert!(!raven.is_surface_unmapped_toplevel(7));
    assert!(raven.is_window_mapped(7));
    assert_eq!(raven.workspace_index_for_mapped_window(7), Some(0));
    assert_eq!(raven.assigned_rect_for_window(7), Some(rect(0, 0, 1000, 800)));
    assert!(raven.state_invariants_hold());
}

#[test]
fn lost_buffer_takes_window_off_the_screen() {
    let mut raven = raven();
    open(&mut raven, 7);
    let toplevel = raven.toplevel(7);
    raven.set_toplevel(7, Toplevel { has_buffer: false, ..toplevel });
    raven.commit_tree(7, true, &names());
    assert!(!raven.is_window_mapped(7));
    assert!(raven.is_surface_unmapped_toplevel(7));
    assert_eq!(raven.workspace_index_for_unmapped_window(7), Some(0));
    assert!(raven.state_invariants_hold());
}

#[test]
fn destroyed_window_is_forgotten() {
    let mut raven = raven();
    open(&mut raven, 7);
    open(&mut raven, 8);
    raven.toplevel_destroyed(7, &vec![1]);
    assert!(!raven.is_window_mapped(7));
    assert_eq!(raven.workspace_index_for_window(7), None);
    assert!(raven.redraw_outputs.contains(&1));
    assert_eq!(raven.assigned_rect_for_window(8), Some(rect(0, 0, 1000, 800)));
    assert!(raven.state_invariants_hold());
}

#[test]
fn windows_are_tiled() {
    let mut raven = raven();
    open(&mut raven, 7);
    open(&mut raven, 8);
    assert_eq!(raven.assigned_rect_for_window(7), Some(rect(0, 0, 600, 800)));
    assert_eq!(raven.assigned_rect_for_window(8), Some(rect(600, 0, 400, 800)));
    assert_eq!(raven.toplevel(8).pending.size, Some(Size { w: 400, h: 800 }));
    assert!(raven.toplevel(8).pending.tiled_left);
}

#[test]
fn layout_needs_an_output() {
    let mut raven = Raven::new(RuntimeConfig::default());
    assert!(raven.apply_layout().is_ok());
    open(&mut raven, 7);
    assert_eq!(raven.apply_layout().unwrap_err().message(), "no output");
    raven.map_output(Output { id: 1, geometry: None, work_area: rect(0, 0, 0, 0) });
    assert_eq!(raven.apply_layout().unwrap_err().message(), "no output geometry");
}

#[test]
fn workspaces_are_switched() {
    let mut raven = raven();
    open(&mut raven, 7);
    raven.switch_workspace(3).unwrap();
    assert_eq!(raven.current_workspace, 3);
    assert!(!raven.is_window_mapped(7));
    open(&mut raven, 8);
    assert_eq!(raven.workspace_index_for_window(8), Some(3));
    raven.switch_workspace(0).unwrap();
    assert!(raven.is_window_mapped(7));
    assert!(!raven.is_window_mapped(8));
    assert_eq!(raven.switch_workspace(10).unwrap_err().message(), "invalid workspace index 10");
    assert_eq!(raven.current_workspace, 0);
    assert!(raven.state_invariants_hold());
}

#[test]
fn focused_window_moves_to_a_workspace() {
    let mut raven = raven();
    open(&mut raven, 7);
    raven.set_keyboard_focus(Some(7));
    raven.move_focused_window_to_workspace(4).unwrap();
    assert_eq!(raven.workspace_index_for_window(7), Some(4));
    assert!(!raven.is_window_mapped(7));
    assert!(raven.move_focused_window_to_workspace(10).is_err());
    raven.switch_workspace(4).unwrap();
    assert!(raven.is_window_mapped(7));
    assert!(raven.state_invariants_hold());
}

#[test]
fn window_fills_the_output() {
    let mut raven = raven();
    open(&mut raven, 7);
    open(&mut raven, 8);
    assert!(raven.enter_fullscreen_window(7));
    raven.apply_layout().unwrap();
    assert_eq!(raven.window_effective_exclusive_mode(7), WindowFullscreenMode::Fullscreen);
    assert_eq!(raven.fullscreen_window_for_output(1), Some(7));
    assert_eq!(raven.assigned_rect_for_window(7), Some(rect(0, 0, 1000, 800)));
    assert!(raven.toplevel(7).pending.fullscreen);
    raven.switch_workspace(1).unwrap();
    assert!(!raven.output_has_fullscreen_window(1));
    raven.switch_workspace(0).unwrap();
    assert!(raven.output_has_fullscreen_window(1));
    assert!(raven.state_invariants_hold());
    assert!(raven.exit_fullscreen_window(7));
    raven.apply_layout().unwrap();
    assert!(!raven.output_has_fullscreen_window(1));
    assert!(!raven.toplevel(7).pending.fullscreen);
}

#[test]
fn ownership_decides_of_fullscreen() {
    let mut raven = raven();
    open(&mut raven, 7);
    raven.enter_fullscreen_window(7);
    let mut toplevel = raven.toplevel(7);
    toplevel.pending.fullscreen = false;
    toplevel.committed_maximized = true;
    raven.set_toplevel(7, toplevel);
    assert_eq!(raven.window_effective_exclusive_mode(7), WindowFullscreenMode::Fullscreen);
}

#[test]
fn floating_is_toggled() {
    let mut raven = raven();
    open(&mut raven, 7);
    raven.set_keyboard_focus(Some(7));
    raven.toggle_floating_focused_window().unwrap();
    assert!(raven.is_window_floating(7));
    raven.toggle_floating_focused_window().unwrap();
    assert!(!raven.is_window_floating(7));
    raven.set_keyboard_focus(None);
    raven.toggle_floating_focused_window().unwrap();
    assert!(!raven.is_window_floating(7));
}

#[test]
fn floating_windows_stay_above() {
    let mut raven = raven();
    open(&mut raven, 7);
    open(&mut raven, 8);
    raven.set_window_floating(7, true);
    raven.raise_window_preserving_layer(8);
    assert_eq!(raven.stacked_windows(), vec![8, 7]);
}

#[test]
fn focus_moves_along_the_stack() {
    let mut raven = raven();
    open(&mut raven, 7);
    open(&mut raven, 8);
    raven.set_keyboard_focus(Some(7));
    let stack = raven.stacked_windows();
    assert_eq!(stack.last(), Some(&7));
    Action::FocusPrevious.execute(&mut raven);
    assert_eq!(raven.keyboard_focus, Some(8));
    raven.set_keyboard_focus(None);
    Action::FocusNext.execute(&mut raven);
    assert_eq!(raven.keyboard_focus, None);
}

#[test]
fn active_window_is_told() {
    let mut raven = raven();
    open(&mut raven, 7);
    open(&mut raven, 8);
    raven.set_keyboard_focus(Some(7));
    assert!(raven.toplevel(7).pending.activated);
    assert!(!raven.toplevel(8).pending.activated);
    raven.set_keyboard_focus(Some(8));
    assert!(!raven.toplevel(7).pending.activated);
    assert!(raven.toplevel(8).pending.activated);
}

#[test]
fn dead_windows_are_pruned() {
    let mut raven = raven();
    open(&mut raven, 7);
    let toplevel = raven.toplevel(7);
    raven.set_toplevel(7, Toplevel { live: false, ..toplevel });
    raven.prune_windows_without_live_client();
    assert_eq!(raven.workspace_index_for_window(7), None);
    assert!(!raven.is_window_mapped(7));
}

fn rule(app_id: &str) -> WindowRule {
    WindowRule {
        class: None,
        app_id: Some(app_id.to_string()),
        title: None,
        workspace: None,
        floating: None,
        fullscreen: None,
        focus: None,
        width: None,
        height: None,
    }
}

#[test]
fn rules_decide_of_new_windows() {
    let mut config = RuntimeConfig::default();
    config.window_rules = vec![
        WindowRule { workspace: Some(2), floating: Some(true), ..rule("foot") },
        WindowRule { workspace: Some(5), ..rule("FOOT") },
        WindowRule { workspace: Some(7), ..rule("other") },
    ];
    let mut raven = raven_with(config);
    let decision = raven.resolve_window_rules_for_surface(&names());
    assert_eq!(decision.workspace_index, 5);
    assert!(decision.floating);
    assert!(decision.focus);
    open(&mut raven, 7);
    assert_eq!(raven.workspace_index_for_window(7), Some(5));
    assert!(raven.is_window_floating(7));
    assert!(!raven.is_window_mapped(7));
    assert!(raven.state_invariants_hold());
}

#[test]
fn rule_changes_what_it_speaks_of() {
    let mut decision = NewWindowRuleDecision {
        workspace_index: 1,
        floating: true,
        fullscreen: false,
        focus: true,
        width: None,
        height: Some(3),
    };
    apply_window_rule_to_decision(
        &WindowRule { focus: Some(false), width: Some(9), ..rule("x") },
        &mut decision,
    );
    assert_eq!(
        decision,
        NewWindowRuleDecision {
            workspace_index: 1,
            floating: true,
            fullscreen: false,
            focus: false,
            width: Some(9),
            height: Some(3),
        }
    );
    let blank = surface_app_id_and_title(Some("  "), None);
    assert_eq!(blank.app_id, None);
    assert_eq!(names().app_id.as_deref(), Some("foot"));
}

#[test]
fn window_is_maximized() {
    let mut raven = raven();
    open(&mut raven, 7);
    open(&mut raven, 8);
    raven.maximize_request(7);
    assert!(raven.window_is_marked_maximized(7));
    assert!(raven.toplevel(7).pending.maximized);
    raven.unmaximize_request(7);
    assert!(!raven.window_is_marked_maximized(7));
    assert!(!raven.toplevel(7).pending.maximized);
    assert!(raven.state_invariants_hold());
}

#[test]
fn decorations_follow_the_configuration() {
    let mut raven = raven();
    open(&mut raven, 7);
    assert_eq!(raven.preferred_decoration_mode(), DecorationMode::ServerSide);
    raven.request_mode(7, DecorationMode::ClientSide);
    assert_eq!(raven.toplevel(7).pending.decoration_mode, Some(DecorationMode::ServerSide));
    assert!(raven.toplevel(7).pending.tiled_top);
    raven.new_decoration(7);
    assert_eq!(raven.toplevel(7).pending.decoration_mode, Some(DecorationMode::ServerSide));
    raven.config.no_csd = false;
    raven.request_mode(7, DecorationMode::ClientSide);
    assert_eq!(raven.toplevel(7).pending.decoration_mode, Some(DecorationMode::ClientSide));
    assert!(!raven.toplevel(7).pending.tiled_top);
    raven.request_mode(7, DecorationMode::ServerSide);
    assert_eq!(raven.toplevel(7).pending.decoration_mode, Some(DecorationMode::ServerSide));
    assert!(raven.toplevel(7).pending.tiled_top);
    raven.unset_mode(7);
    assert_eq!(raven.toplevel(7).pending.decoration_mode, Some(DecorationMode::ClientSide));
    raven.config.no_csd = true;
    raven.apply_decoration_preferences();
    assert_eq!(raven.toplevel(7).pending.decoration_mode, Some(DecorationMode::ServerSide));
}

#[test]
fn drags_are_carried_out_with_the_frame() {
    let mut raven = raven();
    open(&mut raven, 7);
    raven.queue_interactive_move(7, Point { x: 1, y: 1 });
    raven.queue_interactive_move(7, Point { x: 30, y: 40 });
    raven.queue_interactive_resize(7, Size { w: 500, h: 400 });
    raven.flush_interactive_frame_updates();
    assert_eq!(raven.element_geometry(7).unwrap().loc, Point { x: 30, y: 40 });
    assert_eq!(raven.toplevel(7).pending.size, Some(Size { w: 500, h: 400 }));
    assert!(raven.toplevel(7).pending.resizing);
    assert!(raven.pending_interactive_moves.is_empty());
}

#[test]
fn drag_ends_at_the_last_place() {
    let mut raven = raven();
    open(&mut raven, 7);
    open(&mut raven, 8);
    for x in 0..5 {
        raven.queue_interactive_move(8, Point { x, y: 0 });
        raven.queue_interactive_move(7, Point { x: 10 * x, y: 2 });
    }
    assert_eq!(
        raven.pending_interactive_moves,
        vec![(8, Point { x: 4, y: 0 }), (7, Point { x: 40, y: 2 })]
    );
    raven.clear_pending_interactive_move(8);
    raven.flush_interactive_frame_updates();
    assert_eq!(raven.element_geometry(7).unwrap().loc, Point { x: 40, y: 2 });
    assert_eq!(raven.element_geometry(8).unwrap().loc, Point { x: 600, y: 0 });
    assert!(raven.state_invariants_hold());
}

#[test]
fn layer_commits_ask_for_focus() {
    let commit = LayerCommit {
        surface: 9,
        layer: Layer::Top,
        can_receive_keyboard_focus: true,
        pointer_over: true,
        initial_configure_sent: false,
    };
    assert_eq!(
        handle_commit(Some(commit), Some(7)),
        LayerAction { send_configure: true, focus: Some(9), relayout: true }
    );
    assert_eq!(handle_commit(Some(commit), Some(9)).focus, None);
    assert_eq!(
        handle_commit(Some(LayerCommit { layer: Layer::Bottom, ..commit }), None).focus,
        None
    );
    assert!(!handle_commit(None, None).relayout);
}

#[test]
fn other_programs_ask_for_windows() {
    let mut raven = raven();
    open(&mut raven, 7);
    raven.switch_workspace(1).unwrap();
    raven.activate(7);
    assert_eq!(raven.current_workspace, 0);
    assert_eq!(raven.keyboard_focus, Some(7));
    assert!(raven.can_close(7));
    assert!(!raven.can_close(8));
    raven.set_maximized(7);
    assert!(raven.window_is_marked_maximized(7));
    raven.unset_maximized(7);
    assert!(!raven.window_is_marked_maximized(7));
    assert!(raven.state_invariants_hold());
}

#[test]
fn clicks_begin_drags() {
    let click = ClickFacts { holds_serial: true, has_start: true, on_same_client: Some(true) };
    assert!(check_grab(click));
    assert!(!check_grab(ClickFacts { on_same_client: Some(false), ..click }));
    assert!(!check_grab(ClickFacts { on_same_client: None, ..click }));
    assert!(!check_grab(ClickFacts { holds_serial: false, ..click }));
    let mut raven = raven();
    open(&mut raven, 7);
    assert_eq!(raven.move_request(7, click), Some(Point { x: 0, y: 0 }));
    assert_eq!(raven.resize_request(7, click), Some(rect(0, 0, 300, 200)));
    assert!(raven.toplevel(7).pending.resizing);
    assert_eq!(raven.move_request(7, ClickFacts { has_start: false, ..click }), None);
}

#[test]
fn popups_and_layers_have_their_places() {
    let mut raven = raven();
    open(&mut raven, 7);
    open(&mut raven, 8);
    let origin = Point { x: 0, y: 0 };
    assert_eq!(
        raven.unconstrain_popup(8, origin, Point { x: 10, y: 20 }),
        Some(rect(-610, -20, 1000, 800))
    );
    assert_eq!(raven.unconstrain_popup(99, origin, origin), None);
    assert_eq!(raven.output_for_layer_surface(None), Some(1));
    assert_eq!(raven.output_for_layer_surface(Some(5)), Some(5));
    assert_eq!(blocker_to_try(true, true, false), Some(Blocker::AcquirePoint));
    assert_eq!(blocker_to_try(true, true, true), Some(Blocker::Buffer));
    assert_eq!(blocker_to_try(true, false, false), Some(Blocker::Buffer));
    assert_eq!(blocker_to_try(false, true, false), None);
}

#[test]
fn older_decoration_protocol_is_answered() {
    for requested in [KdeMode::Bare, KdeMode::Client, KdeMode::Server] {
        assert_eq!(kde_decoration_mode(true, requested), KdeMode::Server);
        assert_eq!(kde_decoration_mode(false, requested), requested);
    }
    assert!(can_view_decoration_globals(true));
    assert!(!can_view_decoration_globals(false));
}

#[test]
fn window_gets_one_tile_though_it_is_on_the_screen_twice() {
    let mut raven = raven();
    open(&mut raven, 7);
    open(&mut raven, 8);
    raven.elements.push(Element { window: 7, location: Point { x: 5, y: 5 } });
    assert!(raven.state_invariants_hold());
    raven.apply_layout().unwrap();
    assert_eq!(raven.elements.iter().filter(|element| element.window == 7).count(), 1);
    assert_eq!(raven.elements.len(), 2);
    assert_eq!(raven.assigned_rect_for_window(7), Some(rect(0, 0, 600, 800)));
    assert_eq!(raven.assigned_rect_for_window(8), Some(rect(600, 0, 400, 800)));
}

#[test]
fn new_window_is_on_one_list_and_marked() {
    let mut raven = raven();
    announce(&mut raven, 7);
    assert_eq!(raven.unmapped_workspaces[0], vec![7]);
    assert!(raven.workspaces.iter().all(|list| list.is_empty()));
    assert!(raven.unmapped_toplevel_ids.contains(&7));
    assert!(raven.pending_initial_configure_ids.contains(&7));
    assert!(raven.elements.is_empty());
}

#[test]
fn first_buffer_moves_window_to_the_mapped_of_its_workspace() {
    let mut config = RuntimeConfig::default();
    config.window_rules = vec![WindowRule { floating: Some(false), ..rule("foot") }];
    let mut raven = raven_with(config);
    announce(&mut raven, 7);
    raven.switch_workspace(2).unwrap();
    show(&mut raven, 7);
    assert_eq!(raven.workspaces[0], vec![7]);
    assert!(raven.unmapped_workspaces.iter().all(|list| list.is_empty()));
    assert!(!raven.unmapped_toplevel_ids.contains(&7));
    assert!(!raven.is_window_mapped(7));
    raven.switch_workspace(0).unwrap();
    assert!(raven.is_window_mapped(7));
}

#[test]
fn first_buffer_maps_window_where_the_rules_that_waited_say() {
    let mut raven = raven();
    announce(&mut raven, 7);
    raven.switch_workspace(2).unwrap();
    show(&mut raven, 7);
    assert_eq!(raven.workspaces[2], vec![7]);
    assert!(raven.unmapped_workspaces.iter().all(|list| list.is_empty()));
    assert!(!raven.unmapped_toplevel_ids.contains(&7));
    assert!(raven.is_window_mapped(7));
}

#[test]
fn lost_buffer_moves_window_back_and_it_waits_again() {
    let mut raven = raven();
    open(&mut raven, 7);
    let toplevel = raven.toplevel(7);
    raven.set_toplevel(7, Toplevel { has_buffer: false, ..toplevel });
    raven.commit_tree(7, true, &names());
    assert_eq!(raven.unmapped_workspaces[0], vec![7]);
    assert!(raven.workspaces[0].is_empty());
    assert!(raven.unmapped_toplevel_ids.contains(&7));
    assert!(raven.pending_initial_configure_ids.contains(&7));
    assert!(raven.elements.is_empty());
}

#[test]
fn destruction_clears_all_notes() {
    let mut raven = raven();
    open(&mut raven, 7);
    open(&mut raven, 8);
    raven.floating_windows.push(7);
    raven.pending_floating_recenter_ids.insert(7);
    raven.pending_window_rule_recheck_ids.insert(7);
    raven.pending_initial_configure_idle_ids.insert(7);
    raven.fullscreen_request(7);
    raven.toplevel_destroyed(7, &vec![1]);
    assert!(raven.floating_windows.is_empty());
    assert!(!raven.pending_floating_recenter_ids.contains(&7));
    assert!(!raven.pending_window_rule_recheck_ids.contains(&7));
    assert!(!raven.pending_initial_configure_idle_ids.contains(&7));
    assert!(raven.fullscreen.owners.iter().all(|owner| owner.is_none()));
    assert!(raven.state_invariants_hold());
}

#[test]
fn switching_leaves_each_window_on_its_list() {
    let mut raven = raven();
    open(&mut raven, 7);
    announce(&mut raven, 9);
    raven.switch_workspace(4).unwrap();
    open(&mut raven, 8);
    raven.switch_workspace(6).unwrap();
    assert_eq!(raven.workspaces[0], vec![7]);
    assert_eq!(raven.workspaces[4], vec![8]);
    assert_eq!(raven.unmapped_workspaces[0], vec![9]);
    assert_eq!(raven.workspaces.iter().map(|list| list.len()).sum::<usize>(), 2);
    assert_eq!(raven.unmapped_workspaces.iter().map(|list| list.len()).sum::<usize>(), 1);
}
