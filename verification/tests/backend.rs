//! Outputs and frames.

use raven::backend::elements::{
    frame_parts, reorder_for_fullscreen, translate_geometry_between_rects, AssignedWindowRect,
    DrawnWindow, FramePart, FrameSight, Piece, PieceKind, WindowPath,
};
use raven::backend::outputs::{
    canonical_output_name, connector_name, monitor_transform_from_config, output_name_matches,
    select_mode_index, select_monitor_config, ModeInfo, Transform,
};
use raven::backend::redraw::{
    estimated_frame_micros, presentation_of, repaint_delay_nanos, send_frame_callbacks_for_output,
    FrameAction, FrameClock, FrameThrottle, RedrawState, RenderOutcome, Screen, Screens, ShownSurface,
};
use raven::backend::scanout::{
    force_full_redraw, render_trace_line, scanout_enabled, scanout_rejection_reason, trace_rect,
    OutputSight, RejectionCounters, ScanoutRejection,
};
use raven::config::monitors::MonitorConfig;
use raven::config::runtime::RuntimeConfig;
use raven::geometry::{Point, Rectangle, Size};
use raven::render_helpers::solid_color::{Color, Extent, SolidColorBuffer};
use raven::state::raven::Raven;
use raven::state::space::Output;
use std::collections::HashSet;

fn rect(x: i32, y: i32, w: i32, h: i32) -> Rectangle {
    Rectangle { loc: Point { x, y }, size: Size { w, h } }
}

fn monitor(name: &str) -> MonitorConfig {
    MonitorConfig {
        name: name.to_string(),
        enabled: true,
        width: None,
        height: None,
        refresh_hz: None,
        x: None,
        y: None,
        scale: None,
        transform: None,
    }
}

fn mode(width: u16, height: u16, vrefresh: u32, preferred: bool, refresh_diff: u64) -> ModeInfo {
    ModeInfo { width, height, vrefresh, preferred, refresh_diff }
}

#[test]
fn output_names_are_compared() {
    assert_eq!(canonical_output_name(" hdmi-a-1 "), "HDMI-1");
    assert_eq!(canonical_output_name("DP-1"), "DP-1");
    assert_eq!(canonical_output_name("eDP-A-x"), "EDP-A-X");
    assert!(output_name_matches("HDMI-1", "hdmi-A-1"));
    assert!(output_name_matches("dp-2", "DP-2"));
    assert!(!output_name_matches("DP-1", "DP-2"));
    assert_eq!(connector_name("HDMI-A", 3), "HDMI-A-3");
    let monitors = vec![monitor("DP-1"), monitor("HDMI-1"), monitor("HDMI-A-1")];
    assert_eq!(select_monitor_config(&monitors, "HDMI-A-1").unwrap().name, "HDMI-1");
    assert!(select_monitor_config(&monitors, "VGA-1").is_none());
}

#[test]
fn modes_are_selected() {
    let modes = vec![
        mode(1920, 1080, 60, false, 84000),
        mode(2560, 1440, 60, true, 84000),
        mode(2560, 1440, 144, false, 0),
        mode(2560, 1440, 143, false, 0),
    ];
    assert_eq!(select_mode_index(&modes, None), 1);
    assert_eq!(select_mode_index(&modes, Some(&monitor("A"))), 1);
    let mut wanted = monitor("A");
    wanted.width = Some(2560);
    wanted.height = Some(1440);
    wanted.refresh_hz = Some("144".to_string());
    assert_eq!(select_mode_index(&modes, Some(&wanted)), 2);
    wanted.width = Some(640);
    assert_eq!(select_mode_index(&modes, Some(&wanted)), 1);
    assert_eq!(select_mode_index(&vec![mode(1, 1, 1, false, 0)], None), 0);
}

#[test]
fn transforms_have_names() {
    assert_eq!(monitor_transform_from_config(None), Transform::Normal);
    assert_eq!(monitor_transform_from_config(Some(" 90 ")), Transform::Rotated90);
    assert_eq!(monitor_transform_from_config(Some("rotate270")), Transform::Rotated270);
    assert_eq!(monitor_transform_from_config(Some("FLIPPED")), Transform::Flipped);
    assert_eq!(monitor_transform_from_config(Some("flipped-180")), Transform::Flipped180);
    assert_eq!(monitor_transform_from_config(Some("7")), Transform::Flipped270);
    assert_eq!(monitor_transform_from_config(Some("upside-down")), Transform::Normal);
}

#[test]
fn outputs_are_planned() {
    let mut config = RuntimeConfig::default();
    let mut off = monitor("DP-2");
    off.enabled = false;
    let mut set = monitor("DP-1");
    set.y = Some(-50);
    set.transform = Some("180".to_string());
    set.scale = Some("1.25".to_string());
    config.monitors = vec![off, set];
    let mut raven = Raven::new(config);
    let modes = vec![mode(1, 1, 60, false, 0), mode(2, 2, 60, true, 0)];
    // The only output stays on.
    assert!(raven.plan_output("DP-2", &modes).is_some());
    for (id, width) in [(1, 1920), (2, 1280)] {
        raven.map_output(Output {
            id,
            geometry: Some(rect(0, 0, width, 1080)),
            work_area: rect(0, 0, width, 1080),
        });
    }
    assert!(raven.plan_output("DP-2", &modes).is_none());
    let plan = raven.plan_output("DP-1", &modes).unwrap();
    assert_eq!((plan.mode_index, plan.x, plan.y), (1, 3200, -50));
    assert_eq!(plan.transform, Transform::Rotated180);
    assert_eq!(plan.scale.as_deref(), Some("1.25"));
    let plan = raven.plan_output("VGA-1", &modes).unwrap();
    assert_eq!((plan.x, plan.y, plan.scale), (3200, 0, None));
    raven.unmap_output(1);
    assert_eq!(raven.outputs.len(), 1);
    assert_eq!(raven.outputs[0].id, 2);
}

#[test]
fn switches_decide_of_scanout() {
    assert!(scanout_enabled(None, None));
    assert!(!scanout_enabled(Some("TRUE"), Some("1")));
    assert!(scanout_enabled(Some("0"), Some("0")));
    assert!(!scanout_enabled(None, Some("off")));
    assert!(force_full_redraw(Some("yes")));
    assert!(!force_full_redraw(None));
}

const CLEAR: OutputSight = OutputSight {
    has_geometry: true,
    pointer_inside: true,
    cursor_hidden: true,
    overlay_layers: false,
    top_layers: false,
};

#[test]
fn scanout_is_refused_with_a_reason() {
    assert_eq!(scanout_rejection_reason(true, CLEAR), None);
    assert_eq!(
        scanout_rejection_reason(false, CLEAR),
        Some(ScanoutRejection::FullscreenNotActive)
    );
    let cursor = OutputSight { cursor_hidden: false, ..CLEAR };
    assert_eq!(
        scanout_rejection_reason(true, cursor).map(ScanoutRejection::name),
        Some("cursor-visible")
    );
    let bar = OutputSight { top_layers: true, ..CLEAR };
    assert_eq!(
        scanout_rejection_reason(true, bar).map(ScanoutRejection::name),
        Some("overlay-or-top-layer-visible")
    );
    let lost = OutputSight { has_geometry: false, ..CLEAR };
    assert_eq!(
        scanout_rejection_reason(true, lost).map(ScanoutRejection::name),
        Some("missing-output-geometry")
    );
}

#[test]
fn refusals_are_counted() {
    let mut counters = RejectionCounters::new();
    let logged: Vec<bool> = (0..5)
        .map(|_| counters.record_scanout_rejection("DP-1", ScanoutRejection::Disabled))
        .collect();
    assert_eq!(logged, vec![true, true, true, false, false]);
    assert!(counters.record_scanout_rejection("DP-2", ScanoutRejection::Disabled));
    assert!(counters.record_scanout_rejection("DP-1", ScanoutRejection::CursorVisible));
    assert_eq!(counters.entries.len(), 3);
    assert_eq!(counters.entries[0].count, 5);
    counters.entries[0].count = 2999;
    assert!(counters.record_scanout_rejection("DP-1", ScanoutRejection::Disabled));
}

#[test]
fn frames_are_traced() {
    assert_eq!(trace_rect("assigned", rect(-3, 4, 50, 60)), "assigned=50x60@-3,4");
    assert_eq!(render_trace_line(true, 3999), (4000, true));
    assert_eq!(render_trace_line(true, 4000), (4000, false));
    assert_eq!(render_trace_line(false, 0), (0, false));
}

#[test]
fn one_frame_at_a_time() {
    let mut clock = FrameClock::new();
    assert_eq!(clock.begin_render(), Some(None));
    assert_eq!(clock.begin_render(), None);
    assert_eq!(clock.finish_render(RenderOutcome::Submitted), FrameAction::SendFrameCallbacks(1));
    assert_eq!(clock.redraw_state, RedrawState::WaitingForVBlank { redraw_needed: false });
    clock.redraw_state = clock.redraw_state.queue_redraw();
    assert_eq!(clock.begin_render(), None);
    let before = clock;
    assert_eq!(clock.frame_finish(true, true, None), FrameAction::Nothing);
    assert_eq!(clock.frame_finish(false, false, None), FrameAction::Nothing);
    assert_eq!(clock, before);
    assert_eq!(
        clock.frame_finish(false, true, Some(60_000)),
        FrameAction::RenderAfter(9_999_999)
    );
    assert_eq!(clock.begin_render(), Some(None));
    assert_eq!(clock.finish_render(RenderOutcome::Empty(Some(5))), FrameAction::Nothing);
    clock.redraw_state = clock.redraw_state.queue_redraw();
    assert_eq!(clock.redraw_state, RedrawState::WaitingForEstimatedVBlankAndQueued(5));
    assert_eq!(clock.begin_render(), Some(Some(5)));
    assert_eq!(clock.finish_render(RenderOutcome::Failed), FrameAction::Nothing);
    assert_eq!(clock.redraw_state, RedrawState::Queued);
    clock.begin_render();
    assert_eq!(clock.finish_render(RenderOutcome::NoRenderer), FrameAction::Nothing);
    assert_eq!(clock.redraw_state, RedrawState::Idle);
    clock.redraw_state = RedrawState::WaitingForEstimatedVBlank(6);
    assert_eq!(clock.on_estimated_vblank_timer(), FrameAction::SendFrameCallbacks(2));
    assert_eq!(clock.redraw_state, RedrawState::Idle);
}

#[test]
fn frame_times_are_estimated() {
    assert_eq!(estimated_frame_micros(None), 16_666);
    assert_eq!(estimated_frame_micros(Some(144_000)), 6_944);
    let (time, flags) = presentation_of(Some(0), 77);
    assert_eq!((time, flags.vsync, flags.hw_clock), (77, true, false));
    let (time, flags) = presentation_of(Some(5), 77);
    assert_eq!((time, flags.hw_completion), (5, true));
}

#[test]
fn surfaces_are_told_of_a_frame_once() {
    let mut throttle = FrameThrottle::new();
    assert!(!throttle.should_send(None, 1, 1));
    assert!(!throttle.should_send(Some(2), 1, 1));
    assert!(throttle.should_send(Some(1), 1, 1));
    assert!(!throttle.should_send(Some(1), 1, 1));
    assert!(throttle.should_send(Some(1), 1, 2));
}

#[test]
fn surfaces_on_an_output_are_told() {
    let surface = |surface: u64, outputs: &[u64], primary: Option<u64>| ShownSurface {
        surface,
        outputs: outputs.to_vec(),
        primary,
        throttle: FrameThrottle::new(),
    };
    let mut surfaces = vec![
        surface(10, &[1, 2], Some(1)),
        surface(11, &[2], Some(1)),
        surface(12, &[1], Some(2)),
        surface(13, &[1], None),
        surface(14, &[1], Some(1)),
    ];
    assert_eq!(send_frame_callbacks_for_output(&mut surfaces, 1, 7), vec![10, 14]);
    assert!(send_frame_callbacks_for_output(&mut surfaces, 1, 7).is_empty());
    assert_eq!(send_frame_callbacks_for_output(&mut surfaces, 1, 8), vec![10, 14]);
    assert_eq!(surfaces[0].throttle.last_sent_at, Some((1, 8)));
    assert_eq!(surfaces[1].throttle.last_sent_at, None);
}

const BLACK: Color = Color { red: 0, green: 0, blue: 0, alpha: 0x3f80_0000 };

fn extent(w: f64, h: f64) -> Extent {
    Extent { w: w.to_bits(), h: h.to_bits() }
}

fn screen(id: u64, output: u64) -> Screen {
    Screen {
        id,
        output,
        clock: FrameClock { redraw_state: RedrawState::Idle, frame_callback_sequence: 0 },
        backdrop: SolidColorBuffer::new(extent(1.0, 1.0), BLACK),
    }
}

#[test]
fn redraws_are_drained() {
    let mut screens = Screens {
        screens: vec![screen(10, 1), screen(20, 2)],
        queued_redraws: HashSet::new(),
    };
    screens.queue_redraw_for_output(2);
    assert_eq!(screens.screens[0], screen(10, 1));
    assert_eq!(screens.screens[1].clock.redraw_state, RedrawState::Queued);
    assert_eq!(screens.screens[1].backdrop.commit, 1);
    assert_eq!(screens.drain_queued_redraws(), vec![20]);
    screens.queue_redraw_all();
    assert_eq!(screens.screens[1].backdrop.commit, 2);
    let mut drained = screens.drain_queued_redraws();
    drained.sort();
    assert_eq!(drained, vec![10, 20]);
    assert!(screens.drain_queued_redraws().is_empty());
}

fn piece(id: u64, kind: PieceKind) -> Piece {
    Piece { id, kind }
}

#[test]
fn fullscreen_comes_before_the_top_layer() {
    let overlay = vec![piece(1, PieceKind::Layer)];
    let top = vec![piece(2, PieceKind::Layer)];
    let pieces = vec![
        piece(1, PieceKind::Layer),
        piece(2, PieceKind::Layer),
        piece(3, PieceKind::Window),
        piece(4, PieceKind::Layer),
        piece(5, PieceKind::Window),
        piece(6, PieceKind::Other),
    ];
    let ids: Vec<u64> =
        reorder_for_fullscreen(&overlay, &pieces, &top).iter().map(|piece| piece.id).collect();
    assert_eq!(ids, vec![1, 3, 5, 2, 4]);
}

fn assigned(ids: &[u64], fullscreen: bool) -> AssignedWindowRect {
    AssignedWindowRect {
        window: 1,
        surface_ids: ids.to_vec(),
        is_fullscreen: fullscreen,
        assigned_logical: rect(0, 0, 100, 100),
        reported_logical_size: Size { w: 100, h: 100 },
        raw_root_logical: rect(0, 0, 100, 100),
    }
}

#[test]
fn frames_are_put_together() {
    let pieces = vec![
        piece(31, PieceKind::Layer),
        piece(30, PieceKind::Window),
        piece(31, PieceKind::Window),
        piece(40, PieceKind::Window),
        piece(50, PieceKind::Layer),
    ];
    let assignments = vec![assigned(&[40], false), assigned(&[30, 31], true)];
    assert_eq!(
        frame_parts(true, &pieces, &assignments),
        vec![
            FramePart::Cursor,
            FramePart::Assigned(1),
            FramePart::Plain(piece(40, PieceKind::Window)),
            FramePart::Plain(piece(50, PieceKind::Layer)),
            FramePart::Backdrop,
        ]
    );
    assert_eq!(frame_parts(false, &vec![], &assignments), vec![FramePart::Backdrop]);
}

#[test]
fn windows_are_drawn_where_they_belong() {
    let mut window = assigned(&[1], true);
    assert!(!window.needs_correction());
    assert_eq!(window.assigned_window_render_path(), WindowPath::SurfaceTree);
    window.raw_root_logical = rect(0, 0, 90, 100);
    assert!(window.needs_correction());
    assert_eq!(window.assigned_window_render_path(), WindowPath::Stretched);
    assert!(window.root_fills_target());
    assert_eq!(window.projection_expected_size(), Size { w: 90, h: 100 });
    window.is_fullscreen = false;
    assert_eq!(window.assigned_window_render_path(), WindowPath::SurfaceTree);
    assert!(window.root_fills_target());
    window.raw_root_logical = rect(0, 0, 90, 90);
    assert!(!window.root_fills_target());
    assert_eq!(
        translate_geometry_between_rects(rect(15, 15, 3, 4), rect(10, 10, 1, 1), rect(-5, 0, 9, 9)),
        rect(0, 5, 3, 4)
    );
}

#[test]
fn window_is_assigned_its_rectangle() {
    let mut raven = Raven::new(RuntimeConfig::default());
    assert!(raven.window_assignment_for_output(7, Point { x: 0, y: 0 }, vec![7]).is_none());
    raven.record_assigned_rect_for_window(7, rect(100, 50, 400, 300));
    assert!(raven.window_assignment_for_output(7, Point { x: 0, y: 0 }, vec![]).is_none());
    let assignment =
        raven.window_assignment_for_output(7, Point { x: 10, y: 20 }, vec![7, 8]).unwrap();
    assert_eq!(assignment.raw_root_logical.loc, Point { x: 90, y: 30 });
    assert_eq!(assignment.assigned_logical, rect(100, 50, 400, 300));
    assert!(!assignment.is_fullscreen);
}

#[test]
fn frame_is_composed() {
    let mut raven = Raven::new(RuntimeConfig::default());
    raven.record_assigned_rect_for_window(7, rect(100, 50, 400, 300));
    let sight = FrameSight {
        cursor: true,
        overlay: vec![piece(1, PieceKind::Layer)],
        top: vec![piece(2, PieceKind::Layer)],
        pieces: vec![
            piece(1, PieceKind::Layer),
            piece(2, PieceKind::Layer),
            piece(7, PieceKind::Window),
            piece(4, PieceKind::Layer),
        ],
        windows: vec![
            DrawnWindow { window: 8, origin: Point { x: 0, y: 0 }, surface_ids: vec![8] },
            DrawnWindow { window: 7, origin: Point { x: 0, y: 0 }, surface_ids: vec![7] },
        ],
    };
    // An output without a place has no windows to put anywhere.
    assert!(raven.compose_frame(1, false, &sight).assignments.is_empty());
    raven.map_output(Output {
        id: 1,
        geometry: Some(rect(0, 0, 800, 600)),
        work_area: rect(0, 0, 800, 600),
    });
    let frame = raven.compose_frame(1, false, &sight);
    assert_eq!(frame.assignments.len(), 1);
    assert_eq!(frame.assignments[0].window, 7);
    let layer = |id: u64| FramePart::Plain(piece(id, PieceKind::Layer));
    let window = FramePart::Plain(piece(7, PieceKind::Window));
    assert_eq!(
        frame.parts,
        vec![FramePart::Cursor, layer(1), layer(2), window, layer(4), FramePart::Backdrop]
    );
    assert_eq!(
        raven.compose_frame(1, true, &sight).parts,
        vec![FramePart::Cursor, layer(1), window, layer(2), layer(4), FramePart::Backdrop]
    );
}

#[test]
fn frame_begins_when_one_is_due() {
    let mut raven = Raven::new(RuntimeConfig::default());
    let mut counters = RejectionCounters::new();
    let mut idle = screen(10, 1);
    assert!(raven
        .begin_frame(&mut idle, "DP-1", true, true, BLACK, CLEAR, &mut counters)
        .is_none());
    assert_eq!(idle, screen(10, 1));
    let mut due = Screen { clock: FrameClock::new(), ..screen(10, 1) };
    let start =
        raven.begin_frame(&mut due, "DP-1", true, false, BLACK, CLEAR, &mut counters).unwrap();
    assert!(!start.fullscreen);
    assert_eq!(start.timer, None);
    assert_eq!(due.backdrop.commit, 0);
    assert!(counters.entries.is_empty());
    raven.map_output(Output {
        id: 1,
        geometry: Some(rect(0, 0, 800, 600)),
        work_area: rect(0, 0, 800, 600),
    });
    let mut due = Screen { clock: FrameClock::new(), ..screen(10, 1) };
    raven.begin_frame(&mut due, "DP-1", true, true, BLACK, CLEAR, &mut counters).unwrap();
    assert_eq!((due.backdrop.size, due.backdrop.commit), (extent(800.0, 600.0), 2));
}

#[test]
fn backdrop_counts_its_changes() {
    let black = BLACK;
    let grey = Color { red: 0.5_f32.to_bits(), ..black };
    let mut buffer = SolidColorBuffer::new(extent(10.0, 10.0), black);
    buffer.update(extent(10.0, 10.0), black);
    assert_eq!(buffer.commit, 0);
    buffer.resize(extent(20.5, 10.0));
    buffer.resize(extent(20.5, 10.0));
    buffer.set_color(grey);
    buffer.set_color(grey);
    assert_eq!(buffer.commit, 2);
    buffer.touch();
    assert_eq!((buffer.commit, buffer.color(), buffer.size()), (3, grey, extent(20.5, 10.0)));
}

#[test]
fn next_frame_waits_three_fifths_of_its_time() {
    assert_eq!(repaint_delay_nanos(Some(60_000)), 9_999_999);
    assert_eq!(repaint_delay_nanos(Some(144_000)), 4_166_666);
    assert_eq!(repaint_delay_nanos(Some(1)), 600_000_000_000);
    assert_eq!(repaint_delay_nanos(Some(0)), 10_000_200);
    assert_eq!(repaint_delay_nanos(None), 10_000_200);
}

#[test]
fn backdrop_compares_numbers() {
    let black = BLACK;
    let mut buffer = SolidColorBuffer::new(extent(0.0, 10.0), black);
    // Both zeros are equal: the first one stays.
    buffer.set_color(Color { red: (-0.0_f32).to_bits(), ..black });
    buffer.resize(extent(-0.0, 10.0));
    assert_eq!(buffer, SolidColorBuffer::new(extent(0.0, 10.0), black));
    // What is no number differs from itself.
    let nothing = Color { green: f32::NAN.to_bits(), ..black };
    buffer.set_color(nothing);
    buffer.set_color(nothing);
    assert_eq!(buffer.commit, 2);
    buffer.resize(extent(0.0, 10.0));
    assert_eq!(buffer.commit, 2);
    buffer.update(extent(0.0, 10.0), nothing);
    assert_eq!(buffer.commit, 3);
    buffer.resize(extent(f64::NAN, 10.0));
    buffer.resize(extent(f64::NAN, 10.0));
    assert_eq!(buffer.commit, 5);
    buffer.set_color(Color { green: f32::INFINITY.to_bits(), ..black });
    buffer.set_color(Color { green: f32::INFINITY.to_bits(), ..black });
    assert_eq!(buffer.commit, 6);
    assert_eq!(SolidColorBuffer::default().size(), extent(0.0, 0.0));
}

#[test]
fn whole_sizes_have_exact_extents() {
    for side in [0, 1, 2, 3, 7, 800, 1920, 65_537, i32::MAX - 1, i32::MAX, -1, -640, i32::MIN] {
        let found = Extent::of(Size { w: side, h: 1 });
        assert_eq!(found, extent(f64::from(side), 1.0));
        assert!(found.is_like(found));
    }
    assert!(!Extent::of(Size { w: 4, h: 5 }).is_like(Extent::of(Size { w: 5, h: 4 })));
}
