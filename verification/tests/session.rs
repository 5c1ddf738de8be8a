//! Programs that the compositor starts, and the services around it.

use raven::config::runtime::{EnvChange, RuntimeConfig, WallpaperConfig};
use raven::session::activation::sync_activation_environment;
use raven::session::portals::{
    default_portal_preferences, judge_restart, judge_unit, legacy_portal_preferences,
    portal_preferences_step, preferences_root, CommandReport, PortalStep, PreferencesRoot,
    PreferencesStep, UnitOutcome,
};
use raven::session::satellite::{
    desired_xwayland_satellite_signature, ensure_xwayland_display, find_free_x11_display,
    satellite_env, x11_lock_path, x11_socket_path, Probe, Satellite, SatelliteAction,
};
use raven::session::spawn::{
    apply_no_csd_spawn_overrides, apply_wayland_browser_spawn_overrides, apply_wayland_child_env,
    apply_wayland_env_with_socket, chromium_explicit_sync_enabled, infer_command_program,
    spawn_command, spawn_launcher, spawn_terminal, SyncSwitches,
};
use raven::session::startup::SessionTask;
use raven::session::wallpaper::{
    apply_wallpaper, begin_wallpaper, ensure_waypaper_swww_daemon, expand_home_path, swww_daemon,
    swww_img, swww_query, WallpaperPlan, WallpaperStart, WallpaperStep,
};
use raven::state::raven::Raven;

fn config() -> RuntimeConfig {
    RuntimeConfig::default()
}

fn value_of(changes: &[EnvChange], name: &str) -> Option<Option<String>> {
    changes.iter().rev().find(|change| change.name == name).map(|change| change.value.clone())
}

#[test]
fn program_of_a_command_line_is_found() {
    assert_eq!(infer_command_program("env A=1 /usr/bin/kitty -e sh").as_deref(), Some("kitty"));
    assert_eq!(infer_command_program("A=1 B=2").as_deref(), None);
    assert_eq!(infer_command_program("./a=b/run").as_deref(), Some("run"));
    assert_eq!(infer_command_program("env env").as_deref(), Some("env"));
    assert_eq!(infer_command_program("").as_deref(), None);
}

#[test]
fn terminals_are_told_of_decorations() {
    assert_eq!(
        apply_no_csd_spawn_overrides(" alacritty ", true),
        "alacritty -o window.decorations=None"
    );
    assert_eq!(apply_no_csd_spawn_overrides("alacritty", false), "alacritty");
    assert_eq!(
        apply_no_csd_spawn_overrides("kitty -o Hide_Window_Decorations=no", true),
        "kitty -o Hide_Window_Decorations=no"
    );
    assert_eq!(
        apply_no_csd_spawn_overrides("wezterm start", true),
        "wezterm start --config window_decorations=NONE"
    );
    assert_eq!(apply_no_csd_spawn_overrides("foot", true), "foot");
    let once = apply_no_csd_spawn_overrides("kitty", true);
    assert_eq!(apply_no_csd_spawn_overrides(&once, true), once);
}

#[test]
fn browsers_are_told_of_wayland() {
    assert_eq!(
        apply_wayland_browser_spawn_overrides("brave", true),
        "brave --ozone-platform=wayland --enable-features=WaylandLinuxDrmSyncobj"
    );
    assert_eq!(
        apply_wayland_browser_spawn_overrides("chromium --ozone-platform=x11", false),
        "chromium --ozone-platform=x11 --disable-features=WaylandLinuxDrmSyncobj"
    );
    assert_eq!(apply_wayland_browser_spawn_overrides("firefox", true), "firefox");
    let once = apply_wayland_browser_spawn_overrides("google-chrome", false);
    assert_eq!(apply_wayland_browser_spawn_overrides(&once, false), once);
}

#[test]
fn explicit_sync_follows_the_switches() {
    let none = SyncSwitches { disable: None, chromium_disable: None, chromium_explicit: None };
    assert!(chromium_explicit_sync_enabled(&none, true));
    assert!(!chromium_explicit_sync_enabled(&none, false));
    let asked = SyncSwitches { chromium_explicit: Some("ON"), ..none };
    assert!(chromium_explicit_sync_enabled(&asked, false));
    let off = SyncSwitches { disable: Some("1"), chromium_disable: None, chromium_explicit: Some("1") };
    assert!(!chromium_explicit_sync_enabled(&off, true));
}

#[test]
fn commands_are_started() {
    let mut config = config();
    config.terminal = "kitty".to_string();
    config.launcher = "  ".to_string();
    config.no_csd = true;
    assert_eq!(
        spawn_terminal(&config, true).as_deref(),
        Some("kitty -o hide_window_decorations=yes")
    );
    assert_eq!(spawn_launcher(&config, true), None);
    assert_eq!(spawn_command(&config, " true ", true).as_deref(), Some("true"));
}

#[test]
fn children_get_an_environment() {
    let mut config = config();
    config.xwayland.display = " :7 ".to_string();
    let changes = apply_wayland_child_env(&config, "wayland-1", Some("/run/user/1"));
    assert_eq!(value_of(&changes, "WAYLAND_DISPLAY"), Some(Some("wayland-1".to_string())));
    assert_eq!(value_of(&changes, "XDG_RUNTIME_DIR"), Some(Some("/run/user/1".to_string())));
    assert_eq!(value_of(&changes, "DISPLAY"), Some(Some(":7".to_string())));
    assert_eq!(value_of(&changes, "SWAYSOCK"), Some(None));
    assert_eq!(value_of(&changes, "GDK_BACKEND"), Some(Some("wayland".to_string())));
    assert_eq!(value_of(&changes, "QT_QPA_PLATFORM"), Some(Some("wayland".to_string())));
    assert_eq!(value_of(&changes, "MOZ_ENABLE_WAYLAND"), Some(Some("1".to_string())));
    assert_eq!(value_of(&changes, "SDL_VIDEODRIVER"), Some(None));
    assert_eq!(
        value_of(&changes, "QT_WAYLAND_DISABLE_WINDOWDECORATION"),
        Some(Some("1".to_string()))
    );
    config.no_csd = false;
    config.xwayland.enabled = false;
    let changes = apply_wayland_child_env(&config, "wayland-1", None);
    assert_eq!(value_of(&changes, "DISPLAY"), Some(None));
    assert_eq!(value_of(&changes, "XDG_RUNTIME_DIR"), None);
    assert_eq!(value_of(&changes, "QT_WAYLAND_DISABLE_WINDOWDECORATION"), Some(None));
    let changes = apply_wayland_env_with_socket("wayland-1", None);
    assert_eq!(value_of(&changes, "DISPLAY"), Some(None));
    assert_eq!(value_of(&changes, "CHROMIUM_FLAGS"), None);
}

#[test]
fn services_are_told_of_the_environment() {
    let mut config = config();
    config.xwayland.display = ":3".to_string();
    let commands = sync_activation_environment(&config, "wayland-1", true);
    assert_eq!(commands.len(), 3);
    assert_eq!(commands[0].program, "dbus-update-activation-environment");
    assert_eq!(commands[0].args[0], "--systemd");
    assert_eq!(commands[0].args[1], "WAYLAND_DISPLAY=wayland-1");
    assert!(commands[0].args.contains(&"DISPLAY=:3".to_string()));
    assert!(commands[0].args.contains(&"GDK_BACKEND=".to_string()));
    assert_eq!(commands[1].args[1], "set-environment");
    assert!(commands[1].args.contains(
        &"CHROMIUM_FLAGS=--enable-features=WaylandLinuxDrmSyncobj".to_string()
    ));
    assert!(commands[1].args.contains(&"QT_WAYLAND_DISABLE_WINDOWDECORATION=1".to_string()));
    assert_eq!(commands[2].args.len(), 7);
    config.no_csd = false;
    config.xwayland.display = String::new();
    let commands = sync_activation_environment(&config, "wayland-1", false);
    assert_eq!(commands.len(), 4);
    assert_eq!(commands[3].args, vec!["--user", "unset-environment", "DISPLAY"]);
    assert!(commands[0].args.contains(&"DISPLAY=".to_string()));
    assert!(commands[1].args.contains(&"QT_WAYLAND_DISABLE_WINDOWDECORATION=".to_string()));
    assert!(!commands[1].args.iter().any(|arg| arg.starts_with("DISPLAY")));
}

fn report(success: bool, code: Option<i32>, stderr: &str) -> CommandReport {
    CommandReport { success, code, stderr: stderr.to_string() }
}

#[test]
fn portals_come_up_step_by_step() {
    let ok = report(true, Some(0), "");
    let stuck = report(false, Some(2), "Job type restart is not applicable");
    let mut step = PortalStep::first();
    let mut seen = Vec::new();
    while let Some(command) = step.command() {
        assert_eq!(command.program, "systemctl");
        seen.push(format!("{} {}", command.args[command.args.len() - 2], command.args.last().unwrap()));
        let answer = if step == PortalStep::Restart(1) { &stuck } else { &ok };
        step = step.advance(Some(answer));
    }
    assert_eq!(
        seen,
        vec![
            "stop xdg-desktop-portal-gnome.service",
            "stop xdg-desktop-portal-hyprland.service",
            "stop xdg-desktop-portal-kde.service",
            "restart xdg-desktop-portal-gtk.service",
            "restart xdg-desktop-portal-wlr.service",
            "start xdg-desktop-portal-wlr.service",
            "restart xdg-desktop-portal.service",
        ]
    );
    assert_eq!(PortalStep::Start(2).advance(None), PortalStep::Done);
}

#[test]
fn portal_reports_are_judged() {
    assert_eq!(judge_unit(&report(true, Some(0), "")), UnitOutcome::Done);
    assert_eq!(judge_unit(&report(false, Some(5), "Unit x not loaded.")), UnitOutcome::Missing);
    assert_eq!(judge_unit(&report(false, Some(1), "denied")), UnitOutcome::Failed);
    assert_eq!(
        judge_restart(&report(false, Some(1), "Job type restart is not applicable")),
        UnitOutcome::Done
    );
    assert_eq!(
        judge_restart(&report(false, None, "Job type restart is not applicable")),
        UnitOutcome::NotRestartable
    );
    assert_eq!(judge_restart(&report(false, Some(1), "Unit not found")), UnitOutcome::Missing);
    assert_eq!(judge_restart(&report(false, Some(1), "")), UnitOutcome::Failed);
}

#[test]
fn portal_preferences_are_written_once() {
    assert_eq!(portal_preferences_step(false, None), PreferencesStep::Create);
    assert_eq!(
        portal_preferences_step(true, Some(legacy_portal_preferences())),
        PreferencesStep::Migrate
    );
    assert_eq!(
        portal_preferences_step(true, Some(default_portal_preferences())),
        PreferencesStep::Keep
    );
    assert_eq!(portal_preferences_step(true, None), PreferencesStep::Keep);
    assert!(default_portal_preferences().starts_with("[preferred]\ndefault=gtk;\n"));
    assert!(matches!(preferences_root(Some(""), Some("/h")), PreferencesRoot::Home(dir) if dir == "/h"));
    assert!(matches!(preferences_root(Some("/c"), None), PreferencesRoot::Directory(dir) if dir == "/c"));
    assert!(matches!(preferences_root(None, Some("")), PreferencesRoot::Unknown));
}

#[test]
fn display_for_x11_is_picked() {
    let mut taken = vec![false; 100];
    taken[0] = true;
    taken[1] = true;
    assert_eq!(find_free_x11_display(&taken).as_deref(), Some(":2"));
    assert_eq!(find_free_x11_display(&vec![true; 100]), None);
    assert_eq!(x11_socket_path(12), "/tmp/.X11-unix/X12");
    assert_eq!(x11_lock_path(12), "/tmp/.X12-lock");
    let mut config = config();
    assert_eq!(desired_xwayland_satellite_signature(&config), None);
    assert!(ensure_xwayland_display(&mut config, &taken));
    assert_eq!(config.xwayland.display, ":2");
    assert!(!ensure_xwayland_display(&mut config, &taken));
    assert_eq!(
        desired_xwayland_satellite_signature(&config).as_deref(),
        Some("xwayland-satellite|:2")
    );
    config.xwayland.enabled = false;
    assert_eq!(desired_xwayland_satellite_signature(&config), None);
}

#[test]
fn satellite_waits_after_failures() {
    let mut satellite = Satellite::new();
    let wanted = Some("sat|:1");
    assert_eq!(
        satellite.maintain_xwayland_satellite(wanted, Probe::Running, 0),
        SatelliteAction::Spawn
    );
    let waits: Vec<u64> = (0..7)
        .map(|_| {
            satellite.spawn_xwayland_satellite("sat|:1".to_string(), false, 1000);
            satellite.backoff_until.unwrap() - 1000
        })
        .collect();
    assert_eq!(waits, vec![2000, 4000, 8000, 16000, 30000, 30000, 30000]);
    assert_eq!(
        satellite.maintain_xwayland_satellite(wanted, Probe::Running, 30999),
        SatelliteAction::Nothing
    );
    assert_eq!(
        satellite.maintain_xwayland_satellite(wanted, Probe::Running, 31000),
        SatelliteAction::Spawn
    );
}

#[test]
fn satellite_is_looked_after() {
    let mut satellite = Satellite::new();
    satellite.spawn_xwayland_satellite("sat|:1".to_string(), true, 0);
    assert_eq!(
        satellite.maintain_xwayland_satellite(Some("sat|:1"), Probe::Running, 10),
        SatelliteAction::Nothing
    );
    assert_eq!(
        satellite.maintain_xwayland_satellite(Some("sat|:2"), Probe::Running, 20),
        SatelliteAction::StopAndSpawn
    );
    satellite.spawn_xwayland_satellite("sat|:2".to_string(), true, 20);
    // It ended soon after its start.
    assert_eq!(
        satellite.maintain_xwayland_satellite(Some("sat|:2"), Probe::Exited, 8019),
        SatelliteAction::Nothing
    );
    assert_eq!(satellite.failure_count, 1);
    satellite.spawn_xwayland_satellite("sat|:2".to_string(), true, 20000);
    assert_eq!(
        satellite.maintain_xwayland_satellite(Some("sat|:2"), Probe::Running, 35000),
        SatelliteAction::Nothing
    );
    assert_eq!(satellite.failure_count, 0);
    assert_eq!(
        satellite.maintain_xwayland_satellite(Some("sat|:2"), Probe::Failed, 36000),
        SatelliteAction::Nothing
    );
    assert_eq!(satellite.failure_count, 1);
    assert_eq!(
        satellite.maintain_xwayland_satellite(None, Probe::Running, 36000),
        SatelliteAction::Stop
    );
    assert_eq!(satellite.failure_count, 0);
}

#[test]
fn satellite_knows_no_display() {
    let mut config = config();
    config.xwayland.display = ":1".to_string();
    let changes = satellite_env(&config, "wayland-1", None, None);
    assert_eq!(value_of(&changes, "DISPLAY"), Some(None));
    assert_eq!(
        value_of(&changes, "RUST_LOG"),
        Some(Some("xwayland_satellite=warn,xwayland_process=warn".to_string()))
    );
    let changes = satellite_env(&config, "wayland-1", None, Some("info"));
    assert_eq!(value_of(&changes, "RUST_LOG"), Some(Some("info".to_string())));
}

fn wallpaper(enabled: bool, restore: &str, image: &str) -> WallpaperConfig {
    WallpaperConfig {
        enabled,
        restore_command: restore.to_string(),
        image: image.to_string(),
        ..WallpaperConfig::default()
    }
}

#[test]
fn wallpaper_is_planned() {
    assert!(matches!(apply_wallpaper(&wallpaper(false, "x", "y")), WallpaperPlan::Nothing));
    assert!(matches!(
        apply_wallpaper(&wallpaper(true, " restore me ", "y")),
        WallpaperPlan::Restore(command) if command == "restore me"
    ));
    assert!(matches!(
        apply_wallpaper(&wallpaper(true, "waypaper --restore", "")),
        WallpaperPlan::Restore(command) if command.starts_with("unset SWWW_SOCKET")
            && command.ends_with("; waypaper --restore")
    ));
    assert!(matches!(apply_wallpaper(&wallpaper(true, "", " ")), WallpaperPlan::NoImage));
    assert!(matches!(
        apply_wallpaper(&wallpaper(true, "", " ~/a.png ")),
        WallpaperPlan::Image(path) if path == "~/a.png"
    ));
    assert!(ensure_waypaper_swww_daemon(&wallpaper(false, "waypaper --restore", "")).is_some());
    assert!(ensure_waypaper_swww_daemon(&wallpaper(true, "other", "")).is_none());
    assert_eq!(expand_home_path("~/a.png", Some("/h")).as_deref(), Some("a.png"));
    assert_eq!(expand_home_path("~/a.png", None), None);
    assert_eq!(expand_home_path("/a.png", Some("/h")), None);
}

#[test]
fn one_wallpaper_at_a_time() {
    let mut inflight = false;
    assert_eq!(begin_wallpaper(false, &mut inflight), WallpaperStart::NotFound);
    assert!(!inflight);
    assert_eq!(begin_wallpaper(true, &mut inflight), WallpaperStart::Begin);
    assert!(inflight);
    assert_eq!(begin_wallpaper(true, &mut inflight), WallpaperStart::Busy);
}

#[test]
fn wallpaper_steps_end() {
    // A daemon that never answers is started four times and then given up.
    let mut step = WallpaperStep::first();
    let (mut starts, mut polls, mut waited) = (0, 0, 0);
    while step != WallpaperStep::Done {
        let success = matches!(step, WallpaperStep::StartDaemon(_));
        starts += success as u32;
        polls += matches!(step, WallpaperStep::Poll(_, _)) as u32;
        let (next, pause) = step.advance(success);
        waited += pause;
        step = next;
    }
    assert_eq!((starts, polls, waited), (4, 80, 4 * 120 + 80 * 50));
    // A picture that is never taken is handed over eight times.
    let mut step = WallpaperStep::ShowImage(1);
    let mut attempts = 0;
    while step != WallpaperStep::Done {
        attempts += 1;
        step = step.advance(false).0;
    }
    assert_eq!(attempts, 8);
    assert_eq!(WallpaperStep::Check(1).advance(true).0, WallpaperStep::LastCheck);
    assert_eq!(WallpaperStep::LastCheck.advance(true).0, WallpaperStep::ShowImage(1));
    assert_eq!(WallpaperStep::Poll(4, 0).advance(true), (WallpaperStep::LastCheck, 0));
}

#[test]
fn wallpaper_commands() {
    assert_eq!(swww_query().args, vec!["query", "--namespace", "raven"]);
    assert_eq!(swww_daemon().args, vec!["--namespace", "raven", "--quiet"]);
    let command = swww_img(&wallpaper(true, "", ""), "/a.png", "0.7");
    assert_eq!(command.program, "swww");
    assert_eq!(
        command.args,
        vec![
            "img",
            "--namespace",
            "raven",
            "/a.png",
            "--resize",
            "crop",
            "--transition-type",
            "simple",
            "--transition-duration",
            "0.7",
        ]
    );
}

#[test]
fn session_starts_in_order() {
    let mut config = config();
    config.autostart = vec!["waybar".to_string(), "mako".to_string()];
    let mut raven = Raven::new(config);
    let mut started = false;
    let tasks = raven.run_startup_tasks(&vec![false; 100], &mut started);
    assert_eq!(raven.config.xwayland.display, ":0");
    assert!(started);
    assert!(raven.redraw_all);
    assert_eq!(
        format!("{tasks:?}"),
        "[SyncActivationEnvironment, MaintainSatellite, KickPortals, Spawn(\"waybar\"), \
         Spawn(\"mako\"), EnsureWallpaperDaemon, ApplyWallpaper]"
    );
    let again = raven.run_startup_tasks(&vec![false; 100], &mut started);
    assert!(!again.iter().any(|task| matches!(task, SessionTask::Spawn(_))));
}

#[test]
fn configuration_is_reloaded() {
    let mut raven = Raven::new(config());
    let mut next = config();
    next.terminal = "xterm".to_string();
    let (tasks, result) = raven.reload_config(next, &vec![true, false], true);
    assert!(result.is_ok());
    assert_eq!(raven.config.terminal, "xterm");
    assert_eq!(raven.config.xwayland.display, ":1");
    assert_eq!(
        format!("{tasks:?}"),
        "[ApplyEnvironment, SyncActivationEnvironment, MaintainSatellite, ReloadCursorTheme, \
         ApplyWallpaper]"
    );
}

#[test]
fn commands_are_changed_once() {
    for command in ["alacritty", " kitty -e sh ", "env A=1 /usr/bin/wezterm", "foot", ""] {
        let once = apply_no_csd_spawn_overrides(command, true);
        assert_eq!(apply_no_csd_spawn_overrides(&once, true), once);
    }
    for command in ["brave", "chromium --ozone-platform-hint=auto", "foot"] {
        for sync in [true, false] {
            let once = apply_wayland_browser_spawn_overrides(command, sync);
            assert_eq!(apply_wayland_browser_spawn_overrides(&once, sync), once);
        }
    }
}
