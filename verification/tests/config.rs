//! The configuration: how its keys and values are read.

use raven::config::floats::{number_texts, DoubleReading, Reading, Readings, Sign, SingleReading};
use raven::config::keybinds::{
    default_keybinds, parse_combo, parse_keybind_line, parse_main_key, KeybindAction,
    KeybindModifiers, MainKey, ModifiersState,
};
use raven::config::monitors::parse_monitor_configs;
use raven::config::runtime::{
    apply_environment, config_path, load_from_values, load_lua_values, needs_template, ConfigRoot,
    RuntimeConfig,
};
use raven::config::scalars::{parse_bool, parse_bool_flexible, parse_i32, parse_u32};
use raven::config::template::{default_config_template, lua_loader_script};
use raven::config::values::{collect_indexed_values, parse_key_value_stdout, Values};
use raven::config::watch::ConfigWatch;
use raven::config::window_rules::{parse_window_rules, WindowRule};
use raven::CompositorError;

fn values(pairs: &[(&str, &str)]) -> Values {
    let mut values = Values::new();
    for (key, value) in pairs {
        values.insert(key.to_string(), value.to_string());
    }
    values
}

fn reading(text: &str) -> Reading {
    let double = match text.parse::<f64>() {
        Err(err) => DoubleReading::Invalid(err.to_string()),
        Ok(value) if !value.is_finite() => DoubleReading::NotFinite,
        Ok(value) => {
            let sign = if value < 0.0 {
                Sign::Negative
            } else if value > 0.0 {
                Sign::Positive
            } else {
                Sign::Zero
            };
            let whole = if value.fract() == 0.0 && value.abs() < 9.0e18 {
                Some(value as i64)
            } else {
                None
            };
            DoubleReading::Finite(sign, whole)
        }
    };
    let single = match text.parse::<f32>() {
        Err(err) => SingleReading::Invalid(err.to_string()),
        Ok(value) => SingleReading::Value((0.1..=0.9).contains(&value), value < 0.0),
    };
    Reading { text: text.to_string(), double, single }
}

fn readings(values: &Values) -> Readings {
    Readings { list: number_texts(values).iter().map(|text| reading(text)).collect() }
}

fn load(pairs: &[(&str, &str)]) -> Result<RuntimeConfig, CompositorError> {
    let values = values(pairs);
    load_from_values(&values, &readings(&values))
}

fn message<T>(result: Result<T, CompositorError>) -> String {
    match result {
        Ok(_) => panic!("expected a failure"),
        Err(error) => error.message().to_string(),
    }
}

#[test]
fn empty_configuration_has_defaults() {
    let config = load(&[]).unwrap();
    assert_eq!(config.main_key, MainKey::Super);
    assert!(config.focus_follow_mouse);
    assert!(config.monitors.is_empty());
    assert!(config.window_rules.is_empty());
    assert!(!config.wallpaper.enabled);
    assert_eq!(config.wallpaper.restore_command, "waypaper --restore");
    assert!(config.xwayland.enabled);
    assert_eq!(config.xwayland.path, "xwayland-satellite");
    assert_eq!(config.xwayland.display, "");
    assert_eq!(config.keybinds.len(), default_keybinds(MainKey::Super).len());
}

#[test]
fn configuration_is_read() {
    let config = load(&[
        ("modkey", "Alt"),
        ("terminal", "foot"),
        ("launcher", "fuzzel"),
        ("focus_follow_mouse", "false"),
        ("border_size", "3"),
        ("autostart.2", "mako"),
        ("autostart.1", "waybar"),
        ("master_factor", "0.55"),
        ("num_master", "2"),
    ])
    .unwrap();
    assert_eq!(config.main_key, MainKey::Alt);
    assert_eq!(config.terminal, "foot");
    assert_eq!(config.launcher, "fuzzel");
    assert!(!config.focus_follow_mouse);
    assert_eq!(config.border_size, 3);
    assert_eq!(config.autostart, vec!["waybar".to_string(), "mako".to_string()]);
    assert_eq!(config.num_master, 2);
}

#[test]
fn settings_out_of_range_are_refused() {
    assert_eq!(
        message(load(&[("master_factor", "0.95")])),
        "master_factor must be between 0.1 and 0.9"
    );
    assert_eq!(message(load(&[("num_master", "0")])), "num_master must be >= 1");
    assert_eq!(message(load(&[("cursor_size", "0")])), "cursor_size must be greater than 0");
    assert_eq!(
        message(load(&[("border_size", "many")])),
        "invalid value for border_size: many (invalid digit found in string)"
    );
}

#[test]
fn scalars_are_read() {
    let found = values(&[("a", "7"), ("b", "-7"), ("c", "yes"), ("d", "true"), ("e", "")]);
    assert_eq!(parse_u32(&found, "a", 1).unwrap(), 7);
    assert_eq!(parse_u32(&found, "missing", 1).unwrap(), 1);
    assert_eq!(parse_i32(&found, "b", 1).unwrap(), -7);
    assert!(parse_bool_flexible(&found, "c", false).unwrap());
    assert!(parse_bool(&found, "d", false).unwrap());
    assert!(parse_bool(&found, "c", false).is_err());
    assert_eq!(
        message(parse_u32(&found, "b", 1)),
        "invalid value for b: -7 (invalid digit found in string)"
    );
    assert!(message(parse_u32(&found, "e", 1)).contains("cannot parse integer from empty string"));
}

#[test]
fn indexed_values_come_in_order() {
    let found = values(&[("keybind.10", "c"), ("keybind.2", "b"), ("keybind.1", "a"), ("x", "y")]);
    assert_eq!(
        collect_indexed_values(&found, "keybind.").unwrap(),
        vec!["a".to_string(), "b".to_string(), "c".to_string()]
    );
    assert!(collect_indexed_values(&values(&[("keybind.x", "a")]), "keybind.").is_err());
}

#[test]
fn printed_lines_are_keys_and_values() {
    let found = parse_key_value_stdout("a=1\n\nb=x=y\n").unwrap();
    assert_eq!(found.get("a").unwrap(), "1");
    assert_eq!(found.get("b").unwrap(), "x=y");
    assert!(found.get("c").is_none());
    assert_eq!(
        message(parse_key_value_stdout("no mark")),
        "invalid lua output line: no mark"
    );
}

#[test]
fn failed_script_is_told() {
    assert_eq!(
        message(load_lua_values(false, "", " boom \n", "/c.lua")),
        "failed to load /c.lua: boom"
    );
    assert_eq!(
        message(load_lua_values(false, "", "\n", "/c.lua")),
        "failed to load /c.lua: lua exited with non-zero status"
    );
    assert!(load_lua_values(true, "a=b\n", "", "/c.lua").unwrap().contains_key("a"));
}

#[test]
fn main_key_has_names() {
    assert_eq!(parse_main_key("super").unwrap(), MainKey::Super);
    assert_eq!(parse_main_key(" ALT ").unwrap(), MainKey::Alt);
    assert_eq!(parse_main_key("Control").unwrap(), MainKey::Ctrl);
    assert!(parse_main_key("hyper").is_err());
}

#[test]
fn combos_are_read() {
    let (modifiers, key) = parse_combo("Main+Shift+Q", MainKey::Super).unwrap();
    assert_eq!(
        modifiers,
        KeybindModifiers { shift: true, ctrl: false, alt: false, logo: true }
    );
    assert_eq!(key, "Q");
    assert!(parse_combo("Main+", MainKey::Super).is_err());
    assert!(parse_combo("Main+Q+W", MainKey::Super).is_err());
}

#[test]
fn keybind_lines_are_read() {
    let bind = parse_keybind_line("Main+D exec fuzzel --dmenu", MainKey::Super).unwrap();
    match &bind.action {
        KeybindAction::Exec(command) => assert_eq!(command, "fuzzel --dmenu"),
        _ => panic!("not a command"),
    }
    let bind = parse_keybind_line("Main+3 workspace 3", MainKey::Super).unwrap();
    assert!(matches!(bind.action, KeybindAction::SwitchWorkspace(2)));
    let bind = parse_keybind_line("Main+Shift+0 movetoworkspace 10", MainKey::Super).unwrap();
    assert!(matches!(bind.action, KeybindAction::MoveFocusedToWorkspace(9)));
    assert!(parse_keybind_line("Main+3 workspace 11", MainKey::Super).is_err());
    assert_eq!(message(parse_keybind_line("  ", MainKey::Super)), "keybind entry must not be empty");
}

#[test]
fn keybinds_follow_the_held_keys() {
    let config = load(&[("keybind.1", "Main+Q exec one"), ("keybind.2", "Main+Q exec two")]).unwrap();
    let held = ModifiersState { shift: false, ctrl: false, alt: false, logo: true };
    match config.keybind_action_for(&held, 0x71) {
        Some(KeybindAction::Exec(command)) => assert_eq!(command, "one"),
        _ => panic!("no command"),
    }
    let free = ModifiersState { shift: false, ctrl: false, alt: false, logo: false };
    assert!(config.keybind_action_for(&free, 0x71).is_none());
    assert!(config.keybind_action_for(&held, 0x72).is_none());
}

#[test]
fn symbols_match_by_name_or_character() {
    let config = load(&[
        ("keybind.1", "Main+Return exec foot"),
        ("keybind.2", "Main+space exec fuzzel"),
        ("keybind.3", "Main+- exec less"),
        ("keybind.4", "Main+é exec e"),
    ])
    .unwrap();
    let held = ModifiersState { shift: false, ctrl: false, alt: false, logo: true };
    assert!(config.keybind_action_for(&held, 0xff0d).is_some());
    assert!(config.keybind_action_for(&held, 0xff8d).is_some());
    // The space bar, and the minus key of the number pad.
    assert!(config.keybind_action_for(&held, 0x20).is_some());
    assert!(config.keybind_action_for(&held, 0xffad).is_some());
    // A key is named by one ASCII character or by a word.
    assert!(config.keybind_action_for(&held, 0xe9).is_none());
    assert!(config.keybind_action_for(&held, 0xff1b).is_none());
}

#[test]
fn window_rules_are_read() {
    let rules = parse_window_rules(&values(&[
        ("window_rule.2.app_id", "mpv"),
        ("window_rule.2.fullscreen", "on"),
        ("window_rule.1.class", " firefox "),
        ("window_rule.1.workspace", "3"),
        ("window_rule.1.floating", "0"),
        ("window_rule.1.width", "800"),
    ]))
    .unwrap();
    assert_eq!(rules.len(), 2);
    assert_eq!(rules[0].class.as_deref(), Some("firefox"));
    assert_eq!(rules[0].workspace, Some(2));
    assert_eq!(rules[0].floating, Some(false));
    assert_eq!(rules[0].width, Some(800));
    assert_eq!(rules[1].fullscreen, Some(true));
    assert_eq!(
        message(parse_window_rules(&values(&[("window_rule.1.workspace", "11")]))),
        "invalid value for window_rule.1.workspace: 11 (expected 1..10)"
    );
    assert_eq!(
        message(parse_window_rules(&values(&[("window_rule.1", "x")]))),
        "invalid window rule key `window_rule.1`: expected format window_rule.<index>.<field>"
    );
    assert_eq!(
        message(parse_window_rules(&values(&[("window_rule.1. ", "x")]))),
        "invalid window rule key `window_rule.1. `: missing field"
    );
}

#[test]
fn window_rule_matches_names() {
    let rule = |class: Option<&str>, app_id: Option<&str>, title: Option<&str>| WindowRule {
        class: class.map(str::to_string),
        app_id: app_id.map(str::to_string),
        title: title.map(str::to_string),
        workspace: None,
        floating: None,
        fullscreen: None,
        focus: None,
        width: None,
        height: None,
    };
    assert!(rule(Some("Firefox"), None, None).matches(Some("firefox"), None));
    assert!(!rule(Some("Firefox"), None, None).matches(Some("firefox-esr"), None));
    assert!(rule(None, None, Some("Video")).matches(None, Some("my video player")));
    assert!(!rule(None, None, Some("Video")).matches(Some("x"), None));
    assert!(!rule(None, Some("mpv"), Some("x")).matches(Some("mpv"), Some("y")));
}

#[test]
fn monitors_are_read() {
    let found = values(&[
        ("monitor.1.name", " DP-1 "),
        ("monitor.1.mode", "2560x1440@144"),
        ("monitor.1.x", "0"),
        ("monitor.1.scale", "1.5"),
        ("monitor.1.transform", " 90 "),
        ("monitor.2.output", "HDMI-A-1"),
        ("monitor.2.enabled", "no"),
        ("monitor.2.width", "1920"),
        ("monitor.2.height", "1080.0"),
    ]);
    let monitors = parse_monitor_configs(&found, &readings(&found)).unwrap();
    assert_eq!(monitors.len(), 2);
    assert_eq!(monitors[0].name, "DP-1");
    assert!(monitors[0].enabled);
    assert_eq!((monitors[0].width, monitors[0].height), (Some(2560), Some(1440)));
    assert_eq!(monitors[0].refresh_hz.as_deref(), Some("144"));
    assert_eq!(monitors[0].x, Some(0));
    assert_eq!(monitors[0].scale.as_deref(), Some("1.5"));
    assert_eq!(monitors[0].transform.as_deref(), Some("90"));
    assert_eq!(monitors[1].name, "HDMI-A-1");
    assert!(!monitors[1].enabled);
    assert_eq!((monitors[1].width, monitors[1].height), (Some(1920), Some(1080)));
}

#[test]
fn bad_monitors_are_refused() {
    let refused = |pairs: &[(&str, &str)]| {
        let found = values(pairs);
        message(parse_monitor_configs(&found, &readings(&found)))
    };
    assert_eq!(
        refused(&[("monitor.1.x", "0")]),
        "missing `monitor.1.name` (or `monitor.1.output`) in monitor config"
    );
    assert_eq!(
        refused(&[("monitor.1.name", "A"), ("monitor.1.mode", "1x1"), ("monitor.1.hz", "60")]),
        "monitor `A`: `mode` cannot be combined with width/height/refresh fields"
    );
    assert_eq!(
        refused(&[("monitor.1.name", "A"), ("monitor.1.width", "1")]),
        "monitor `A`: width and height must be set together"
    );
    assert_eq!(
        refused(&[("monitor.1.name", "A"), ("monitor.1.scale", "0")]),
        "monitor `A`: scale must be greater than 0"
    );
    assert_eq!(
        refused(&[("monitor.1.name", "A"), ("monitor.1.refresh", "-60")]),
        "monitor `A`: refresh_hz must be greater than 0"
    );
    assert_eq!(
        refused(&[("monitor.1.name", "A"), ("monitor.1.mode", "wide")]),
        "invalid value for monitor.A.mode: expected `<width>x<height>` or `<width>x<height>@<refresh>`"
    );
    assert_eq!(
        refused(&[("monitor.1.name", "A"), ("monitor.1.mode", "1x1@")]),
        "invalid value for monitor.A.mode: refresh rate must not be empty"
    );
    assert_eq!(
        refused(&[("monitor.1.name", "A"), ("monitor.1.x", "inf")]),
        "invalid value for monitor.A.x: inf (expected integer)"
    );
    assert_eq!(
        refused(&[("monitor.one.name", "A")]),
        "invalid monitor key `monitor.one.name`: index is not a number (invalid digit found in string)"
    );
}

#[test]
fn environment_follows_the_configuration() {
    let config = load(&[("no_csd", "true"), ("cursor_theme", "Bibata"), ("cursor_size", "32")]).unwrap();
    let changes = apply_environment(&config);
    let value = |name: &str| {
        changes.iter().find(|change| change.name == name).map(|change| change.value.clone())
    };
    assert_eq!(value("XCURSOR_THEME"), Some(Some("Bibata".to_string())));
    assert_eq!(value("XCURSOR_SIZE"), Some(Some("32".to_string())));
    assert_eq!(value("XDG_CURRENT_DESKTOP"), Some(Some("raven".to_string())));
    assert_eq!(value("QT_WAYLAND_DISABLE_WINDOWDECORATION"), Some(Some("1".to_string())));
    let plain = apply_environment(&load(&[("no_csd", "false")]).unwrap());
    assert!(plain
        .iter()
        .any(|change| change.name == "QT_WAYLAND_DISABLE_WINDOWDECORATION" && change.value.is_none()));
}

#[test]
fn configuration_has_a_place() {
    assert!(matches!(config_path(true, false), Ok(ConfigRoot::XdgConfigHome)));
    assert!(matches!(config_path(false, true), Ok(ConfigRoot::Home)));
    assert_eq!(
        message(config_path(false, false)),
        "unable to resolve config path: HOME and XDG_CONFIG_HOME are unset"
    );
    assert!(needs_template(" \n\t"));
    assert!(!needs_template("return {}"));
}

#[test]
fn template_and_loader_are_lua() {
    assert!(default_config_template().contains("return {"));
    assert!(lua_loader_script().contains("RAVEN_CONFIG_PATH"));
}

#[test]
fn saved_file_is_noticed() {
    let mut watch = ConfigWatch::new(Some(5));
    assert!(!watch.look(Some(5)));
    assert!(watch.look(Some(6)));
    assert!(!watch.look(Some(6)));
    assert!(!watch.look(None));
    assert!(!watch.look(Some(6)));
    assert!(watch.look(Some(4)));
    assert!(ConfigWatch::new(None).look(Some(0)));
}

#[test]
fn combo_segments_stand_in_any_order() {
    let combo = parse_combo("Main+Shift+Q", MainKey::Super).unwrap();
    for other in ["Shift+Main+Q", "Q+Shift+Main", "Shift+Q+Main", " main + SHIFT + q "] {
        assert_eq!(parse_combo(other, MainKey::Super).unwrap(), combo);
    }
    assert!(parse_combo("Shift+Main", MainKey::Super).is_err());
    assert!(parse_combo("Main+Shift", MainKey::Super).is_err());
    assert!(parse_combo("W+Main+Q", MainKey::Super).is_err());
}

#[test]
fn combo_modifiers_may_be_said_again() {
    let combo = parse_combo("Ctrl+Return", MainKey::Super).unwrap();
    assert_eq!(combo.1, "RETURN");
    for other in ["Ctrl+Ctrl+Return", "ctrl+Return+Control", "CTRL+enter+cTrL"] {
        assert_eq!(parse_combo(other, MainKey::Super).unwrap(), combo);
    }
    assert_eq!(parse_combo("Main+Ctrl+Return", MainKey::Ctrl).unwrap(), combo);
    assert!(parse_combo("Ctrl+Return+Return", MainKey::Super).is_err());
}
