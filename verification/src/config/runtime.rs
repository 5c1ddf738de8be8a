//! The whole configuration, as the compositor runs with it.

use crate::config::floats;
use crate::config::floats::{Readings, Single};
use crate::config::keybinds;
use crate::config::keybinds::{
    default_keybinds, find_action, parse_keybind_lines, parse_main_key, Binding, Keybind,
    KeybindAction, Keysym, MainKey, ModifiersState,
};
use crate::config::monitors;
use crate::config::monitors::{parse_monitor_configs, Monitor, MonitorConfig, Table};
use crate::config::scalars;
use crate::config::scalars::{
    parse_bool, parse_bool_flexible, parse_f32, parse_i32, parse_optional_u32, parse_u32,
};
use crate::config::values;
use crate::config::values::{collect_indexed_values, Pairs, Values};
use crate::config::window_rules;
use crate::config::window_rules::{parse_window_rules, Rule, WindowRule};
use crate::errors;
use crate::errors::{CompositorError, Failure};
use crate::numbers;
use crate::numbers::write_decimal;
use crate::text;
use crate::text::is_blank;
use vstd::prelude::*;

verus! {

/// How the wallpaper is set. The duration of the transition is the text of a floating point
/// number.
#[derive(Clone, Debug)]
pub struct WallpaperConfig {
    pub enabled: bool,
    pub restore_command: String,
    pub image: String,
    pub resize: String,
    pub transition_type: String,
    pub transition_duration: String,
}

/// A `WallpaperConfig` as plain values.
pub struct Wallpaper {
    pub enabled: bool,
    pub restore_command: Seq<char>,
    pub image: Seq<char>,
    pub resize: Seq<char>,
    pub transition_type: Seq<char>,
    pub transition_duration: Seq<char>,
}

impl View for WallpaperConfig {
    type V = Wallpaper;

    open spec fn view(&self) -> Wallpaper {
        Wallpaper {
            enabled: self.enabled,
            restore_command: self.restore_command@,
            image: self.image@,
            resize: self.resize@,
            transition_type: self.transition_type@,
            transition_duration: self.transition_duration@,
        }
    }
}

/// The wallpaper settings of an empty configuration.
pub open spec fn default_wallpaper() -> Wallpaper {
    Wallpaper {
        enabled: false,
        restore_command: "waypaper --restore"@,
        image: seq![],
        resize: "crop"@,
        transition_type: "simple"@,
        transition_duration: "0.7"@,
    }
}

impl Default for WallpaperConfig {
    fn default() -> (wallpaper: WallpaperConfig)
        ensures
            wallpaper@ == default_wallpaper(),
    {
        WallpaperConfig {
            enabled: false,
            restore_command: "waypaper --restore".to_owned(),
            image: String::new(),
            resize: "crop".to_owned(),
            transition_type: "simple".to_owned(),
            transition_duration: "0.7".to_owned(),
        }
    }
}

/// How X11 clients are served. An empty display means that a free one is picked.
#[derive(Clone, Debug)]
pub struct XwaylandConfig {
    pub enabled: bool,
    pub path: String,
    pub display: String,
}

/// An `XwaylandConfig` as plain values.
pub struct Xwayland {
    pub enabled: bool,
    pub path: Seq<char>,
    pub display: Seq<char>,
}

impl View for XwaylandConfig {
    type V = Xwayland;

    open spec fn view(&self) -> Xwayland {
        Xwayland { enabled: self.enabled, path: self.path@, display: self.display@ }
    }
}

/// The X11 settings of an empty configuration.
pub open spec fn default_xwayland() -> Xwayland {
    Xwayland { enabled: true, path: "xwayland-satellite"@, display: seq![] }
}

impl Default for XwaylandConfig {
    fn default() -> (xwayland: XwaylandConfig)
        ensures
            xwayland@ == default_xwayland(),
    {
        XwaylandConfig {
            enabled: true,
            path: "xwayland-satellite".to_owned(),
            display: String::new(),
        }
    }
}

/// The configuration that the compositor runs with. The master factor is the text of a floating
/// point number.
#[derive(Clone, Debug)]
pub struct RuntimeConfig {
    pub main_key: MainKey,
    pub keybinds: Vec<Keybind>,
    pub autostart: Vec<String>,
    pub terminal: String,
    pub launcher: String,
    pub focus_follow_mouse: bool,
    pub no_csd: bool,
    pub border_size: u32,
    pub gaps_outer_horizontal: u32,
    pub gaps_outer_vertical: u32,
    pub gaps_inner_horizontal: u32,
    pub gaps_inner_vertical: u32,
    pub master_factor: String,
    pub num_master: i32,
    pub smart_gaps: bool,
    pub cursor_theme: String,
    pub cursor_size: u32,
    pub monitors: Vec<MonitorConfig>,
    pub window_rules: Vec<WindowRule>,
    pub wallpaper: WallpaperConfig,
    pub xwayland: XwaylandConfig,
}

/// Programs, focus and decorations.
pub struct General {
    pub main_key: MainKey,
    pub terminal: Seq<char>,
    pub launcher: Seq<char>,
    pub focus_follow_mouse: bool,
    pub no_csd: bool,
    pub border_size: u32,
}

/// The gaps round windows.
pub struct Gaps {
    pub outer_horizontal: u32,
    pub outer_vertical: u32,
    pub inner_horizontal: u32,
    pub inner_vertical: u32,
}

/// The tiling layout.
pub struct Tiling {
    pub master_factor: Seq<char>,
    pub num_master: i32,
    pub smart_gaps: bool,
}

/// The pointer's picture.
pub struct Pointer {
    pub theme: Seq<char>,
    pub size: u32,
}

/// A `RuntimeConfig` as plain values.
pub struct Settings {
    pub general: General,
    pub gaps: Gaps,
    pub tiling: Tiling,
    pub pointer: Pointer,
    pub autostart: Seq<Seq<char>>,
    pub wallpaper: Wallpaper,
    pub xwayland: Xwayland,
    pub monitors: Seq<Monitor>,
    pub window_rules: Seq<Rule>,
    pub keybinds: Seq<Binding>,
}

impl View for RuntimeConfig {
    type V = Settings;

    open spec fn view(&self) -> Settings {
        Settings {
            general: General {
                main_key: self.main_key,
                terminal: self.terminal@,
                launcher: self.launcher@,
                focus_follow_mouse: self.focus_follow_mouse,
                no_csd: self.no_csd,
                border_size: self.border_size,
            },
            gaps: Gaps {
                outer_horizontal: self.gaps_outer_horizontal,
                outer_vertical: self.gaps_outer_vertical,
                inner_horizontal: self.gaps_inner_horizontal,
                inner_vertical: self.gaps_inner_vertical,
            },
            tiling: Tiling {
                master_factor: self.master_factor@,
                num_master: self.num_master,
                smart_gaps: self.smart_gaps,
            },
            pointer: Pointer { theme: self.cursor_theme@, size: self.cursor_size },
            autostart: text::texts(self.autostart@),
            wallpaper: self.wallpaper@,
            xwayland: self.xwayland@,
            monitors: monitors::monitors_view(self.monitors@),
            window_rules: window_rules::rules_view(self.window_rules@),
            keybinds: keybinds::bindings(self.keybinds@),
        }
    }
}

/// The general settings of an empty configuration.
pub open spec fn default_general() -> General {
    General {
        main_key: MainKey::Super,
        terminal: "weston-terminal"@,
        launcher: "rofi -show drun"@,
        focus_follow_mouse: true,
        no_csd: true,
        border_size: 2,
    }
}

/// The gaps of an empty configuration.
pub open spec fn default_gaps() -> Gaps {
    Gaps { outer_horizontal: 20, outer_vertical: 20, inner_horizontal: 10, inner_vertical: 10 }
}

/// The tiling of an empty configuration.
pub open spec fn default_tiling() -> Tiling {
    Tiling { master_factor: "0.55"@, num_master: 1, smart_gaps: true }
}

/// The pointer of an empty configuration.
pub open spec fn default_pointer() -> Pointer {
    Pointer { theme: "default"@, size: 24 }
}

/// The settings of an empty configuration.
pub open spec fn default_settings() -> Settings {
    Settings {
        general: default_general(),
        gaps: default_gaps(),
        tiling: default_tiling(),
        pointer: default_pointer(),
        autostart: seq![],
        wallpaper: default_wallpaper(),
        xwayland: default_xwayland(),
        monitors: seq![],
        window_rules: seq![],
        keybinds: keybinds::default_bindings(MainKey::Super),
    }
}

impl Default for RuntimeConfig {
    fn default() -> (config: RuntimeConfig)
        ensures
            config@ == default_settings(),
    {
        let config = RuntimeConfig {
            main_key: MainKey::Super,
            keybinds: default_keybinds(MainKey::Super),
            autostart: Vec::new(),
            terminal: "weston-terminal".to_owned(),
            launcher: "rofi -show drun".to_owned(),
            focus_follow_mouse: true,
            no_csd: true,
            border_size: 2,
            gaps_outer_horizontal: 20,
            gaps_outer_vertical: 20,
            gaps_inner_horizontal: 10,
            gaps_inner_vertical: 10,
            master_factor: "0.55".to_owned(),
            num_master: 1,
            smart_gaps: true,
            cursor_theme: "default".to_owned(),
            cursor_size: 24,
            monitors: Vec::new(),
            window_rules: Vec::new(),
            wallpaper: WallpaperConfig::default(),
            xwayland: XwaylandConfig::default(),
        };
        assert(config@.autostart =~= seq![]);
        assert(config@.monitors =~= seq![]);
        assert(config@.window_rules =~= seq![]);
        config
    }
}

impl RuntimeConfig {
    /// The action of the first key binding that is meant by these held modifiers and this key.
    pub fn keybind_action_for(&self, modifiers: &ModifiersState, keysym: Keysym) -> (action: Option<
        KeybindAction,
    >)
        ensures
            keybinds::deed_view(action) == keybinds::action_for(
                self@.keybinds,
                *modifiers,
                keysym,
            ),
    {
        find_action(&self.keybinds, modifiers, keysym)
    }
}

/// The value of a key, or `default` where the key is missing.
pub open spec fn text_or(pairs: Pairs, key: Seq<char>, default: Seq<char>) -> Seq<char> {
    match values::lookup(pairs, key) {
        Some(value) => value,
        None => default,
    }
}

fn get_text(values: &Values, key: &str, default: &str) -> (value: String)
    ensures
        value@ == text_or(values@, key@, default@),
{
    match values.get(key) {
        Some(value) => value.clone(),
        None => default.to_owned(),
    }
}

/// The `u32` under `key`, or `default`.
pub open spec fn u32_or(pairs: Pairs, key: Seq<char>, default: u32) -> Result<u32, Failure> {
    match values::lookup(pairs, key) {
        Some(raw) => scalars::u32_value(key, raw),
        None => Ok(default),
    }
}

/// The boolean under `key`, in any of its spellings, or `default`.
pub open spec fn bool_or(pairs: Pairs, key: Seq<char>, default: bool) -> Result<bool, Failure> {
    match values::lookup(pairs, key) {
        Some(raw) => scalars::flexible_bool(key, raw),
        None => Ok(default),
    }
}

/// The main key: `modkey` where it is there, else `main_key`, else `Super`. Both have to name a
/// key where they are there.
pub open spec fn main_key_setting(pairs: Pairs) -> Result<MainKey, Failure> {
    let first = match values::lookup(pairs, "main_key"@) {
        Some(raw) => keybinds::main_key_value(raw),
        None => Ok(MainKey::Super),
    };
    match first {
        Err(failure) => Err(failure),
        Ok(key) => match values::lookup(pairs, "modkey"@) {
            Some(raw) => keybinds::main_key_value(raw),
            None => Ok(key),
        },
    }
}

fn read_main_key(values: &Values) -> (result: Result<MainKey, CompositorError>)
    ensures
        errors::outcome(result) == main_key_setting(values@),
{
    let mut main_key = MainKey::Super;
    if let Some(raw) = values.get("main_key") {
        match parse_main_key(raw.as_str()) {
            Ok(key) => main_key = key,
            Err(error) => return Err(error),
        }
    }
    if let Some(raw) = values.get("modkey") {
        match parse_main_key(raw.as_str()) {
            Ok(key) => main_key = key,
            Err(error) => return Err(error),
        }
    }
    Ok(main_key)
}

/// The general settings.
pub open spec fn general_settings(pairs: Pairs) -> Result<General, Failure> {
    match main_key_setting(pairs) {
        Err(failure) => Err(failure),
        Ok(main_key) => match bool_or(pairs, "focus_follow_mouse"@, true) {
            Err(failure) => Err(failure),
            Ok(focus_follow_mouse) => match bool_or(pairs, "no_csd"@, true) {
                Err(failure) => Err(failure),
                Ok(no_csd) => match u32_or(pairs, "border_size"@, 2) {
                    Err(failure) => Err(failure),
                    Ok(border_size) => Ok(
                        General {
                            main_key,
                            terminal: text_or(pairs, "terminal"@, "weston-terminal"@),
                            launcher: text_or(pairs, "launcher"@, "rofi -show drun"@),
                            focus_follow_mouse,
                            no_csd,
                            border_size,
                        },
                    ),
                },
            },
        },
    }
}

/// Reads the general settings into `config`.
fn read_general(values: &Values, config: &mut RuntimeConfig) -> (result: Result<
    (),
    CompositorError,
>)
    ensures
        match general_settings(values@) {
            Ok(general) => result is Ok && final(config)@ == (Settings { general, ..old(config)@ }),
            Err(failure) => result matches Err(error) && error@ == failure,
        },
{
    let main_key = match read_main_key(values) {
        Ok(key) => key,
        Err(error) => return Err(error),
    };
    let focus_follow_mouse = match parse_bool_flexible(values, "focus_follow_mouse", true) {
        Ok(value) => value,
        Err(error) => return Err(error),
    };
    let no_csd = match parse_bool_flexible(values, "no_csd", true) {
        Ok(value) => value,
        Err(error) => return Err(error),
    };
    let border_size: u32 = match parse_u32(values, "border_size", 2) {
        Ok(value) => value,
        Err(error) => return Err(error),
    };
    config.main_key = main_key;
    config.terminal = get_text(values, "terminal", "weston-terminal");
    config.launcher = get_text(values, "launcher", "rofi -show drun");
    config.focus_follow_mouse = focus_follow_mouse;
    config.no_csd = no_csd;
    config.border_size = border_size;
    Ok(())
}

/// The gaps before the four single settings: `gap_size` for all of them, where it is there.
pub open spec fn base_gaps(pairs: Pairs) -> Result<Gaps, Failure> {
    match values::lookup(pairs, "gap_size"@) {
        None => Ok(default_gaps()),
        Some(raw) => match scalars::u32_value("gap_size"@, raw) {
            Err(failure) => Err(failure),
            Ok(size) => Ok(
                Gaps {
                    outer_horizontal: size,
                    outer_vertical: size,
                    inner_horizontal: size,
                    inner_vertical: size,
                },
            ),
        },
    }
}

/// The gaps: each of the four has its own key, and else the size for all of them.
pub open spec fn gap_settings(pairs: Pairs) -> Result<Gaps, Failure> {
    match base_gaps(pairs) {
        Err(failure) => Err(failure),
        Ok(base) => match u32_or(pairs, "gaps.outer_horizontal"@, base.outer_horizontal) {
            Err(failure) => Err(failure),
            Ok(outer_horizontal) => match u32_or(
                pairs,
                "gaps.outer_vertical"@,
                base.outer_vertical,
            ) {
                Err(failure) => Err(failure),
                Ok(outer_vertical) => match u32_or(
                    pairs,
                    "gaps.inner_horizontal"@,
                    base.inner_horizontal,
                ) {
                    Err(failure) => Err(failure),
                    Ok(inner_horizontal) => match u32_or(
                        pairs,
                        "gaps.inner_vertical"@,
                        base.inner_vertical,
                    ) {
                        Err(failure) => Err(failure),
                        Ok(inner_vertical) => Ok(
                            Gaps {
                                outer_horizontal,
                                outer_vertical,
                                inner_horizontal,
                                inner_vertical,
                            },
                        ),
                    },
                },
            },
        },
    }
}

/// Reads the gaps into `config`.
fn read_gaps(values: &Values, config: &mut RuntimeConfig) -> (result: Result<(), CompositorError>)
    ensures
        match gap_settings(values@) {
            Ok(gaps) => result is Ok && final(config)@ == (Settings { gaps, ..old(config)@ }),
            Err(failure) => result matches Err(error) && error@ == failure,
        },
{
    let (outer, inner): (u32, u32) = match parse_optional_u32(values, "gap_size") {
        Ok(Some(size)) => (size, size),
        Ok(None) => (20, 10),
        Err(error) => return Err(error),
    };
    let outer_horizontal: u32 = match parse_u32(values, "gaps.outer_horizontal", outer) {
        Ok(value) => value,
        Err(error) => return Err(error),
    };
    let outer_vertical: u32 = match parse_u32(values, "gaps.outer_vertical", outer) {
        Ok(value) => value,
        Err(error) => return Err(error),
    };
    let inner_horizontal: u32 = match parse_u32(values, "gaps.inner_horizontal", inner) {
        Ok(value) => value,
        Err(error) => return Err(error),
    };
    let inner_vertical: u32 = match parse_u32(values, "gaps.inner_vertical", inner) {
        Ok(value) => value,
        Err(error) => return Err(error),
    };
    config.gaps_outer_horizontal = outer_horizontal;
    config.gaps_outer_vertical = outer_vertical;
    config.gaps_inner_horizontal = inner_horizontal;
    config.gaps_inner_vertical = inner_vertical;
    Ok(())
}

/// The master factor, which has to lie between 0.1 and 0.9.
pub open spec fn master_factor_setting(pairs: Pairs, readings: Table) -> Result<
    Seq<char>,
    Failure,
> {
    match values::lookup(pairs, "master_factor"@) {
        None => Ok("0.55"@),
        Some(raw) => match scalars::single_value(
            "master_factor"@,
            raw,
            floats::single_of(readings, raw),
        ) {
            Err(failure) => Err(failure),
            Ok(known) => if known.0 {
                Ok(raw)
            } else {
                errors::refused("master_factor must be between 0.1 and 0.9"@)
            },
        },
    }
}

/// The tiling settings.
pub open spec fn tiling_settings(pairs: Pairs, readings: Table) -> Result<Tiling, Failure> {
    match master_factor_setting(pairs, readings) {
        Err(failure) => Err(failure),
        Ok(master_factor) => {
            let masters = match values::lookup(pairs, "num_master"@) {
                Some(raw) => scalars::i32_value("num_master"@, raw),
                None => Ok(1i32),
            };
            match masters {
                Err(failure) => Err(failure),
                Ok(num_master) => if num_master < 1 {
                    errors::refused("num_master must be >= 1"@)
                } else {
                    let smart = match values::lookup(pairs, "smart_gaps"@) {
                        Some(raw) => scalars::bool_value("smart_gaps"@, raw),
                        None => Ok(true),
                    };
                    match smart {
                        Err(failure) => Err(failure),
                        Ok(smart_gaps) => Ok(Tiling { master_factor, num_master, smart_gaps }),
                    }
                },
            }
        },
    }
}

/// Reads the tiling settings into `config`.
fn read_tiling(values: &Values, readings: &Readings, config: &mut RuntimeConfig) -> (result: Result<
    (),
    CompositorError,
>)
    ensures
        match tiling_settings(values@, readings@) {
            Ok(tiling) => result is Ok && final(config)@ == (Settings { tiling, ..old(config)@ }),
            Err(failure) => result matches Err(error) && error@ == failure,
        },
{
    let master_factor = match parse_f32(values, "master_factor", readings) {
        Ok(Some((raw, inside, _))) => {
            if !inside {
                return Err(
                    CompositorError::Backend(
                        "master_factor must be between 0.1 and 0.9".to_owned(),
                    ),
                );
            }
            raw
        },
        Ok(None) => "0.55".to_owned(),
        Err(error) => return Err(error),
    };
    let num_master: i32 = match parse_i32(values, "num_master", 1) {
        Ok(value) => value,
        Err(error) => return Err(error),
    };
    if num_master < 1 {
        return Err(CompositorError::Backend("num_master must be >= 1".to_owned()));
    }
    let smart_gaps = match parse_bool(values, "smart_gaps", true) {
        Ok(value) => value,
        Err(error) => return Err(error),
    };
    config.master_factor = master_factor;
    config.num_master = num_master;
    config.smart_gaps = smart_gaps;
    Ok(())
}

/// The pointer settings.
pub open spec fn pointer_settings(pairs: Pairs) -> Result<Pointer, Failure> {
    match u32_or(pairs, "cursor_size"@, 24) {
        Err(failure) => Err(failure),
        Ok(size) => if size == 0 {
            errors::refused("cursor_size must be greater than 0"@)
        } else {
            Ok(Pointer { theme: text_or(pairs, "cursor_theme"@, "default"@), size })
        },
    }
}

/// Reads the pointer settings into `config`.
fn read_pointer(values: &Values, config: &mut RuntimeConfig) -> (result: Result<
    (),
    CompositorError,
>)
    ensures
        match pointer_settings(values@) {
            Ok(pointer) => result is Ok && final(config)@ == (Settings { pointer, ..old(config)@ }),
            Err(failure) => result matches Err(error) && error@ == failure,
        },
{
    let size: u32 = match parse_u32(values, "cursor_size", 24) {
        Ok(value) => value,
        Err(error) => return Err(error),
    };
    if size == 0 {
        return Err(CompositorError::Backend("cursor_size must be greater than 0".to_owned()));
    }
    config.cursor_theme = get_text(values, "cursor_theme", "default");
    config.cursor_size = size;
    Ok(())
}

/// The command that restores the wallpaper, under the first of its names that is there.
pub open spec fn restore_command_setting(pairs: Pairs) -> Seq<char> {
    match values::lookup(pairs, "wallpaper.restore_command"@) {
        Some(command) => command,
        None => match values::lookup(pairs, "wallpaper.command"@) {
            Some(command) => command,
            None => match values::lookup(pairs, "wallpaper.restore_cmd"@) {
                Some(command) => command,
                None => text_or(pairs, "wallpaper_cmd"@, "waypaper --restore"@),
            },
        },
    }
}

fn read_restore_command(values: &Values) -> (command: String)
    ensures
        command@ == restore_command_setting(values@),
{
    if let Some(command) = values.get("wallpaper.restore_command") {
        return command.clone();
    }
    if let Some(command) = values.get("wallpaper.command") {
        return command.clone();
    }
    if let Some(command) = values.get("wallpaper.restore_cmd") {
        return command.clone();
    }
    get_text(values, "wallpaper_cmd", "waypaper --restore")
}

/// The duration of the wallpaper's transition, which may not lie below zero.
pub open spec fn duration_setting(pairs: Pairs, readings: Table) -> Result<Seq<char>, Failure> {
    match values::lookup(pairs, "wallpaper.transition_duration"@) {
        None => Ok("0.7"@),
        Some(raw) => match scalars::single_value(
            "wallpaper.transition_duration"@,
            raw,
            floats::single_of(readings, raw),
        ) {
            Err(failure) => Err(failure),
            Ok(known) => if known.1 {
                errors::refused("wallpaper.transition_duration must be >= 0"@)
            } else {
                Ok(raw)
            },
        },
    }
}

/// The wallpaper settings: a wallpaper that is enabled needs a command or an image.
pub open spec fn wallpaper_settings(pairs: Pairs, readings: Table) -> Result<Wallpaper, Failure> {
    match bool_or(pairs, "wallpaper.enabled"@, false) {
        Err(failure) => Err(failure),
        Ok(enabled) => match duration_setting(pairs, readings) {
            Err(failure) => Err(failure),
            Ok(transition_duration) => {
                let restore_command = restore_command_setting(pairs);
                let image = text_or(pairs, "wallpaper.image"@, seq![]);
                if enabled && text::blank(restore_command) && text::blank(image) {
                    errors::refused(
                        "wallpaper.enabled is true but wallpaper.restore_command and wallpaper.image are empty"@,
                    )
                } else {
                    Ok(
                        Wallpaper {
                            enabled,
                            restore_command,
                            image,
                            resize: text_or(pairs, "wallpaper.resize"@, "crop"@),
                            transition_type: text_or(
                                pairs,
                                "wallpaper.transition_type"@,
                                "simple"@,
                            ),
                            transition_duration,
                        },
                    )
                }
            },
        },
    }
}

/// Reads the wallpaper settings into `config`.
fn read_wallpaper(values: &Values, readings: &Readings, config: &mut RuntimeConfig) -> (result:
    Result<(), CompositorError>)
    ensures
        match wallpaper_settings(values@, readings@) {
            Ok(wallpaper) => result is Ok && final(config)@ == (Settings {
                wallpaper,
                ..old(config)@
            }),
            Err(failure) => result matches Err(error) && error@ == failure,
        },
{
    let enabled = match parse_bool_flexible(values, "wallpaper.enabled", false) {
        Ok(value) => value,
        Err(error) => return Err(error),
    };
    let restore_command = read_restore_command(values);
    let image = match values.get("wallpaper.image") {
        Some(image) => image.clone(),
        None => String::new(),
    };
    let transition_duration = match parse_f32(values, "wallpaper.transition_duration", readings) {
        Ok(Some((raw, _, below))) => {
            if below {
                return Err(
                    CompositorError::Backend(
                        "wallpaper.transition_duration must be >= 0".to_owned(),
                    ),
                );
            }
            raw
        },
        Ok(None) => "0.7".to_owned(),
        Err(error) => return Err(error),
    };
    if enabled && is_blank(restore_command.as_str()) && is_blank(image.as_str()) {
        return Err(
            CompositorError::Backend(
                "wallpaper.enabled is true but wallpaper.restore_command and wallpaper.image are empty".to_owned(),
            ),
        );
    }
    config.wallpaper = WallpaperConfig {
        enabled,
        restore_command,
        image,
        resize: get_text(values, "wallpaper.resize", "crop"),
        transition_type: get_text(values, "wallpaper.transition_type", "simple"),
        transition_duration,
    };
    Ok(())
}

/// The value under the first of two keys that is there, or `default`.
pub open spec fn either_text(
    pairs: Pairs,
    first: Seq<char>,
    second: Seq<char>,
    default: Seq<char>,
) -> Seq<char> {
    match values::lookup(pairs, first) {
        Some(value) => value,
        None => text_or(pairs, second, default),
    }
}

/// The X11 settings: with X11 enabled, the program's path may not be blank.
pub open spec fn xwayland_settings(pairs: Pairs) -> Result<Xwayland, Failure> {
    match bool_or(pairs, "xwayland.enabled"@, true) {
        Err(failure) => Err(failure),
        Ok(enabled) => {
            let path = either_text(
                pairs,
                "xwayland.path"@,
                "xwayland_path"@,
                "xwayland-satellite"@,
            );
            if enabled && text::blank(path) {
                errors::refused("xwayland.enabled is true but xwayland.path is empty"@)
            } else {
                Ok(
                    Xwayland {
                        enabled,
                        path,
                        display: either_text(
                            pairs,
                            "xwayland.display"@,
                            "xwayland_display"@,
                            seq![],
                        ),
                    },
                )
            }
        },
    }
}

/// Reads the X11 settings into `config`.
fn read_xwayland(values: &Values, config: &mut RuntimeConfig) -> (result: Result<
    (),
    CompositorError,
>)
    ensures
        match xwayland_settings(values@) {
            Ok(xwayland) => result is Ok && final(config)@ == (Settings {
                xwayland,
                ..old(config)@
            }),
            Err(failure) => result matches Err(error) && error@ == failure,
        },
{
    let enabled = match parse_bool_flexible(values, "xwayland.enabled", true) {
        Ok(value) => value,
        Err(error) => return Err(error),
    };
    let path = match values.get("xwayland.path") {
        Some(path) => path.clone(),
        None => get_text(values, "xwayland_path", "xwayland-satellite"),
    };
    let display = match values.get("xwayland.display") {
        Some(display) => display.clone(),
        None => match values.get("xwayland_display") {
            Some(display) => display.clone(),
            None => String::new(),
        },
    };
    if enabled && is_blank(path.as_str()) {
        return Err(
            CompositorError::Backend(
                "xwayland.enabled is true but xwayland.path is empty".to_owned(),
            ),
        );
    }
    config.xwayland = XwaylandConfig { enabled, path, display };
    Ok(())
}

/// The key bindings: those of the keys `keybind.<index>`, or the default ones where there are none.
pub open spec fn keybind_settings(pairs: Pairs, main_key: MainKey) -> Result<
    Seq<Binding>,
    Failure,
> {
    match values::indexed_values(values::indexed(pairs, "keybind."@)) {
        Err(failure) => Err(failure),
        Ok(lines) => if lines.len() == 0 {
            Ok(keybinds::default_bindings(main_key))
        } else {
            keybinds::keybind_values(lines, main_key)
        },
    }
}

fn read_keybinds(values: &Values, main_key: MainKey) -> (result: Result<
    Vec<Keybind>,
    CompositorError,
>)
    ensures
        keybinds::keybinds_outcome(result) == keybind_settings(values@, main_key),
{
    match collect_indexed_values(values, "keybind.") {
        Err(error) => Err(error),
        Ok(lines) => if lines.len() == 0 {
            Ok(default_keybinds(main_key))
        } else {
            parse_keybind_lines(&lines, main_key)
        },
    }
}

/// The settings that a configuration's keys and values give. Of several failures the first in the
/// order of the settings counts.
pub open spec fn settings(pairs: Pairs, readings: Table) -> Result<Settings, Failure> {
    match general_settings(pairs) {
        Err(failure) => Err(failure),
        Ok(general) => match gap_settings(pairs) {
            Err(failure) => Err(failure),
            Ok(gaps) => match tiling_settings(pairs, readings) {
                Err(failure) => Err(failure),
                Ok(tiling) => match pointer_settings(pairs) {
                    Err(failure) => Err(failure),
                    Ok(pointer) => match values::indexed_values(
                        values::indexed(pairs, "autostart."@),
                    ) {
                        Err(failure) => Err(failure),
                        Ok(autostart) => match wallpaper_settings(pairs, readings) {
                            Err(failure) => Err(failure),
                            Ok(wallpaper) => match xwayland_settings(pairs) {
                                Err(failure) => Err(failure),
                                Ok(xwayland) => match monitors::monitor_values(pairs, readings) {
                                    Err(failure) => Err(failure),
                                    Ok(monitors) => match window_rules::rule_values(pairs) {
                                        Err(failure) => Err(failure),
                                        Ok(window_rules) => match keybind_settings(
                                            pairs,
                                            general.main_key,
                                        ) {
                                            Err(failure) => Err(failure),
                                            Ok(keybinds) => Ok(
                                                Settings {
                                                    general,
                                                    gaps,
                                                    tiling,
                                                    pointer,
                                                    autostart,
                                                    wallpaper,
                                                    xwayland,
                                                    monitors,
                                                    window_rules,
                                                    keybinds,
                                                },
                                            ),
                                        },
                                    },
                                },
                            },
                        },
                    },
                },
            },
        },
    }
}

/// A configuration, or a failure, as plain values.
pub open spec fn config_outcome(result: Result<RuntimeConfig, CompositorError>) -> Result<
    Settings,
    Failure,
> {
    match result {
        Ok(config) => Ok(config@),
        Err(error) => Err(error@),
    }
}

/// The configuration that the keys and values give which the configuration script printed.
/// `readings` holds what the texts of [`floats::number_texts`] are as floating point numbers.
pub fn load_from_values(values: &Values, readings: &Readings) -> (result: Result<
    RuntimeConfig,
    CompositorError,
>)
    ensures
        config_outcome(result) == settings(values@, readings@),
{
    let mut config = RuntimeConfig::default();
    if let Err(error) = read_general(values, &mut config) {
        return Err(error);
    }
    if let Err(error) = read_gaps(values, &mut config) {
        return Err(error);
    }
    if let Err(error) = read_tiling(values, readings, &mut config) {
        return Err(error);
    }
    if let Err(error) = read_pointer(values, &mut config) {
        return Err(error);
    }
    match collect_indexed_values(values, "autostart.") {
        Ok(autostart) => config.autostart = autostart,
        Err(error) => return Err(error),
    }
    if let Err(error) = read_wallpaper(values, readings, &mut config) {
        return Err(error);
    }
    if let Err(error) = read_xwayland(values, &mut config) {
        return Err(error);
    }
    match parse_monitor_configs(values, readings) {
        Ok(monitors) => config.monitors = monitors,
        Err(error) => return Err(error),
    }
    match parse_window_rules(values) {
        Ok(rules) => config.window_rules = rules,
        Err(error) => return Err(error),
    }
    match read_keybinds(values, config.main_key) {
        Ok(binds) => config.keybinds = binds,
        Err(error) => return Err(error),
    }
    Ok(config)
}

/// The settings of a script that prints nothing are the default ones.
pub proof fn empty_configuration_is_default(readings: Table)
    ensures
        settings(seq![], readings) == Ok::<Settings, Failure>(default_settings()),
{
    let pairs: Pairs = seq![];
    assert forall|key: Seq<char>| values::lookup(pairs, key) is None by {}
    assert(values::indexed(pairs, "autostart."@) == Ok::<values::Indexed, Failure>(seq![]));
    assert(values::indexed(pairs, "keybind."@) == Ok::<values::Indexed, Failure>(seq![]));
    let none: values::Indexed = seq![];
    assert(Seq::new(none.len(), |i: int| none[i].1) =~= Seq::<Seq<char>>::empty());
    assert(!text::blank("xwayland-satellite"@)) by {
        reveal_strlit("xwayland-satellite");
        assert(text::trimmed_start("xwayland-satellite"@) == "xwayland-satellite"@);
    }
    assert(window_rules::rule_values(pairs) == Ok::<Seq<Rule>, Failure>(seq![]));
    assert(monitors::monitor_values(pairs, readings) == Ok::<Seq<Monitor>, Failure>(seq![]));
    assert(general_settings(pairs) == Ok::<General, Failure>(default_general()));
    assert(gap_settings(pairs) == Ok::<Gaps, Failure>(default_gaps()));
    assert(tiling_settings(pairs, readings) == Ok::<Tiling, Failure>(default_tiling()));
    assert(wallpaper_settings(pairs, readings) == Ok::<Wallpaper, Failure>(default_wallpaper()));
    assert(xwayland_settings(pairs) == Ok::<Xwayland, Failure>(default_xwayland()));
}

proof fn accepted_tiling_is_in_range(pairs: Pairs, readings: Table)
    requires
        tiling_settings(pairs, readings) is Ok,
    ensures
        ({
            let tiling = tiling_settings(pairs, readings)->Ok_0;
            &&& tiling.num_master >= 1
            &&& tiling.master_factor == "0.55"@ || (floats::single_of(
                readings,
                tiling.master_factor,
            ) matches Single::Value(inside, _) && inside)
        }),
{
}

proof fn accepted_wallpaper_is_in_range(pairs: Pairs, readings: Table)
    requires
        wallpaper_settings(pairs, readings) is Ok,
    ensures
        ({
            let wallpaper = wallpaper_settings(pairs, readings)->Ok_0;
            &&& wallpaper.transition_duration == "0.7"@ || (floats::single_of(
                readings,
                wallpaper.transition_duration,
            ) matches Single::Value(_, below) && !below)
            &&& wallpaper.enabled ==> !(text::blank(wallpaper.restore_command) && text::blank(
                wallpaper.image,
            ))
        }),
{
}

proof fn some_key_is_bound(pairs: Pairs, main_key: MainKey)
    requires
        keybind_settings(pairs, main_key) is Ok,
    ensures
        keybind_settings(pairs, main_key)->Ok_0.len() > 0,
{
}

/// Settings that were accepted are in range: the master area takes its default share or one that
/// reads as between 0.1 and 0.9, there is a master window, the pointer has some size, the wallpaper's
/// transition takes its default time or one that does not read as below zero, a wallpaper that is
/// enabled has a command or an image, X11 clients have a program, and some key is bound.
pub proof fn accepted_settings_are_in_range(pairs: Pairs, readings: Table)
    requires
        settings(pairs, readings) is Ok,
    ensures
        ({
            let found = settings(pairs, readings)->Ok_0;
            &&& found.tiling.master_factor == "0.55"@ || (floats::single_of(
                readings,
                found.tiling.master_factor,
            ) matches Single::Value(inside, _) && inside)
            &&& found.tiling.num_master >= 1
            &&& found.pointer.size > 0
            &&& found.wallpaper.transition_duration == "0.7"@ || (floats::single_of(
                readings,
                found.wallpaper.transition_duration,
            ) matches Single::Value(_, below) && !below)
            &&& found.wallpaper.enabled ==> !(text::blank(found.wallpaper.restore_command)
                && text::blank(found.wallpaper.image))
            &&& found.xwayland.enabled ==> !text::blank(found.xwayland.path)
            &&& found.keybinds.len() > 0
        }),
{
    accepted_tiling_is_in_range(pairs, readings);
    accepted_wallpaper_is_in_range(pairs, readings);
    some_key_is_bound(pairs, general_settings(pairs)->Ok_0.main_key);
}

/// Where the configuration file lies.
#[derive(Clone, Copy, Debug, PartialEq, Eq, Structural)]
pub enum ConfigRoot {
    /// `raven/config.lua` under `$XDG_CONFIG_HOME`.
    XdgConfigHome,
    /// `.config/raven/config.lua` under `$HOME`.
    Home,
}

/// Where the configuration file lies, by which of the two variables are set to something.
pub fn config_path(xdg_config_home: bool, home: bool) -> (result: Result<
    ConfigRoot,
    CompositorError,
>)
    ensures
        errors::outcome(result) == (if xdg_config_home {
            Ok(ConfigRoot::XdgConfigHome)
        } else if home {
            Ok(ConfigRoot::Home)
        } else {
            errors::refused(
                "unable to resolve config path: HOME and XDG_CONFIG_HOME are unset"@,
            )
        }),
{
    if xdg_config_home {
        Ok(ConfigRoot::XdgConfigHome)
    } else if home {
        Ok(ConfigRoot::Home)
    } else {
        Err(
            CompositorError::Backend(
                "unable to resolve config path: HOME and XDG_CONFIG_HOME are unset".to_owned(),
            ),
        )
    }
}

/// A change of the environment: a variable and its new value, or none where it is taken out.
#[derive(Debug)]
pub struct EnvChange {
    pub name: String,
    pub value: Option<String>,
}

/// A list of changes of the environment as text.
pub open spec fn env_view(changes: Seq<EnvChange>) -> Seq<(Seq<char>, Option<Seq<char>>)> {
    Seq::new(changes.len(), |i: int| (changes[i].name@, text::text_view(changes[i].value)))
}

/// Adds a variable with a value to `changes`.
pub fn set_env(changes: &mut Vec<EnvChange>, name: &str, value: &str)
    ensures
        env_view(final(changes)@) == env_view(old(changes)@).push((name@, Some(value@))),
{
    let ghost before = env_view(changes@);
    changes.push(EnvChange { name: name.to_owned(), value: Some(value.to_owned()) });
    assert(env_view(changes@) =~= before.push((name@, Some(value@))));
}

/// Adds a variable to be taken out to `changes`.
pub fn unset_env(changes: &mut Vec<EnvChange>, name: &str)
    ensures
        env_view(final(changes)@) == env_view(old(changes)@).push((name@, None)),
{
    let ghost before = env_view(changes@);
    changes.push(EnvChange { name: name.to_owned(), value: None });
    assert(env_view(changes@) =~= before.push((name@, None)));
}

/// The changes of the compositor's own environment that a configuration asks for.
pub open spec fn environment(found: Settings) -> Seq<(Seq<char>, Option<Seq<char>>)> {
    seq![
        ("XCURSOR_THEME"@, Some(found.pointer.theme)),
        ("XCURSOR_SIZE"@, Some(numbers::decimal(found.pointer.size as nat))),
        ("XDG_SESSION_TYPE"@, Some("wayland"@)),
        ("XDG_CURRENT_DESKTOP"@, Some("raven"@)),
        ("XDG_SESSION_DESKTOP"@, Some("raven"@)),
        ("QT_QPA_PLATFORM"@, Some("wayland"@)),
        ("SDL_VIDEODRIVER"@, Some("wayland"@)),
        ("MOZ_ENABLE_WAYLAND"@, Some("1"@)),
        ("MOZ_DBUS_REMOTE"@, Some("0"@)),
        (
            "QT_WAYLAND_DISABLE_WINDOWDECORATION"@,
            if found.general.no_csd {
                Some("1"@)
            } else {
                None
            },
        ),
    ]
}

/// The changes of the compositor's own environment that a configuration asks for.
pub fn apply_environment(config: &RuntimeConfig) -> (changes: Vec<EnvChange>)
    ensures
        env_view(changes@) == environment(config@),
{
    let mut changes: Vec<EnvChange> = Vec::new();
    set_env(&mut changes, "XCURSOR_THEME", config.cursor_theme.as_str());
    let size = write_decimal(config.cursor_size as u64);
    set_env(&mut changes, "XCURSOR_SIZE", size.as_str());
    set_env(&mut changes, "XDG_SESSION_TYPE", "wayland");
    set_env(&mut changes, "XDG_CURRENT_DESKTOP", "raven");
    set_env(&mut changes, "XDG_SESSION_DESKTOP", "raven");
    set_env(&mut changes, "QT_QPA_PLATFORM", "wayland");
    set_env(&mut changes, "SDL_VIDEODRIVER", "wayland");
    set_env(&mut changes, "MOZ_ENABLE_WAYLAND", "1");
    set_env(&mut changes, "MOZ_DBUS_REMOTE", "0");
    if config.no_csd {
        set_env(&mut changes, "QT_WAYLAND_DISABLE_WINDOWDECORATION", "1");
    } else {
        unset_env(&mut changes, "QT_WAYLAND_DISABLE_WINDOWDECORATION");
    }
    assert(env_view(changes@) =~= environment(config@));
    changes
}

/// Whether the text of a configuration file is to be replaced by the template.
pub fn needs_template(content: &str) -> (result: bool)
    ensures
        result == text::blank(content@),
{
    is_blank(content)
}

/// The message for a configuration script that failed.
pub open spec fn script_failure(path: Seq<char>, stderr: Seq<char>) -> Failure {
    let said = text::trimmed(stderr);
    Failure::Backend(
        "failed to load "@ + path + ": "@ + (if said.len() == 0 {
            "lua exited with non-zero status"@
        } else {
            said
        }),
    )
}

/// What the configuration script's run gives: its failure, or the keys and values it printed.
pub fn load_lua_values(success: bool, stdout: &str, stderr: &str, path: &str) -> (result: Result<
    Values,
    CompositorError,
>)
    ensures
        values::values_outcome(result) == (if success {
            values::stdout_pairs(stdout@)
        } else {
            Err(script_failure(path@, stderr@))
        }),
{
    if success {
        return values::parse_key_value_stdout(stdout);
    }
    let said = text::trim(stderr);
    let mut message = "failed to load ".to_owned();
    message.append(path);
    message.append(": ");
    if said.as_str().is_empty() {
        message.append("lua exited with non-zero status");
    } else {
        message.append(said.as_str());
    }
    Err(CompositorError::Backend(message))
}

} // verus!
