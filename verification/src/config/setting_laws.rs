//! Laws of the configuration: every setting goes by its own key, every field of a rule or a
//! monitor by its own name.

use crate::config::action_laws;
use crate::config::groups::Groups;
use crate::config::keybinds;
use crate::config::keybinds::{Binding, MainKey};
use crate::config::modifier_laws;
use crate::config::monitors;
use crate::config::monitors::{Monitor, Table};
use crate::config::runtime;
use crate::config::scalars;
use crate::config::values;
use crate::config::values::Pairs;
use crate::config::window_rules;
use crate::config::window_rules::Rule;
use crate::errors::Failure;
use crate::numbers;
use crate::text;
use vstd::prelude::*;

verus! {

/// Whether a key has this value.
pub open spec fn sets(pairs: Pairs, key: Seq<char>, value: Seq<char>) -> bool {
    values::lookup(pairs, key) == Some(value)
}

/// Whether a key has no value.
pub open spec fn unset(pairs: Pairs, key: Seq<char>) -> bool {
    values::lookup(pairs, key) is None
}

/// Whether a key has a word for yes: `true`, `yes` or `on` in letters of any case, or `1`.
pub open spec fn switches_on(pairs: Pairs, key: Seq<char>) -> bool {
    values::lookup(pairs, key) matches Some(value) && (action_laws::spells(value, "true"@)
        || action_laws::spells(value, "yes"@) || action_laws::spells(value, "on"@) || value
        == "1"@)
}

/// Whether a key has a word for no: `false`, `no` or `off` in letters of any case, or `0`.
pub open spec fn switches_off(pairs: Pairs, key: Seq<char>) -> bool {
    values::lookup(pairs, key) matches Some(value) && (action_laws::spells(value, "false"@)
        || action_laws::spells(value, "no"@) || action_laws::spells(value, "off"@) || value
        == "0"@)
}

proof fn digits_are_lowered()
    ensures
        text::lowercase(text::trimmed("1"@)) == "1"@,
        text::lowercase(text::trimmed("0"@)) == "0"@,
{
    reveal_strlit("1");
    reveal_strlit("0");
    text::dark_ends_are_trimmed("1"@);
    text::dark_ends_are_trimmed("0"@);
    assert(text::lowercase("1"@) =~= "1"@);
    assert(text::lowercase("0"@) =~= "0"@);
}

proof fn spelled_is_trimmed(name: Seq<char>, word: Seq<char>)
    requires
        action_laws::spells(name, word),
        action_laws::is_small(word),
    ensures
        text::lowercase(text::trimmed(name)) == word,
{
    action_laws::spelled_is_lowered(name, word);
    text::dark_ends_are_trimmed(name);
}

proof fn switches_are_read(pairs: Pairs, key: Seq<char>, default: bool)
    ensures
        switches_on(pairs, key) ==> runtime::bool_or(pairs, key, default) == Ok::<bool, Failure>(
            true,
        ),
        switches_off(pairs, key) ==> runtime::bool_or(pairs, key, default) == Ok::<bool, Failure>(
            false,
        ),
        switches_on(pairs, key) ==> scalars::optional_bool(pairs, key, key)
            == Ok::<Option<bool>, Failure>(Some(true)),
        switches_off(pairs, key) ==> scalars::optional_bool(pairs, key, key)
            == Ok::<Option<bool>, Failure>(Some(false)),
        forall|label: Seq<char>|
            switches_on(pairs, key) ==> #[trigger] scalars::optional_bool(
                pairs,
                key,
                label,
            ) == Ok::<Option<bool>, Failure>(Some(true)),
        forall|label: Seq<char>|
            switches_off(pairs, key) ==> #[trigger] scalars::optional_bool(
                pairs,
                key,
                label,
            ) == Ok::<Option<bool>, Failure>(Some(false)),
{
    reveal_strlit("true");
    reveal_strlit("yes");
    reveal_strlit("on");
    reveal_strlit("false");
    reveal_strlit("no");
    reveal_strlit("off");
    digits_are_lowered();
    if let Some(value) = values::lookup(pairs, key) {
        let word = text::lowercase(text::trimmed(value));
        scalars::affirmative_is_not_negative(word);
        if action_laws::spells(value, "true"@) {
            spelled_is_trimmed(value, "true"@);
        } else if action_laws::spells(value, "yes"@) {
            spelled_is_trimmed(value, "yes"@);
        } else if action_laws::spells(value, "on"@) {
            spelled_is_trimmed(value, "on"@);
        }
        if action_laws::spells(value, "false"@) {
            spelled_is_trimmed(value, "false"@);
        } else if action_laws::spells(value, "no"@) {
            spelled_is_trimmed(value, "no"@);
        } else if action_laws::spells(value, "off"@) {
            spelled_is_trimmed(value, "off"@);
        }
    }
}

proof fn numbers_are_read(pairs: Pairs, key: Seq<char>, default: u32, number: u32)
    ensures
        sets(pairs, key, numbers::decimal(number as nat)) ==> runtime::u32_or(pairs, key, default)
            == Ok::<u32, Failure>(number),
{
    numbers::unsigned_round_trip(number as nat, u32::MAX as int);
}

/// The texts of an accepted configuration are those under their keys, or else the usual ones.
pub proof fn texts_go_by_their_keys(pairs: Pairs, readings: Table, value: Seq<char>)
    requires
        runtime::settings(pairs, readings) is Ok,
    ensures
        ({
            let found = runtime::settings(pairs, readings)->Ok_0;
            &&& sets(pairs, "terminal"@, value) ==> found.general.terminal == value
            &&& unset(pairs, "terminal"@) ==> found.general.terminal == "weston-terminal"@
            &&& sets(pairs, "launcher"@, value) ==> found.general.launcher == value
            &&& unset(pairs, "launcher"@) ==> found.general.launcher == "rofi -show drun"@
            &&& sets(pairs, "master_factor"@, value) ==> found.tiling.master_factor == value
            &&& unset(pairs, "master_factor"@) ==> found.tiling.master_factor == "0.55"@
            &&& sets(pairs, "cursor_theme"@, value) ==> found.pointer.theme == value
            &&& unset(pairs, "cursor_theme"@) ==> found.pointer.theme == "default"@
            &&& sets(pairs, "wallpaper.restore_command"@, value)
                ==> found.wallpaper.restore_command == value
            &&& sets(pairs, "wallpaper.image"@, value) ==> found.wallpaper.image == value
            &&& sets(pairs, "wallpaper.resize"@, value) ==> found.wallpaper.resize == value
            &&& unset(pairs, "wallpaper.resize"@) ==> found.wallpaper.resize == "crop"@
            &&& sets(pairs, "wallpaper.transition_type"@, value)
                ==> found.wallpaper.transition_type == value
            &&& unset(pairs, "wallpaper.transition_type"@) ==> found.wallpaper.transition_type
                == "simple"@
            &&& sets(pairs, "wallpaper.transition_duration"@, value)
                ==> found.wallpaper.transition_duration == value
            &&& sets(pairs, "xwayland.path"@, value) ==> found.xwayland.path == value
            &&& sets(pairs, "xwayland.display"@, value) ==> found.xwayland.display == value
        }),
{
}

/// The numbers of an accepted configuration are those under their keys; the size for all gaps counts
/// where a gap has none of its own.
pub proof fn numbers_go_by_their_keys(pairs: Pairs, readings: Table, number: u32)
    requires
        runtime::settings(pairs, readings) is Ok,
    ensures
        ({
            let found = runtime::settings(pairs, readings)->Ok_0;
            let value = numbers::decimal(number as nat);
            &&& sets(pairs, "border_size"@, value) ==> found.general.border_size == number
            &&& unset(pairs, "border_size"@) ==> found.general.border_size == 2
            &&& sets(pairs, "cursor_size"@, value) ==> found.pointer.size == number
            &&& unset(pairs, "cursor_size"@) ==> found.pointer.size == 24
            &&& sets(pairs, "gaps.outer_horizontal"@, value) ==> found.gaps.outer_horizontal
                == number
            &&& sets(pairs, "gaps.outer_vertical"@, value) ==> found.gaps.outer_vertical == number
            &&& sets(pairs, "gaps.inner_horizontal"@, value) ==> found.gaps.inner_horizontal
                == number
            &&& sets(pairs, "gaps.inner_vertical"@, value) ==> found.gaps.inner_vertical == number
            &&& sets(pairs, "gap_size"@, value) && unset(pairs, "gaps.outer_horizontal"@)
                ==> found.gaps.outer_horizontal == number
            &&& sets(pairs, "gap_size"@, value) && unset(pairs, "gaps.outer_vertical"@)
                ==> found.gaps.outer_vertical == number
            &&& sets(pairs, "gap_size"@, value) && unset(pairs, "gaps.inner_horizontal"@)
                ==> found.gaps.inner_horizontal == number
            &&& sets(pairs, "gap_size"@, value) && unset(pairs, "gaps.inner_vertical"@)
                ==> found.gaps.inner_vertical == number
            &&& sets(pairs, "num_master"@, value) && number <= i32::MAX ==> found.tiling.num_master
                == number
            &&& unset(pairs, "num_master"@) ==> found.tiling.num_master == 1
        }),
{
    let found = runtime::settings(pairs, readings)->Ok_0;
    numbers_are_read(pairs, "border_size"@, 2, number);
    numbers_are_read(pairs, "cursor_size"@, 24, number);
    numbers::unsigned_round_trip(number as nat, u32::MAX as int);
    if number <= i32::MAX {
        numbers::decimal_reads_back(number as nat, i32::MAX as int);
        let value = numbers::decimal(number as nat);
        assert(text::ascii_digit(value[0]));
        assert(numbers::integer(value, i32::MIN as int, i32::MAX as int) == Ok::<
            int,
            numbers::IntError,
        >(number as int));
    }
}

/// What an accepted configuration switches on or off is what its keys say, or else the usual.
pub proof fn switches_go_by_their_keys(pairs: Pairs, readings: Table)
    requires
        runtime::settings(pairs, readings) is Ok,
    ensures
        ({
            let found = runtime::settings(pairs, readings)->Ok_0;
            &&& switches_on(pairs, "focus_follow_mouse"@) || unset(pairs, "focus_follow_mouse"@)
                ==> found.general.focus_follow_mouse
            &&& switches_off(pairs, "focus_follow_mouse"@) ==> !found.general.focus_follow_mouse
            &&& switches_on(pairs, "no_csd"@) || unset(pairs, "no_csd"@) ==> found.general.no_csd
            &&& switches_off(pairs, "no_csd"@) ==> !found.general.no_csd
            &&& sets(pairs, "smart_gaps"@, "true"@) || unset(pairs, "smart_gaps"@)
                ==> found.tiling.smart_gaps
            &&& sets(pairs, "smart_gaps"@, "false"@) ==> !found.tiling.smart_gaps
            &&& switches_on(pairs, "wallpaper.enabled"@) ==> found.wallpaper.enabled
            &&& switches_off(pairs, "wallpaper.enabled"@) || unset(pairs, "wallpaper.enabled"@)
                ==> !found.wallpaper.enabled
            &&& switches_on(pairs, "xwayland.enabled"@) || unset(pairs, "xwayland.enabled"@)
                ==> found.xwayland.enabled
            &&& switches_off(pairs, "xwayland.enabled"@) ==> !found.xwayland.enabled
        }),
{
    switches_are_read(pairs, "focus_follow_mouse"@, true);
    switches_are_read(pairs, "no_csd"@, true);
    switches_are_read(pairs, "wallpaper.enabled"@, false);
    switches_are_read(pairs, "xwayland.enabled"@, true);
    reveal_strlit("true");
    reveal_strlit("false");
    assert("true"@.len() != "false"@.len());
}

/// What an accepted window rule asks is what stands in its fields; the workspace is numbered from one
/// there.
pub proof fn rules_go_by_their_fields(
    index: int,
    fields: Pairs,
    value: Seq<char>,
    number: u32,
)
    requires
        window_rules::rule_value(index, fields) is Ok,
        action_laws::is_word(value),
    ensures
        ({
            let rule = window_rules::rule_value(index, fields)->Ok_0;
            let written = numbers::decimal(number as nat);
            &&& sets(fields, "class"@, value) ==> rule.class == Some(value)
            &&& unset(fields, "class"@) ==> rule.class is None
            &&& sets(fields, "app_id"@, value) ==> rule.app_id == Some(value)
            &&& unset(fields, "app_id"@) && sets(fields, "appid"@, value) ==> rule.app_id == Some(
                value,
            )
            &&& unset(fields, "app_id"@) && unset(fields, "appid"@) ==> rule.app_id is None
            &&& sets(fields, "title"@, value) ==> rule.title == Some(value)
            &&& unset(fields, "title"@) ==> rule.title is None
            &&& sets(fields, "workspace"@, written) ==> rule.workspace == Some(
                (number - 1) as usize,
            ) && 1 <= number <= 10
            &&& unset(fields, "workspace"@) ==> rule.workspace is None
            &&& sets(fields, "width"@, written) ==> rule.width == Some(number)
            &&& unset(fields, "width"@) ==> rule.width is None
            &&& sets(fields, "height"@, written) ==> rule.height == Some(number)
            &&& unset(fields, "height"@) ==> rule.height is None
            &&& switches_on(fields, "floating"@) ==> rule.floating == Some(true)
            &&& switches_off(fields, "floating"@) ==> rule.floating == Some(false)
            &&& unset(fields, "floating"@) ==> rule.floating is None
            &&& switches_on(fields, "fullscreen"@) ==> rule.fullscreen == Some(true)
            &&& switches_off(fields, "fullscreen"@) ==> rule.fullscreen == Some(false)
            &&& unset(fields, "fullscreen"@) ==> rule.fullscreen is None
            &&& switches_on(fields, "focus"@) ==> rule.focus == Some(true)
            &&& switches_off(fields, "focus"@) ==> rule.focus == Some(false)
            &&& unset(fields, "focus"@) ==> rule.focus is None
        }),
{
    text::dark_ends_are_trimmed(value);
    let written = numbers::decimal(number as nat);
    numbers::decimal_reads_back(number as nat, u32::MAX as int);
    numbers::unsigned_round_trip(number as nat, u32::MAX as int);
    numbers::unsigned_round_trip(number as nat, usize::MAX as int);
    assert(text::ascii_digit(written[0]));
    assert(text::ascii_digit(written[written.len() - 1]));
    text::dark_ends_are_trimmed(written);
    switches_are_read(fields, "floating"@, false);
    switches_are_read(fields, "fullscreen"@, false);
    switches_are_read(fields, "focus"@, false);
}

/// What an accepted monitor has is what stands in its fields.
pub proof fn monitors_go_by_their_fields(
    index: int,
    fields: Pairs,
    readings: Table,
    value: Seq<char>,
    number: u16,
)
    requires
        monitors::monitor_value(index, fields, readings) is Ok,
        action_laws::is_word(value),
    ensures
        ({
            let monitor = monitors::monitor_value(index, fields, readings)->Ok_0;
            let written = numbers::decimal(number as nat);
            &&& sets(fields, "name"@, value) ==> monitor.name == value
            &&& unset(fields, "name"@) && sets(fields, "output"@, value) ==> monitor.name == value
            &&& sets(fields, "x"@, written) ==> monitor.x == Some(number as i32)
            &&& unset(fields, "x"@) ==> monitor.x is None
            &&& sets(fields, "y"@, written) ==> monitor.y == Some(number as i32)
            &&& unset(fields, "y"@) ==> monitor.y is None
            &&& unset(fields, "mode"@) && sets(fields, "width"@, written) ==> monitor.width == Some(
                number,
            )
            &&& unset(fields, "mode"@) && sets(fields, "height"@, written) ==> monitor.height
                == Some(number)
            &&& unset(fields, "mode"@) && sets(fields, "refresh_hz"@, value) ==> monitor.refresh_hz
                == Some(value)
            &&& sets(fields, "scale"@, value) ==> monitor.scale == Some(value)
            &&& unset(fields, "scale"@) ==> monitor.scale is None
            &&& sets(fields, "transform"@, value) ==> monitor.transform == Some(value)
            &&& unset(fields, "transform"@) ==> monitor.transform is None
            &&& switches_off(fields, "enabled"@) ==> !monitor.enabled
            &&& switches_on(fields, "enabled"@) || unset(fields, "enabled"@) ==> monitor.enabled
        }),
{
    text::dark_ends_are_trimmed(value);
    let written = numbers::decimal(number as nat);
    numbers::decimal_reads_back(number as nat, i32::MAX as int);
    numbers::decimal_reads_back(number as nat, u16::MAX as int);
    assert(text::ascii_digit(written[0]));
    assert(numbers::integer(written, 0, u16::MAX as int) == Ok::<int, numbers::IntError>(
        number as int,
    ));
    assert(numbers::integer(written, i32::MIN as int, i32::MAX as int) == Ok::<
        int,
        numbers::IntError,
    >(number as int));
    switches_are_read(fields, "enabled"@, true);
}

/// Key bindings come in the order of their lines, one for each.
pub proof fn bindings_keep_their_order(lines: Seq<Seq<char>>, main_key: MainKey, at: int)
    requires
        keybinds::keybind_values(lines, main_key) is Ok,
        0 <= at < lines.len(),
    ensures
        keybinds::keybind_values(lines, main_key)->Ok_0.len() == lines.len(),
        keybinds::keybind_value(lines[at], main_key) == Ok::<Binding, Failure>(
            keybinds::keybind_values(lines, main_key)->Ok_0[at],
        ),
    decreases lines.len(),
{
    let rest = lines.drop_last();
    if rest.len() > 0 {
        if at < rest.len() {
            assert(rest[at] == lines[at]);
            bindings_keep_their_order(rest, main_key, at);
        } else {
            bindings_keep_their_order(rest, main_key, 0);
        }
    } else {
        assert(keybinds::keybind_values(rest, main_key) == Ok::<Seq<Binding>, Failure>(seq![]));
    }
}

/// Window rules come in the order of their tables, one for each.
pub proof fn rules_keep_their_order(tables: Groups, at: int)
    requires
        window_rules::group_rules(tables) is Ok,
        0 <= at < tables.len(),
    ensures
        window_rules::group_rules(tables)->Ok_0.len() == tables.len(),
        window_rules::rule_value(tables[at].0, tables[at].1) == Ok::<Rule, Failure>(
            window_rules::group_rules(tables)->Ok_0[at],
        ),
    decreases tables.len(),
{
    let rest = tables.drop_last();
    if rest.len() > 0 {
        if at < rest.len() {
            assert(rest[at] == tables[at]);
            rules_keep_their_order(rest, at);
        } else {
            rules_keep_their_order(rest, 0);
        }
    } else {
        assert(window_rules::group_rules(rest) == Ok::<Seq<Rule>, Failure>(seq![]));
    }
}

/// Monitors come in the order of their tables, one for each.
#[verifier::rlimit(40)]
pub proof fn monitors_keep_their_order(tables: Groups, readings: Table, at: int)
    requires
        monitors::group_monitors(tables, readings) is Ok,
        0 <= at < tables.len(),
    ensures
        monitors::group_monitors(tables, readings)->Ok_0.len() == tables.len(),
        monitors::monitor_value(tables[at].0, tables[at].1, readings) == Ok::<Monitor, Failure>(
            monitors::group_monitors(tables, readings)->Ok_0[at],
        ),
    decreases tables.len(),
{
    let rest = tables.drop_last();
    if rest.len() > 0 {
        if at < rest.len() {
            assert(rest[at] == tables[at]);
            monitors_keep_their_order(rest, readings, at);
        } else {
            monitors_keep_their_order(rest, readings, 0);
        }
    } else {
        assert(monitors::group_monitors(rest, readings) == Ok::<Seq<Monitor>, Failure>(seq![]));
    }
}

/// The main key of an accepted configuration: that of `modkey`, or else that of `main_key`, under any
/// of its names in letters of any case, or else `Super`.
pub proof fn main_key_goes_by_its_names(pairs: Pairs, readings: Table, name: Seq<char>)
    requires
        runtime::settings(pairs, readings) is Ok,
        sets(pairs, "modkey"@, name) || (unset(pairs, "modkey"@) && sets(pairs, "main_key"@, name)),
    ensures
        ({
            let found = runtime::settings(pairs, readings)->Ok_0.general.main_key;
            &&& action_laws::spells(name, "super"@) || action_laws::spells(name, "mod4"@)
                ==> found == MainKey::Super
            &&& action_laws::spells(name, "alt"@) || action_laws::spells(name, "mod1"@) ==> found
                == MainKey::Alt
            &&& action_laws::spells(name, "ctrl"@) || action_laws::spells(name, "control"@)
                ==> found == MainKey::Ctrl
        }),
{
    modifier_laws::main_names_differ(name);
}

} // verus!
