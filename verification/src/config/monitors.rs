//! Monitors: mode, position, scale and transform of each output that the configuration names.

use crate::config::floats;
use crate::config::floats::{split_mode, split_size, Double, DoubleReading, Readings, Sign, Single};
use crate::config::groups;
use crate::config::groups::{group_fields, Groups};
use crate::config::scalars;
use crate::config::scalars::{
    parse_optional_bool_flexible_in_map, parse_optional_f64_in_map,
    parse_optional_i32_flexible_in_map, parse_optional_u16_flexible_in_map, parse_u16_flexible,
    Measure,
};
use crate::config::values;
use crate::config::values::{Pairs, Values};
use crate::errors;
use crate::errors::{CompositorError, Failure};
use crate::numbers;
use crate::numbers::write_decimal;
use crate::text;
use crate::text::{is_blank, trim};
use vstd::prelude::*;

verus! {

/// What the configuration says of one monitor. The refresh rate and the scale are the texts of
/// floating point numbers.
#[derive(Clone, Debug)]
pub struct MonitorConfig {
    pub name: String,
    pub enabled: bool,
    pub width: Option<u16>,
    pub height: Option<u16>,
    pub refresh_hz: Option<String>,
    pub x: Option<i32>,
    pub y: Option<i32>,
    pub scale: Option<String>,
    pub transform: Option<String>,
}

/// A `MonitorConfig` as plain values.
pub struct Monitor {
    pub name: Seq<char>,
    pub enabled: bool,
    pub width: Option<u16>,
    pub height: Option<u16>,
    pub refresh_hz: Option<Seq<char>>,
    pub x: Option<i32>,
    pub y: Option<i32>,
    pub scale: Option<Seq<char>>,
    pub transform: Option<Seq<char>>,
}

impl View for MonitorConfig {
    type V = Monitor;

    open spec fn view(&self) -> Monitor {
        Monitor {
            name: self.name@,
            enabled: self.enabled,
            width: self.width,
            height: self.height,
            refresh_hz: text::text_view(self.refresh_hz),
            x: self.x,
            y: self.y,
            scale: text::text_view(self.scale),
            transform: text::text_view(self.transform),
        }
    }
}

/// An enabled monitor of which nothing more is said.
pub open spec fn plain_monitor(name: Seq<char>) -> Monitor {
    Monitor {
        name,
        enabled: true,
        width: None,
        height: None,
        refresh_hz: None,
        x: None,
        y: None,
        scale: None,
        transform: None,
    }
}

impl Default for MonitorConfig {
    /// An enabled monitor without a name, of which nothing more is said.
    fn default() -> (monitor: MonitorConfig)
        ensures
            monitor@ == plain_monitor(Seq::<char>::empty()),
    {
        MonitorConfig {
            name: String::new(),
            enabled: true,
            width: None,
            height: None,
            refresh_hz: None,
            x: None,
            y: None,
            scale: None,
            transform: None,
        }
    }
}

impl MonitorConfig {
    /// The same configuration once more.
    pub fn copy(&self) -> (monitor: MonitorConfig)
        ensures
            monitor@ == self@,
    {
        MonitorConfig {
            name: self.name.clone(),
            enabled: self.enabled,
            width: self.width,
            height: self.height,
            refresh_hz: copy_text(&self.refresh_hz),
            x: self.x,
            y: self.y,
            scale: copy_text(&self.scale),
            transform: copy_text(&self.transform),
        }
    }
}

fn copy_text(text: &Option<String>) -> (copy: Option<String>)
    ensures
        text::text_view(copy) == text::text_view(*text),
{
    match text {
        Some(inner) => Some(inner.clone()),
        None => None,
    }
}

/// A list of monitors as plain values.
pub open spec fn monitors_view(monitors: Seq<MonitorConfig>) -> Seq<Monitor> {
    Seq::new(monitors.len(), |i: int| monitors[i]@)
}

/// The failure of a mode text.
pub open spec fn bad_mode(key: Seq<char>, reason: Seq<char>) -> Failure {
    Failure::Backend("invalid value for "@ + key + ": "@ + reason)
}

fn bad_mode_error(key: &str, reason: &str) -> (error: CompositorError)
    ensures
        error@ == bad_mode(key@, reason@),
{
    let mut message = "invalid value for ".to_owned();
    message.append(key);
    message.append(": ");
    message.append(reason);
    CompositorError::Backend(message)
}

/// Readings of texts, as plain values.
pub type Table = Seq<(Seq<char>, Double, Single)>;

/// Width, height and refresh rate.
pub type Mode = (u16, u16, Option<Seq<char>>);

/// The refresh rate of a mode, which has to be above zero.
pub open spec fn mode_refresh(refresh: Option<Seq<char>>, key: Seq<char>, readings: Table) -> Result<
    Option<Seq<char>>,
    Failure,
> {
    match refresh {
        None => Ok(None),
        Some(raw) => if raw.len() == 0 {
            Err(bad_mode(key, "refresh rate must not be empty"@))
        } else {
            match floats::double_of(readings, raw) {
                Double::Invalid(reason) => Err(
                    bad_mode(key, "invalid refresh `"@ + raw + "` ("@ + reason + ")"@),
                ),
                Double::Finite(Sign::Positive, _) => Ok(Some(raw)),
                _ => Err(bad_mode(key, "refresh must be greater than 0"@)),
            }
        },
    }
}

/// What a mode text `<width>x<height>` or `<width>x<height>@<refresh>` says.
pub open spec fn mode_value(raw: Seq<char>, key: Seq<char>, readings: Table) -> Result<
    Mode,
    Failure,
> {
    let mode = floats::mode_split(raw);
    if text::blank(raw) {
        Err(bad_mode(key, "mode must not be empty"@))
    } else {
        match floats::size_split(mode.0) {
            None => Err(
                bad_mode(key, "expected `<width>x<height>` or `<width>x<height>@<refresh>`"@),
            ),
            Some(sides) => {
                let width = text::trimmed(sides.0);
                let height = text::trimmed(sides.1);
                match scalars::u16_value(key, width, floats::double_of(readings, width)) {
                    Err(failure) => Err(failure),
                    Ok(wide) => match scalars::u16_value(
                        key,
                        height,
                        floats::double_of(readings, height),
                    ) {
                        Err(failure) => Err(failure),
                        Ok(high) => match mode_refresh(mode.1, key, readings) {
                            Err(failure) => Err(failure),
                            Ok(refresh) => Ok((wide, high, refresh)),
                        },
                    },
                }
            },
        }
    }
}

fn read_mode_refresh(refresh: Option<String>, key: &str, readings: &Readings) -> (result: Result<
    Option<String>,
    CompositorError,
>)
    ensures
        mode_refresh(text::text_view(refresh), key@, readings@) == (match result {
            Ok(found) => Ok::<Option<Seq<char>>, Failure>(text::text_view(found)),
            Err(error) => Err(error@),
        }),
{
    match refresh {
        None => Ok(None),
        Some(raw) => {
            if raw.as_str().is_empty() {
                return Err(bad_mode_error(key, "refresh rate must not be empty"));
            }
            match readings.double(raw.as_str()) {
                DoubleReading::Invalid(reason) => {
                    let mut message = "invalid refresh `".to_owned();
                    message.append(raw.as_str());
                    message.append("` (");
                    message.append(reason.as_str());
                    message.append(")");
                    Err(bad_mode_error(key, message.as_str()))
                },
                DoubleReading::Finite(Sign::Positive, _) => Ok(Some(raw)),
                _ => Err(bad_mode_error(key, "refresh must be greater than 0")),
            }
        },
    }
}

/// What a mode text `<width>x<height>` or `<width>x<height>@<refresh>` says.
pub fn parse_monitor_mode(raw: &str, key: &str, readings: &Readings) -> (result: Result<
    (u16, u16, Option<String>),
    CompositorError,
>)
    ensures
        mode_value(raw@, key@, readings@) == (match result {
            Ok(mode) => Ok::<Mode, Failure>((mode.0, mode.1, text::text_view(mode.2))),
            Err(error) => Err(error@),
        }),
{
    if is_blank(raw) {
        return Err(bad_mode_error(key, "mode must not be empty"));
    }
    let (size, refresh) = split_mode(raw);
    let (raw_width, raw_height) = match split_size(size.as_str()) {
        Some(sides) => sides,
        None => return Err(
            bad_mode_error(key, "expected `<width>x<height>` or `<width>x<height>@<refresh>`"),
        ),
    };
    let width_text = trim(raw_width.as_str());
    let width: u16 = match parse_u16_flexible(width_text.as_str(), key, readings) {
        Ok(value) => value,
        Err(error) => return Err(error),
    };
    let height_text = trim(raw_height.as_str());
    let height: u16 = match parse_u16_flexible(height_text.as_str(), key, readings) {
        Ok(value) => value,
        Err(error) => return Err(error),
    };
    match read_mode_refresh(refresh, key, readings) {
        Ok(found) => Ok((width, height, found)),
        Err(error) => Err(error),
    }
}

/// The key by which an error names a field of a monitor.
pub open spec fn monitor_key(name: Seq<char>, field: Seq<char>) -> Seq<char> {
    "monitor."@ + name + "."@ + field
}

fn write_monitor_key(name: &str, field: &str) -> (key: String)
    ensures
        key@ == monitor_key(name@, field@),
{
    let mut key = "monitor.".to_owned();
    key.append(name);
    key.append(".");
    key.append(field);
    key
}

/// The failure of a monitor as a whole.
pub open spec fn bad_monitor(name: Seq<char>, reason: Seq<char>) -> Failure {
    Failure::Backend("monitor `"@ + name + "`: "@ + reason)
}

fn bad_monitor_error(name: &str, reason: &str) -> (error: CompositorError)
    ensures
        error@ == bad_monitor(name@, reason@),
{
    let mut message = "monitor `".to_owned();
    message.append(name);
    message.append("`: ");
    message.append(reason);
    CompositorError::Backend(message)
}

/// The name of a monitor: its field `name`, or `output` where that is missing.
pub open spec fn monitor_name(index: int, fields: Pairs) -> Result<Seq<char>, Failure> {
    let raw = match values::lookup(fields, "name"@) {
        Some(name) => Some(name),
        None => values::lookup(fields, "output"@),
    };
    match raw {
        Some(name) if !text::blank(name) => Ok(text::trimmed(name)),
        _ => errors::refused(
            "missing `monitor."@ + numbers::decimal(index as nat) + ".name` (or `monitor."@
                + numbers::decimal(index as nat) + ".output`) in monitor config"@,
        ),
    }
}

fn read_monitor_name(index: usize, fields: &Values) -> (result: Result<String, CompositorError>)
    ensures
        monitor_name(index as int, fields@) == (match result {
            Ok(name) => Ok::<Seq<char>, Failure>(name@),
            Err(error) => Err(error@),
        }),
{
    let raw = match fields.get("name") {
        Some(name) => Some(name),
        None => fields.get("output"),
    };
    if let Some(found) = raw {
        let name = trim(found.as_str());
        if !name.as_str().is_empty() {
            return Ok(name);
        }
    }
    let number = write_decimal(index as u64);
    let mut message = "missing `monitor.".to_owned();
    message.append(number.as_str());
    message.append(".name` (or `monitor.");
    message.append(number.as_str());
    message.append(".output`) in monitor config");
    Err(CompositorError::Backend(message))
}

/// Whether a monitor has a mode text.
pub open spec fn has_mode(fields: Pairs) -> bool {
    values::lookup(fields, "mode"@) matches Some(raw) && !text::blank(raw)
}

/// Whether a monitor has a size or a refresh rate in fields of their own.
pub open spec fn has_explicit_mode(fields: Pairs) -> bool {
    ||| values::has_key(fields, "width"@)
    ||| values::has_key(fields, "height"@)
    ||| values::has_key(fields, "refresh_hz"@)
    ||| values::has_key(fields, "refresh"@)
    ||| values::has_key(fields, "hz"@)
}

/// The refresh rate of a monitor, under the first of its three names that is there.
pub open spec fn explicit_refresh(fields: Pairs, name: Seq<char>, readings: Table) -> Result<
    Option<Measure>,
    Failure,
> {
    match scalars::optional_double(
        fields,
        "refresh_hz"@,
        monitor_key(name, "refresh_hz"@),
        readings,
    ) {
        Ok(None) => match scalars::optional_double(
            fields,
            "refresh"@,
            monitor_key(name, "refresh"@),
            readings,
        ) {
            Ok(None) => scalars::optional_double(
                fields,
                "hz"@,
                monitor_key(name, "hz"@),
                readings,
            ),
            other => other,
        },
        other => other,
    }
}

fn read_explicit_refresh(fields: &Values, name: &str, readings: &Readings) -> (result: Result<
    Option<(String, Sign)>,
    CompositorError,
>)
    ensures
        scalars::measure_outcome(result) == explicit_refresh(fields@, name@, readings@),
{
    let first = write_monitor_key(name, "refresh_hz");
    match parse_optional_f64_in_map(fields, "refresh_hz", first.as_str(), readings) {
        Ok(None) => {},
        other => return other,
    }
    let second = write_monitor_key(name, "refresh");
    match parse_optional_f64_in_map(fields, "refresh", second.as_str(), readings) {
        Ok(None) => {},
        other => return other,
    }
    let third = write_monitor_key(name, "hz");
    parse_optional_f64_in_map(fields, "hz", third.as_str(), readings)
}

/// What the fields `width`, `height` and those of the refresh rate say.
pub open spec fn explicit_mode(fields: Pairs, name: Seq<char>, readings: Table) -> Result<
    (Option<u16>, Option<u16>, Option<Seq<char>>),
    Failure,
> {
    match scalars::optional_u16(fields, "width"@, monitor_key(name, "width"@), readings) {
        Err(failure) => Err(failure),
        Ok(width) => match scalars::optional_u16(
            fields,
            "height"@,
            monitor_key(name, "height"@),
            readings,
        ) {
            Err(failure) => Err(failure),
            Ok(height) => if width is Some != height is Some {
                Err(bad_monitor(name, "width and height must be set together"@))
            } else {
                match explicit_refresh(fields, name, readings) {
                    Err(failure) => Err(failure),
                    Ok(None) => Ok((width, height, None)),
                    Ok(Some(refresh)) => if refresh.1 == Sign::Positive {
                        Ok((width, height, Some(refresh.0)))
                    } else {
                        Err(bad_monitor(name, "refresh_hz must be greater than 0"@))
                    },
                }
            },
        },
    }
}

/// Width, height and refresh rate, as far as they are set.
pub open spec fn mode_parts(mode: (Option<u16>, Option<u16>, Option<String>)) -> (
    Option<u16>,
    Option<u16>,
    Option<Seq<char>>,
) {
    (mode.0, mode.1, text::text_view(mode.2))
}

fn read_explicit_mode(fields: &Values, name: &str, readings: &Readings) -> (result: Result<
    (Option<u16>, Option<u16>, Option<String>),
    CompositorError,
>)
    ensures
        explicit_mode(fields@, name@, readings@) == (match result {
            Ok(mode) => Ok(mode_parts(mode)),
            Err(error) => Err(error@),
        }),
{
    let width_key = write_monitor_key(name, "width");
    let width = match parse_optional_u16_flexible_in_map(
        fields,
        "width",
        width_key.as_str(),
        readings,
    ) {
        Ok(found) => found,
        Err(error) => return Err(error),
    };
    let height_key = write_monitor_key(name, "height");
    let height = match parse_optional_u16_flexible_in_map(
        fields,
        "height",
        height_key.as_str(),
        readings,
    ) {
        Ok(found) => found,
        Err(error) => return Err(error),
    };
    if width.is_some() != height.is_some() {
        return Err(bad_monitor_error(name, "width and height must be set together"));
    }
    match read_explicit_refresh(fields, name, readings) {
        Err(error) => Err(error),
        Ok(None) => Ok((width, height, None)),
        Ok(Some((raw, sign))) => if sign == Sign::Positive {
            Ok((width, height, Some(raw)))
        } else {
            Err(bad_monitor_error(name, "refresh_hz must be greater than 0"))
        },
    }
}

/// Width, height and refresh rate of a monitor, from its mode text or from fields of their own.
pub open spec fn monitor_mode(fields: Pairs, name: Seq<char>, readings: Table) -> Result<
    (Option<u16>, Option<u16>, Option<Seq<char>>),
    Failure,
> {
    if has_mode(fields) {
        match mode_value(
            values::lookup(fields, "mode"@)->Some_0,
            monitor_key(name, "mode"@),
            readings,
        ) {
            Err(failure) => Err(failure),
            Ok(mode) => Ok((Some(mode.0), Some(mode.1), mode.2)),
        }
    } else {
        explicit_mode(fields, name, readings)
    }
}

/// The scale of a monitor, which has to be above zero.
pub open spec fn monitor_scale(fields: Pairs, name: Seq<char>, readings: Table) -> Result<
    Option<Seq<char>>,
    Failure,
> {
    match scalars::optional_double(fields, "scale"@, monitor_key(name, "scale"@), readings) {
        Err(failure) => Err(failure),
        Ok(None) => Ok(None),
        Ok(Some(scale)) => if scale.1 == Sign::Positive {
            Ok(Some(scale.0))
        } else {
            Err(bad_monitor(name, "scale must be greater than 0"@))
        },
    }
}

fn read_monitor_scale(fields: &Values, name: &str, readings: &Readings) -> (result: Result<
    Option<String>,
    CompositorError,
>)
    ensures
        monitor_scale(fields@, name@, readings@) == (match result {
            Ok(scale) => Ok::<Option<Seq<char>>, Failure>(text::text_view(scale)),
            Err(error) => Err(error@),
        }),
{
    let key = write_monitor_key(name, "scale");
    match parse_optional_f64_in_map(fields, "scale", key.as_str(), readings) {
        Err(error) => Err(error),
        Ok(None) => Ok(None),
        Ok(Some((raw, sign))) => if sign == Sign::Positive {
            Ok(Some(raw))
        } else {
            Err(bad_monitor_error(name, "scale must be greater than 0"))
        },
    }
}

/// The text of a field without white space around it, where something is left of it.
pub open spec fn nonblank_field(fields: Pairs, field: Seq<char>) -> Option<Seq<char>> {
    match values::lookup(fields, field) {
        Some(raw) if !text::blank(raw) => Some(text::trimmed(raw)),
        _ => None,
    }
}

/// The text of a field without white space around it, where something is left of it.
pub fn normalize_non_empty_field(fields: &Values, field: &str) -> (value: Option<String>)
    ensures
        text::text_view(value) == nonblank_field(fields@, field@),
{
    match fields.get(field) {
        Some(raw) => {
            let inner = trim(raw.as_str());
            if inner.as_str().is_empty() {
                None
            } else {
                Some(inner)
            }
        },
        None => None,
    }
}

/// What the fields under one index say of a monitor.
pub open spec fn monitor_value(index: int, fields: Pairs, readings: Table) -> Result<
    Monitor,
    Failure,
> {
    match monitor_name(index, fields) {
        Err(failure) => Err(failure),
        Ok(name) => if has_mode(fields) && has_explicit_mode(fields) {
            Err(
                bad_monitor(
                    name,
                    "`mode` cannot be combined with width/height/refresh fields"@,
                ),
            )
        } else {
            match scalars::optional_bool(fields, "enabled"@, monitor_key(name, "enabled"@)) {
                Err(failure) => Err(failure),
                Ok(enabled) => match monitor_mode(fields, name, readings) {
                    Err(failure) => Err(failure),
                    Ok(mode) => match scalars::optional_i32(
                        fields,
                        "x"@,
                        monitor_key(name, "x"@),
                        readings,
                    ) {
                        Err(failure) => Err(failure),
                        Ok(x) => match scalars::optional_i32(
                            fields,
                            "y"@,
                            monitor_key(name, "y"@),
                            readings,
                        ) {
                            Err(failure) => Err(failure),
                            Ok(y) => match monitor_scale(fields, name, readings) {
                                Err(failure) => Err(failure),
                                Ok(scale) => Ok(
                                    Monitor {
                                        name,
                                        enabled: enabled != Some(false),
                                        width: mode.0,
                                        height: mode.1,
                                        refresh_hz: mode.2,
                                        x,
                                        y,
                                        scale,
                                        transform: nonblank_field(fields, "transform"@),
                                    },
                                ),
                            },
                        },
                    },
                },
            }
        },
    }
}

/// A monitor, or a failure, as plain values.
pub open spec fn monitor_outcome(result: Result<MonitorConfig, CompositorError>) -> Result<
    Monitor,
    Failure,
> {
    match result {
        Ok(monitor) => Ok(monitor@),
        Err(error) => Err(error@),
    }
}

fn explicit_mode_set(fields: &Values) -> (result: bool)
    ensures
        result == has_explicit_mode(fields@),
{
    fields.contains_key("width") || fields.contains_key("height") || fields.contains_key(
        "refresh_hz",
    ) || fields.contains_key("refresh") || fields.contains_key("hz")
}

/// What the fields under one index say of a monitor.
pub fn parse_monitor(index: usize, fields: &Values, readings: &Readings) -> (result: Result<
    MonitorConfig,
    CompositorError,
>)
    ensures
        monitor_outcome(result) == monitor_value(index as int, fields@, readings@),
{
    let name = match read_monitor_name(index, fields) {
        Ok(name) => name,
        Err(error) => return Err(error),
    };
    let mode_raw = match fields.get("mode") {
        Some(raw) => if is_blank(raw.as_str()) {
            None
        } else {
            Some(raw)
        },
        None => None,
    };
    if mode_raw.is_some() && explicit_mode_set(fields) {
        return Err(
            bad_monitor_error(
                name.as_str(),
                "`mode` cannot be combined with width/height/refresh fields",
            ),
        );
    }
    let enabled_key = write_monitor_key(name.as_str(), "enabled");
    let enabled = match parse_optional_bool_flexible_in_map(
        fields,
        "enabled",
        enabled_key.as_str(),
    ) {
        Ok(Some(value)) => value,
        Ok(None) => true,
        Err(error) => return Err(error),
    };
    let (width, height, refresh_hz) = match mode_raw {
        Some(raw) => {
            let mode_key = write_monitor_key(name.as_str(), "mode");
            match parse_monitor_mode(raw.as_str(), mode_key.as_str(), readings) {
                Ok(mode) => (Some(mode.0), Some(mode.1), mode.2),
                Err(error) => return Err(error),
            }
        },
        None => match read_explicit_mode(fields, name.as_str(), readings) {
            Ok(mode) => mode,
            Err(error) => return Err(error),
        },
    };
    let x_key = write_monitor_key(name.as_str(), "x");
    let x = match parse_optional_i32_flexible_in_map(fields, "x", x_key.as_str(), readings) {
        Ok(found) => found,
        Err(error) => return Err(error),
    };
    let y_key = write_monitor_key(name.as_str(), "y");
    let y = match parse_optional_i32_flexible_in_map(fields, "y", y_key.as_str(), readings) {
        Ok(found) => found,
        Err(error) => return Err(error),
    };
    let scale = match read_monitor_scale(fields, name.as_str(), readings) {
        Ok(found) => found,
        Err(error) => return Err(error),
    };
    let transform = normalize_non_empty_field(fields, "transform");
    Ok(MonitorConfig { name, enabled, width, height, refresh_hz, x, y, scale, transform })
}

/// The monitors of numbered tables, in order; the first failure counts.
pub open spec fn group_monitors(tables: Groups, readings: Table) -> Result<Seq<Monitor>, Failure>
    decreases tables.len(),
{
    if tables.len() == 0 {
        Ok(seq![])
    } else {
        match group_monitors(tables.drop_last(), readings) {
            Err(failure) => Err(failure),
            Ok(monitors) => match monitor_value(tables.last().0, tables.last().1, readings) {
                Err(failure) => Err(failure),
                Ok(monitor) => Ok(monitors.push(monitor)),
            },
        }
    }
}

/// The monitors of the keys `monitor.<index>.<field>`, by index.
pub open spec fn monitor_values(pairs: Pairs, readings: Table) -> Result<Seq<Monitor>, Failure> {
    match groups::grouped(pairs, "monitor."@, "monitor"@, "monitor.<index>.<field>"@) {
        Err(failure) => Err(failure),
        Ok(tables) => group_monitors(tables, readings),
    }
}

proof fn group_monitors_keeps_failure(tables: Groups, readings: Table, at: int)
    requires
        0 <= at <= tables.len(),
        group_monitors(tables.take(at), readings) is Err,
    ensures
        group_monitors(tables, readings) == group_monitors(tables.take(at), readings),
    decreases tables.len() - at,
{
    if at < tables.len() {
        assert(tables.take(at + 1).drop_last() =~= tables.take(at));
        group_monitors_keeps_failure(tables, readings, at + 1);
    } else {
        assert(tables.take(at) =~= tables);
    }
}

/// A list of monitors, or a failure, as plain values.
pub open spec fn monitors_outcome(result: Result<Vec<MonitorConfig>, CompositorError>) -> Result<
    Seq<Monitor>,
    Failure,
> {
    match result {
        Ok(monitors) => Ok(monitors_view(monitors@)),
        Err(error) => Err(error@),
    }
}

/// The monitors of the keys `monitor.<index>.<field>`, by index.
pub fn parse_monitor_configs(values: &Values, readings: &Readings) -> (result: Result<
    Vec<MonitorConfig>,
    CompositorError,
>)
    ensures
        monitors_outcome(result) == monitor_values(values@, readings@),
{
    let tables = match group_fields(values, "monitor.", "monitor", "monitor.<index>.<field>") {
        Ok(tables) => tables,
        Err(error) => return Err(error),
    };
    let ghost all = groups::groups_view(tables@);
    let mut monitors: Vec<MonitorConfig> = Vec::new();
    let mut at: usize = 0;
    assert(all.take(0) =~= seq![]);
    assert(monitors_view(monitors@) =~= seq![]);
    while at < tables.len()
        invariant
            at <= tables.len(),
            all == groups::groups_view(tables@),
            monitor_values(values@, readings@) == group_monitors(all, readings@),
            group_monitors(all.take(at as int), readings@) == Ok::<Seq<Monitor>, Failure>(
                monitors_view(monitors@),
            ),
        decreases tables.len() - at,
    {
        proof {
            let next = all.take(at + 1);
            assert(next.drop_last() =~= all.take(at as int));
            assert(next.last() == all[at as int]);
        }
        match parse_monitor(tables[at].index, &tables[at].fields, readings) {
            Err(error) => {
                proof {
                    group_monitors_keeps_failure(all, readings@, at + 1);
                }
                return Err(error);
            },
            Ok(monitor) => {
                let ghost before = monitors_view(monitors@);
                monitors.push(monitor);
                assert(monitors_view(monitors@) =~= before.push(monitor@));
            },
        }
        at = at + 1;
    }
    assert(all.take(all.len() as int) =~= all);
    Ok(monitors)
}

/// A monitor that was accepted has both a width and a height or neither, a refresh rate and a scale
/// that read as above zero, where they are set, and a name and a transform, where one is set, that
/// are not empty and have no white space around them.
pub proof fn accepted_monitor_is_complete(index: int, fields: Pairs, readings: Table)
    requires
        monitor_value(index, fields, readings) is Ok,
    ensures
        ({
            let monitor = monitor_value(index, fields, readings)->Ok_0;
            &&& monitor.width is Some == monitor.height is Some
            &&& monitor.refresh_hz matches Some(refresh) ==> floats::double_of(
                readings,
                refresh,
            ) matches Double::Finite(sign, _) && sign == Sign::Positive
            &&& monitor.scale matches Some(scale) ==> floats::double_of(
                readings,
                scale,
            ) matches Double::Finite(sign, _) && sign == Sign::Positive
            &&& monitor.name.len() > 0
            &&& monitor.name == text::trimmed(monitor.name)
            &&& monitor.transform matches Some(transform) ==> transform.len() > 0 && transform
                == text::trimmed(transform)
        }),
{
    let name = match values::lookup(fields, "name"@) {
        Some(name) => name,
        None => values::lookup(fields, "output"@)->Some_0,
    };
    text::trimmed_twice(name);
    if let Some(raw) = values::lookup(fields, "transform"@) {
        text::trimmed_twice(raw);
    }
}

} // verus!
