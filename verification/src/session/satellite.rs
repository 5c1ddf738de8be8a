//! The program that serves X11 clients: when it is started, stopped and started again.

use crate::config::runtime;
use crate::config::runtime::{set_env, unset_env, EnvChange, RuntimeConfig, Settings};
use crate::numbers;
use crate::numbers::write_decimal;
use crate::session::spawn;
use crate::session::spawn::apply_wayland_child_env;
use crate::text;
use crate::text::{is_blank, same_text, trim};
use vstd::prelude::*;

verus! {

/// How many X11 displays are looked at.
pub const X11_DISPLAYS: usize = 100;

/// How long the program must run not to count as failing, in milliseconds.
pub const SHORT_LIFE_MSEC: u64 = 8000;

/// How long the program must run for its failures to be forgotten, in milliseconds.
pub const LONG_LIFE_MSEC: u64 = 15000;

/// The longest wait before another start, in seconds.
pub const LONGEST_BACKOFF_SECS: u64 = 30;

/// The path of the socket of an X11 display.
pub fn x11_socket_path(number: usize) -> (path: String)
    ensures
        path@ == "/tmp/.X11-unix/X"@ + numbers::decimal(number as nat),
{
    let mut path = "/tmp/.X11-unix/X".to_owned();
    path.append(write_decimal(number as u64).as_str());
    path
}

/// The path of the lock of an X11 display.
pub fn x11_lock_path(number: usize) -> (path: String)
    ensures
        path@ == "/tmp/.X"@ + numbers::decimal(number as nat) + "-lock"@,
{
    let mut path = "/tmp/.X".to_owned();
    path.append(write_decimal(number as u64).as_str());
    path.append("-lock");
    path
}

/// The first display from `from` on that is not taken.
pub open spec fn free_from(taken: Seq<bool>, from: int) -> Option<int>
    decreases taken.len() - from,
{
    if from < 0 || from >= taken.len() {
        None
    } else if !taken[from] {
        Some(from)
    } else {
        free_from(taken, from + 1)
    }
}

/// The name of the first display that is not taken.
pub open spec fn free_display(taken: Seq<bool>) -> Option<Seq<char>> {
    match free_from(taken, 0) {
        Some(number) => Some(":"@ + numbers::decimal(number as nat)),
        None => None,
    }
}

/// The name of the first display that is not taken; `taken` says of each whether its socket or its
/// lock is there.
pub fn find_free_x11_display(taken: &Vec<bool>) -> (display: Option<String>)
    ensures
        text::text_view(display) == free_display(taken@),
{
    let mut number: usize = 0;
    while number < taken.len()
        invariant
            number <= taken.len(),
            free_from(taken@, 0) == free_from(taken@, number as int),
        decreases taken.len() - number,
    {
        if !taken[number] {
            let mut display = ":".to_owned();
            display.append(write_decimal(number as u64).as_str());
            return Some(display);
        }
        number = number + 1;
    }
    None
}

/// Whether a display is picked for X11 clients: none is set, and one is free.
pub open spec fn display_picked(found: Settings, taken: Seq<bool>) -> bool {
    found.xwayland.enabled && text::blank(found.xwayland.display) && free_display(taken) is Some
}

/// The settings with a display for X11 clients, where none is set and one is free.
pub open spec fn with_display(found: Settings, taken: Seq<bool>) -> Settings {
    if display_picked(found, taken) {
        Settings {
            xwayland: runtime::Xwayland { display: free_display(taken)->0, ..found.xwayland },
            ..found
        }
    } else {
        found
    }
}

/// Picks a display for X11 clients where none is set, and says whether it did.
pub fn ensure_xwayland_display(config: &mut RuntimeConfig, taken: &Vec<bool>) -> (picked: bool)
    ensures
        final(config)@ == with_display(old(config)@, taken@),
        picked == display_picked(old(config)@, taken@),
{
    if !config.xwayland.enabled {
        return false;
    }
    if !is_blank(config.xwayland.display.as_str()) {
        return false;
    }
    match find_free_x11_display(taken) {
        Some(display) => {
            config.xwayland.display = display;
            true
        },
        None => false,
    }
}

/// What tells one run of the program from another: its path and its display. None, where it is not to
/// run.
pub open spec fn signature_of(found: Settings) -> Option<Seq<char>> {
    let path = text::trimmed(found.xwayland.path);
    let display = text::trimmed(found.xwayland.display);
    if found.xwayland.enabled && path.len() > 0 && display.len() > 0 {
        Some(path + "|"@ + display)
    } else {
        None
    }
}

/// What tells one run of the program from another; none, where it is not to run.
pub fn desired_xwayland_satellite_signature(config: &RuntimeConfig) -> (signature: Option<String>)
    ensures
        text::text_view(signature) == signature_of(config@),
{
    if !config.xwayland.enabled {
        return None;
    }
    let path = trim(config.xwayland.path.as_str());
    let display = trim(config.xwayland.display.as_str());
    if path.as_str().is_empty() || display.as_str().is_empty() {
        return None;
    }
    let mut signature = path;
    signature.append("|");
    signature.append(display.as_str());
    Some(signature)
}

/// How long to wait after a number of failures, in seconds: twice as long each time, within bounds.
pub open spec fn backoff_secs(failures: u8) -> u64 {
    if failures == 0 {
        1
    } else if failures == 1 {
        2
    } else if failures == 2 {
        4
    } else if failures == 3 {
        8
    } else if failures == 4 {
        16
    } else {
        LONGEST_BACKOFF_SECS
    }
}

fn backoff_after(failures: u8) -> (secs: u64)
    ensures
        secs == backoff_secs(failures),
{
    match failures {
        0 => 1,
        1 => 2,
        2 => 4,
        3 => 8,
        4 => 16,
        _ => LONGEST_BACKOFF_SECS,
    }
}

/// The wait grows with the failures, doubles up to its longest, and stays there.
pub proof fn backoff_grows(fewer: u8, more: u8)
    requires
        fewer <= more,
    ensures
        backoff_secs(fewer) <= backoff_secs(more) <= LONGEST_BACKOFF_SECS,
        1 <= fewer < 4 ==> backoff_secs((fewer + 1) as u8) == 2 * backoff_secs(fewer),
        fewer >= 5 ==> backoff_secs(fewer) == LONGEST_BACKOFF_SECS,
{
}

/// The program, as far as it is known. Times are in milliseconds since some start.
#[derive(Debug)]
pub struct Satellite {
    pub running: bool,
    pub signature: Option<String>,
    pub started_at: Option<u64>,
    pub backoff_until: Option<u64>,
    pub failure_count: u8,
}

/// A `Satellite` as plain values.
pub struct Service {
    pub running: bool,
    pub signature: Option<Seq<char>>,
    pub started_at: Option<u64>,
    pub backoff_until: Option<u64>,
    pub failures: u8,
}

impl View for Satellite {
    type V = Service;

    open spec fn view(&self) -> Service {
        Service {
            running: self.running,
            signature: text::text_view(self.signature),
            started_at: self.started_at,
            backoff_until: self.backoff_until,
            failures: self.failure_count,
        }
    }
}

/// What a look at the program shows.
#[derive(Clone, Copy, Debug, PartialEq, Eq, Structural)]
pub enum Probe {
    Running,
    Exited,
    Failed,
}

/// What is to be done about the program.
#[derive(Clone, Copy, Debug, PartialEq, Eq, Structural)]
pub enum SatelliteAction {
    Nothing,
    Stop,
    Spawn,
    StopAndSpawn,
}

impl Service {
    /// The program when it does not run.
    pub open spec fn gone(self) -> Service {
        Service { running: false, signature: None, started_at: None, ..self }
    }

    /// The program with its failures forgotten.
    pub open spec fn forgiven(self) -> Service {
        Service { backoff_until: None, failures: 0, ..self }
    }

    /// The program after one more failure.
    pub open spec fn failed(self, now: u64) -> Service {
        let failures = self.failures.saturating_add(1);
        Service {
            failures,
            backoff_until: Some(now.saturating_add((backoff_secs(failures) * 1000) as u64)),
            ..self
        }
    }

    /// How long the program has run.
    pub open spec fn age(self, now: u64) -> Option<u64> {
        match self.started_at {
            Some(started) => Some(now.saturating_sub(started)),
            None => None,
        }
    }

    /// The program after a look at it: one that ended soon after its start has failed, one that ended
    /// later is forgiven.
    pub open spec fn probed(self, probe: Probe, now: u64) -> Service {
        if !self.running {
            self
        } else {
            match probe {
                Probe::Running => self,
                Probe::Exited => if self.age(now) matches Some(age) && age < SHORT_LIFE_MSEC {
                    self.gone().failed(now)
                } else {
                    self.gone().forgiven()
                },
                Probe::Failed => self.gone().failed(now),
            }
        }
    }

    /// What is to be done about the program, after a look at it.
    pub open spec fn action_due(self, desired: Option<Seq<char>>, now: u64) -> SatelliteAction {
        match desired {
            None => SatelliteAction::Stop,
            Some(desired) => if self.running {
                if self.signature == Some(desired) {
                    SatelliteAction::Nothing
                } else {
                    SatelliteAction::StopAndSpawn
                }
            } else if self.backoff_until matches Some(until) && now < until {
                SatelliteAction::Nothing
            } else {
                SatelliteAction::Spawn
            },
        }
    }

    /// The program after what is to be done, but for the start.
    pub open spec fn acted(self, desired: Option<Seq<char>>, now: u64) -> Service {
        match self.action_due(desired, now) {
            SatelliteAction::Stop => self.gone().forgiven(),
            SatelliteAction::StopAndSpawn => self.gone().forgiven(),
            SatelliteAction::Spawn => Service { backoff_until: None, ..self },
            SatelliteAction::Nothing => if self.running && self.failures > 0 && (self.age(
                now,
            ) matches Some(age) && age >= LONG_LIFE_MSEC) {
                self.forgiven()
            } else {
                self
            },
        }
    }

    /// The program after one round.
    pub open spec fn maintained(self, desired: Option<Seq<char>>, probe: Probe, now: u64) -> Service {
        match desired {
            None => self.acted(desired, now),
            Some(_) => self.probed(probe, now).acted(desired, now),
        }
    }

    /// What one round asks for.
    pub open spec fn asked(self, desired: Option<Seq<char>>, probe: Probe, now: u64) -> SatelliteAction {
        match desired {
            None => SatelliteAction::Stop,
            Some(_) => self.probed(probe, now).action_due(desired, now),
        }
    }

    /// The program after a start.
    pub open spec fn started(self, signature: Seq<char>, success: bool, now: u64) -> Service {
        if success {
            Service {
                running: true,
                signature: Some(signature),
                started_at: Some(now),
                ..self
            }
        } else {
            self.failed(now)
        }
    }
}

impl Satellite {
    /// The program before it was ever started.
    pub fn new() -> (satellite: Satellite)
        ensures
            satellite@ == (Service {
                running: false,
                signature: None,
                started_at: None,
                backoff_until: None,
                failures: 0,
            }),
    {
        Satellite {
            running: false,
            signature: None,
            started_at: None,
            backoff_until: None,
            failure_count: 0,
        }
    }

    /// The program does not run any more.
    pub fn stop_xwayland_satellite(&mut self)
        ensures
            final(self)@ == old(self)@.gone(),
    {
        self.running = false;
        self.signature = None;
        self.started_at = None;
    }

    fn forgive(&mut self)
        ensures
            final(self)@ == old(self)@.forgiven(),
    {
        self.backoff_until = None;
        self.failure_count = 0;
    }

    /// The program failed: it is not started again for a while.
    pub fn note_xwayland_satellite_failure(&mut self, now: u64)
        ensures
            final(self)@ == old(self)@.failed(now),
    {
        self.failure_count = self.failure_count.saturating_add(1);
        let wait: u64 = backoff_after(self.failure_count) * 1000;
        self.backoff_until = Some(now.saturating_add(wait));
    }

    fn probe_result(&mut self, probe: Probe, now: u64)
        ensures
            final(self)@ == old(self)@.probed(probe, now),
    {
        if !self.running {
            return;
        }
        match probe {
            Probe::Running => {},
            Probe::Exited => {
                let short_lived = match self.started_at {
                    Some(started) => now.saturating_sub(started) < SHORT_LIFE_MSEC,
                    None => false,
                };
                self.stop_xwayland_satellite();
                if short_lived {
                    self.note_xwayland_satellite_failure(now);
                } else {
                    self.forgive();
                }
            },
            Probe::Failed => {
                self.stop_xwayland_satellite();
                self.note_xwayland_satellite_failure(now);
            },
        }
    }

    /// One round of looking after the program: `probe` is what a look at it shows, where it runs.
    pub fn maintain_xwayland_satellite(&mut self, desired: Option<&str>, probe: Probe, now: u64) -> (action:
        SatelliteAction)
        ensures
            final(self)@ == old(self)@.maintained(text::slice_view(desired), probe, now),
            action == old(self)@.asked(text::slice_view(desired), probe, now),
    {
        let desired = match desired {
            Some(desired) => desired,
            None => {
                self.stop_xwayland_satellite();
                self.forgive();
                return SatelliteAction::Stop;
            },
        };
        self.probe_result(probe, now);
        if self.running {
            let same = match &self.signature {
                Some(signature) => same_text(signature.as_str(), desired),
                None => false,
            };
            if same {
                let settled = match self.started_at {
                    Some(started) => now.saturating_sub(started) >= LONG_LIFE_MSEC,
                    None => false,
                };
                if self.failure_count > 0 && settled {
                    self.forgive();
                }
                return SatelliteAction::Nothing;
            }
            self.stop_xwayland_satellite();
            self.forgive();
            return SatelliteAction::StopAndSpawn;
        }
        if let Some(until) = self.backoff_until {
            if now < until {
                return SatelliteAction::Nothing;
            }
        }
        self.backoff_until = None;
        SatelliteAction::Spawn
    }

    /// Takes in what came of a start.
    pub fn spawn_xwayland_satellite(&mut self, signature: String, success: bool, now: u64)
        ensures
            final(self)@ == old(self)@.started(signature@, success, now),
    {
        if success {
            self.running = true;
            self.signature = Some(signature);
            self.started_at = Some(now);
        } else {
            self.note_xwayland_satellite_failure(now);
        }
    }
}

/// The changes of the environment for the program: it must not know a display itself.
pub open spec fn satellite_environment(
    found: Settings,
    socket: Seq<char>,
    runtime_dir: Option<Seq<char>>,
    log: Option<Seq<char>>,
) -> Seq<(Seq<char>, Option<Seq<char>>)> {
    spawn::child_environment(found, socket, runtime_dir) + seq![
        ("DISPLAY"@, None),
        (
            "RUST_LOG"@,
            Some(
                match log {
                    Some(log) => log,
                    None => "xwayland_satellite=warn,xwayland_process=warn"@,
                },
            ),
        ),
        ("RUST_BACKTRACE"@, None),
        ("RUST_LIB_BACKTRACE"@, None),
    ]
}

/// The changes of the environment for the program.
pub fn satellite_env(
    config: &RuntimeConfig,
    socket: &str,
    runtime_dir: Option<&str>,
    log: Option<&str>,
) -> (changes: Vec<EnvChange>)
    ensures
        runtime::env_view(changes@) == satellite_environment(
            config@,
            socket@,
            text::slice_view(runtime_dir),
            text::slice_view(log),
        ),
{
    let mut changes = apply_wayland_child_env(config, socket, runtime_dir);
    unset_env(&mut changes, "DISPLAY");
    let filter = match log {
        Some(log) => log,
        None => "xwayland_satellite=warn,xwayland_process=warn",
    };
    set_env(&mut changes, "RUST_LOG", filter);
    unset_env(&mut changes, "RUST_BACKTRACE");
    unset_env(&mut changes, "RUST_LIB_BACKTRACE");
    assert(runtime::env_view(changes@) =~= satellite_environment(
        config@,
        socket@,
        text::slice_view(runtime_dir),
        text::slice_view(log),
    ));
    changes
}

/// While it waits after a failure, the program is not started.
pub proof fn no_start_while_waiting(service: Service, desired: Seq<char>, probe: Probe, now: u64)
    requires
        !service.running,
        service.backoff_until matches Some(until) && now < until,
    ensures
        service.asked(Some(desired), probe, now) == SatelliteAction::Nothing,
        service.maintained(Some(desired), probe, now) == service,
{
}

/// A program that runs as it should is left alone.
pub proof fn healthy_is_left_alone(service: Service, desired: Seq<char>, now: u64)
    requires
        service.running,
        service.signature == Some(desired),
    ensures
        service.asked(Some(desired), Probe::Running, now) == SatelliteAction::Nothing,
        service.maintained(Some(desired), Probe::Running, now).running,
        service.maintained(Some(desired), Probe::Running, now).signature == Some(desired),
{
}

/// A change of its path or its display restarts the program at once, whatever failed before.
pub proof fn change_restarts(service: Service, desired: Seq<char>, now: u64)
    requires
        service.running,
        service.signature != Some(desired),
    ensures
        service.asked(Some(desired), Probe::Running, now) == SatelliteAction::StopAndSpawn,
        service.maintained(Some(desired), Probe::Running, now).failures == 0,
{
}

/// A program that fails is started again after its wait, and not before.
pub proof fn failure_waits_then_starts(service: Service, desired: Seq<char>, now: u64, later: u64)
    requires
        !service.running,
        now + LONGEST_BACKOFF_SECS * 1000 <= u64::MAX,
    ensures
        ({
            let failed = service.started(desired, false, now);
            failed.asked(Some(desired), Probe::Running, later) == (if later < now + backoff_secs(
                failed.failures,
            ) * 1000 {
                SatelliteAction::Nothing
            } else {
                SatelliteAction::Spawn
            })
        }),
{
}

} // verus!
