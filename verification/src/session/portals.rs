//! The portal services: which of them serve this session, and how they are brought up.

use crate::session::commands::{no_texts, push_text, CommandLine, Line};
use crate::text;
use crate::text::{contains, same_text, trim};
use vstd::prelude::*;

verus! {

/// The portals that a session prefers.
pub open spec fn default_preferences() -> Seq<char> {
    "[preferred]\ndefault=gtk;\norg.freedesktop.impl.portal.Access=gtk;\norg.freedesktop.impl.portal.Notification=gtk;\norg.freedesktop.impl.portal.FileChooser=gtk;\norg.freedesktop.impl.portal.Settings=gtk;\norg.freedesktop.impl.portal.Secret=gnome-keyring;\n"@
}

/// The portals that a session preferred before.
pub open spec fn legacy_preferences() -> Seq<char> {
    "[preferred]\ndefault=gnome;gtk;\norg.freedesktop.impl.portal.Access=gtk;\norg.freedesktop.impl.portal.Notification=gtk;\norg.freedesktop.impl.portal.Secret=gnome-keyring;\n"@
}

/// The portals that a session prefers.
pub fn default_portal_preferences() -> (preferences: &'static str)
    ensures
        preferences@ == default_preferences(),
{
    "[preferred]\ndefault=gtk;\norg.freedesktop.impl.portal.Access=gtk;\norg.freedesktop.impl.portal.Notification=gtk;\norg.freedesktop.impl.portal.FileChooser=gtk;\norg.freedesktop.impl.portal.Settings=gtk;\norg.freedesktop.impl.portal.Secret=gnome-keyring;\n"
}

/// The portals that a session preferred before.
pub fn legacy_portal_preferences() -> (preferences: &'static str)
    ensures
        preferences@ == legacy_preferences(),
{
    "[preferred]\ndefault=gnome;gtk;\norg.freedesktop.impl.portal.Access=gtk;\norg.freedesktop.impl.portal.Notification=gtk;\norg.freedesktop.impl.portal.Secret=gnome-keyring;\n"
}

/// What is done about the file with the preferences.
#[derive(Clone, Copy, Debug, PartialEq, Eq, Structural)]
pub enum PreferencesStep {
    /// Write it anew, with its directory.
    Create,
    /// Write it over what was preferred before.
    Migrate,
    /// Leave it.
    Keep,
}

/// What is done about the file with the preferences: a file of the user's own is left alone.
/// `existing` is its text, where it is there and can be read.
pub fn portal_preferences_step(exists: bool, existing: Option<&str>) -> (step: PreferencesStep)
    ensures
        step == (if !exists {
            PreferencesStep::Create
        } else {
            match existing {
                Some(existing) => if text::trimmed(existing@) == text::trimmed(
                    legacy_preferences(),
                ) {
                    PreferencesStep::Migrate
                } else {
                    PreferencesStep::Keep
                },
                None => PreferencesStep::Keep,
            }
        }),
{
    if !exists {
        return PreferencesStep::Create;
    }
    match existing {
        Some(existing) => {
            let found = trim(existing);
            let legacy = trim(legacy_portal_preferences());
            if same_text(found.as_str(), legacy.as_str()) {
                PreferencesStep::Migrate
            } else {
                PreferencesStep::Keep
            }
        },
        None => PreferencesStep::Keep,
    }
}

/// Where the user's configuration is.
#[derive(Debug)]
pub enum PreferencesRoot {
    /// In this directory.
    Directory(String),
    /// In `.config` of this directory.
    Home(String),
    Unknown,
}

/// Where the user's configuration is, by the values of two variables.
pub fn preferences_root(config_home: Option<&str>, home: Option<&str>) -> (root: PreferencesRoot)
    ensures
        match root {
            PreferencesRoot::Directory(dir) => config_home matches Some(given) && given@.len() > 0
                && dir@ == given@,
            PreferencesRoot::Home(dir) => (config_home matches Some(given) ==> given@.len() == 0) && (
            home matches Some(given) && given@.len() > 0 && dir@ == given@),
            PreferencesRoot::Unknown => (config_home matches Some(given) ==> given@.len() == 0) && (
            home matches Some(given) ==> given@.len() == 0),
        },
{
    if let Some(dir) = config_home {
        if !dir.is_empty() {
            return PreferencesRoot::Directory(dir.to_owned());
        }
    }
    if let Some(dir) = home {
        if !dir.is_empty() {
            return PreferencesRoot::Home(dir.to_owned());
        }
    }
    PreferencesRoot::Unknown
}

/// How many portal services are stopped, and how many are restarted.
pub const PORTAL_UNITS: usize = 3;

/// The portal service of another desktop, by its number.
pub open spec fn conflicting_unit(index: int) -> Seq<char> {
    if index == 0 {
        "xdg-desktop-portal-gnome.service"@
    } else if index == 1 {
        "xdg-desktop-portal-hyprland.service"@
    } else {
        "xdg-desktop-portal-kde.service"@
    }
}

/// The portal service of this session, by its number.
pub open spec fn serving_unit(index: int) -> Seq<char> {
    if index == 0 {
        "xdg-desktop-portal-gtk.service"@
    } else if index == 1 {
        "xdg-desktop-portal-wlr.service"@
    } else {
        "xdg-desktop-portal.service"@
    }
}

fn conflicting(index: usize) -> (unit: &'static str)
    ensures
        unit@ == conflicting_unit(index as int),
{
    if index == 0 {
        "xdg-desktop-portal-gnome.service"
    } else if index == 1 {
        "xdg-desktop-portal-hyprland.service"
    } else {
        "xdg-desktop-portal-kde.service"
    }
}

fn serving(index: usize) -> (unit: &'static str)
    ensures
        unit@ == serving_unit(index as int),
{
    if index == 0 {
        "xdg-desktop-portal-gtk.service"
    } else if index == 1 {
        "xdg-desktop-portal-wlr.service"
    } else {
        "xdg-desktop-portal.service"
    }
}

/// A step of bringing up the portal services: first those of other desktops are stopped, then those
/// of this session are restarted, each started where it cannot be restarted.
#[derive(Clone, Copy, Debug, PartialEq, Eq, Structural)]
pub enum PortalStep {
    Stop(usize),
    Restart(usize),
    Start(usize),
    Done,
}

/// What came of a command: whether it succeeded, its status, and what it wrote.
#[derive(Debug)]
pub struct CommandReport {
    pub success: bool,
    pub code: Option<i32>,
    pub stderr: String,
}

/// What is made of a report.
#[derive(Clone, Copy, Debug, PartialEq, Eq, Structural)]
pub enum UnitOutcome {
    /// The service did as asked.
    Done,
    /// The service cannot be restarted.
    NotRestartable,
    /// There is no such service, which is as it may be.
    Missing,
    /// Something is wrong.
    Failed,
}

/// Whether a report says that there is no such service.
pub open spec fn says_missing(stderr: Seq<char>) -> bool {
    text::holds(stderr, "not found"@) || text::holds(stderr, "not loaded"@)
}

/// What is made of the report on a service that was to be stopped or started.
pub open spec fn plain_outcome(success: bool, stderr: Seq<char>) -> UnitOutcome {
    if success {
        UnitOutcome::Done
    } else if says_missing(text::trimmed(stderr)) {
        UnitOutcome::Missing
    } else {
        UnitOutcome::Failed
    }
}

/// What is made of the report on a service that was to be restarted.
pub open spec fn restart_outcome(success: bool, code: Option<i32>, stderr: Seq<char>) -> UnitOutcome {
    if success || (code == Some(1i32) && text::holds(
        stderr,
        "Job type restart is not applicable"@,
    )) {
        UnitOutcome::Done
    } else if text::holds(text::trimmed(stderr), "Job type restart is not applicable"@) {
        UnitOutcome::NotRestartable
    } else {
        plain_outcome(false, stderr)
    }
}

/// What is made of the report on a service that was to be stopped or started.
pub fn judge_unit(report: &CommandReport) -> (outcome: UnitOutcome)
    ensures
        outcome == plain_outcome(report.success, report.stderr@),
{
    if report.success {
        return UnitOutcome::Done;
    }
    let said = trim(report.stderr.as_str());
    if contains(said.as_str(), "not found") || contains(said.as_str(), "not loaded") {
        UnitOutcome::Missing
    } else {
        UnitOutcome::Failed
    }
}

/// What is made of the report on a service that was to be restarted.
pub fn judge_restart(report: &CommandReport) -> (outcome: UnitOutcome)
    ensures
        outcome == restart_outcome(report.success, report.code, report.stderr@),
{
    let refused = match report.code {
        Some(code) => code == 1,
        None => false,
    };
    if report.success || (refused && contains(
        report.stderr.as_str(),
        "Job type restart is not applicable",
    )) {
        return UnitOutcome::Done;
    }
    let said = trim(report.stderr.as_str());
    if contains(said.as_str(), "Job type restart is not applicable") {
        return UnitOutcome::NotRestartable;
    }
    if contains(said.as_str(), "not found") || contains(said.as_str(), "not loaded") {
        UnitOutcome::Missing
    } else {
        UnitOutcome::Failed
    }
}

/// The arguments that a step gives to the service manager.
pub open spec fn portal_arguments(step: PortalStep) -> Seq<Seq<char>> {
    match step {
        PortalStep::Stop(index) => seq![
            "--user"@,
            "--no-block"@,
            "stop"@,
            conflicting_unit(index as int),
        ],
        PortalStep::Restart(index) => seq!["--user"@, "restart"@, serving_unit(index as int)],
        PortalStep::Start(index) => seq![
            "--user"@,
            "--no-block"@,
            "start"@,
            serving_unit(index as int),
        ],
        PortalStep::Done => seq![],
    }
}

impl PortalStep {
    /// Whether the numbers are those of services.
    pub open spec fn valid(self) -> bool {
        match self {
            PortalStep::Stop(index) => index < PORTAL_UNITS,
            PortalStep::Restart(index) => index < PORTAL_UNITS,
            PortalStep::Start(index) => index < PORTAL_UNITS,
            PortalStep::Done => true,
        }
    }

    /// The first step.
    pub fn first() -> (step: PortalStep)
        ensures
            step == PortalStep::Stop(0),
            step.valid(),
    {
        PortalStep::Stop(0)
    }

    /// The step for the next service of this session, if there is one.
    pub open spec fn next_serving(index: usize) -> PortalStep {
        if index + 1 < PORTAL_UNITS {
            PortalStep::Restart((index + 1) as usize)
        } else {
            PortalStep::Done
        }
    }

    /// The step after this one; `outcome` is what is made of the report on a restart.
    pub open spec fn after(self, outcome: UnitOutcome) -> PortalStep {
        match self {
            PortalStep::Stop(index) => if index + 1 < PORTAL_UNITS {
                PortalStep::Stop((index + 1) as usize)
            } else {
                PortalStep::Restart(0)
            },
            PortalStep::Restart(index) => if outcome == UnitOutcome::NotRestartable {
                PortalStep::Start(index)
            } else {
                PortalStep::next_serving(index)
            },
            PortalStep::Start(index) => PortalStep::next_serving(index),
            PortalStep::Done => PortalStep::Done,
        }
    }

    /// The command of this step; none, where all is done.
    pub fn command(self) -> (command: Option<CommandLine>)
        ensures
            command is None <==> self == PortalStep::Done,
            command matches Some(command) ==> command@ == (Line {
                program: "systemctl"@,
                args: portal_arguments(self),
            }),
    {
        let mut args = no_texts();
        push_text(&mut args, "--user");
        match self {
            PortalStep::Stop(index) => {
                push_text(&mut args, "--no-block");
                push_text(&mut args, "stop");
                push_text(&mut args, conflicting(index));
            },
            PortalStep::Restart(index) => {
                push_text(&mut args, "restart");
                push_text(&mut args, serving(index));
            },
            PortalStep::Start(index) => {
                push_text(&mut args, "--no-block");
                push_text(&mut args, "start");
                push_text(&mut args, serving(index));
            },
            PortalStep::Done => {
                return None;
            },
        }
        assert(text::texts(args@) =~= portal_arguments(self));
        Some(CommandLine { program: "systemctl".to_owned(), args })
    }

    /// The step after this one; `report` is what came of the command, where it could be run.
    pub fn advance(self, report: Option<&CommandReport>) -> (step: PortalStep)
        requires
            self.valid(),
        ensures
            step == self.after(
                match report {
                    Some(report) => restart_outcome(report.success, report.code, report.stderr@),
                    None => UnitOutcome::Failed,
                },
            ),
            step.valid(),
    {
        match self {
            PortalStep::Stop(index) => if index + 1 < PORTAL_UNITS {
                PortalStep::Stop(index + 1)
            } else {
                PortalStep::Restart(0)
            },
            PortalStep::Restart(index) => {
                let outcome = match report {
                    Some(report) => judge_restart(report),
                    None => UnitOutcome::Failed,
                };
                if outcome == UnitOutcome::NotRestartable {
                    PortalStep::Start(index)
                } else if index + 1 < PORTAL_UNITS {
                    PortalStep::Restart(index + 1)
                } else {
                    PortalStep::Done
                }
            },
            PortalStep::Start(index) => if index + 1 < PORTAL_UNITS {
                PortalStep::Restart(index + 1)
            } else {
                PortalStep::Done
            },
            PortalStep::Done => PortalStep::Done,
        }
    }

    /// How many steps there are left at most.
    pub open spec fn left(self) -> int {
        match self {
            PortalStep::Stop(index) => 9 - index,
            PortalStep::Restart(index) => 6 - 2 * index,
            PortalStep::Start(index) => 5 - 2 * index,
            PortalStep::Done => 0,
        }
    }
}

/// Whatever the services answer, bringing them up comes to an end: each step leaves fewer.
pub proof fn portals_come_up(step: PortalStep, outcome: UnitOutcome)
    requires
        step.valid(),
        step != PortalStep::Done,
    ensures
        step.after(outcome).valid(),
        0 <= step.after(outcome).left() < step.left(),
        step.left() <= 9,
{
}

} // verus!
