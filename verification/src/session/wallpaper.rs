//! The wallpaper: what is asked for, and how it is brought to the screen.

use crate::config::runtime::{Wallpaper, WallpaperConfig};
use crate::session::commands::{no_texts, push_text, CommandLine, Line};
use crate::text;
use crate::text::{same_text, strip_prefix, trim};
use vstd::prelude::*;

verus! {

/// The name under which the wallpaper's own daemon runs.
pub open spec fn namespace() -> Seq<char> {
    "raven"@
}

/// The command that makes sure that the daemon of the restoring program runs.
pub open spec fn daemon_check() -> Seq<char> {
    "unset SWWW_SOCKET SWWW_DAEMON_SOCKET SWWW_NAMESPACE; swww query --namespace '' >/dev/null 2>&1 || (swww-daemon --namespace '' --quiet >/dev/null 2>&1 & sleep 0.2); swww query --namespace '' >/dev/null 2>&1 || (swww-daemon --quiet >/dev/null 2>&1 & sleep 0.2)"@
}

/// The command that makes sure of the daemon, and then restores the wallpaper.
pub open spec fn daemon_check_and_restore() -> Seq<char> {
    "unset SWWW_SOCKET SWWW_DAEMON_SOCKET SWWW_NAMESPACE; swww query --namespace '' >/dev/null 2>&1 || (swww-daemon --namespace '' --quiet >/dev/null 2>&1 & sleep 0.2); swww query --namespace '' >/dev/null 2>&1 || (swww-daemon --quiet >/dev/null 2>&1 & sleep 0.2); waypaper --restore"@
}

/// The command that makes sure that the daemon of the restoring program runs, where that program is
/// the usual one; the wallpaper need not be enabled for it.
pub fn ensure_waypaper_swww_daemon(wallpaper: &WallpaperConfig) -> (command: Option<&'static str>)
    ensures
        text::slice_view(command) == (if text::trimmed(wallpaper@.restore_command)
            == "waypaper --restore"@ {
            Some(daemon_check())
        } else {
            None
        }),
{
    let restore = trim(wallpaper.restore_command.as_str());
    if same_text(restore.as_str(), "waypaper --restore") {
        Some(
            "unset SWWW_SOCKET SWWW_DAEMON_SOCKET SWWW_NAMESPACE; swww query --namespace '' >/dev/null 2>&1 || (swww-daemon --namespace '' --quiet >/dev/null 2>&1 & sleep 0.2); swww query --namespace '' >/dev/null 2>&1 || (swww-daemon --quiet >/dev/null 2>&1 & sleep 0.2)",
        )
    } else {
        None
    }
}

/// What the settings ask for.
#[derive(Debug)]
pub enum WallpaperPlan {
    Nothing,
    /// Run this command.
    Restore(String),
    /// There is no picture to show.
    NoImage,
    /// Show this picture.
    Image(String),
}

/// A `WallpaperPlan` as plain values.
pub enum Plan {
    Nothing,
    Restore(Seq<char>),
    NoImage,
    Image(Seq<char>),
}

impl View for WallpaperPlan {
    type V = Plan;

    open spec fn view(&self) -> Plan {
        match *self {
            WallpaperPlan::Nothing => Plan::Nothing,
            WallpaperPlan::Restore(command) => Plan::Restore(command@),
            WallpaperPlan::NoImage => Plan::NoImage,
            WallpaperPlan::Image(path) => Plan::Image(path@),
        }
    }
}

/// What the settings ask for: the command that restores, where there is one, or else the picture.
pub open spec fn plan_of(wallpaper: Wallpaper) -> Plan {
    let restore = text::trimmed(wallpaper.restore_command);
    let image = text::trimmed(wallpaper.image);
    if !wallpaper.enabled {
        Plan::Nothing
    } else if restore.len() > 0 {
        if restore == "waypaper --restore"@ {
            Plan::Restore(daemon_check_and_restore())
        } else {
            Plan::Restore(restore)
        }
    } else if image.len() == 0 {
        Plan::NoImage
    } else {
        Plan::Image(image)
    }
}

/// What the settings ask for.
pub fn apply_wallpaper(wallpaper: &WallpaperConfig) -> (plan: WallpaperPlan)
    ensures
        plan@ == plan_of(wallpaper@),
{
    if !wallpaper.enabled {
        return WallpaperPlan::Nothing;
    }
    let restore = trim(wallpaper.restore_command.as_str());
    if !restore.as_str().is_empty() {
        if same_text(restore.as_str(), "waypaper --restore") {
            return WallpaperPlan::Restore(
                "unset SWWW_SOCKET SWWW_DAEMON_SOCKET SWWW_NAMESPACE; swww query --namespace '' >/dev/null 2>&1 || (swww-daemon --namespace '' --quiet >/dev/null 2>&1 & sleep 0.2); swww query --namespace '' >/dev/null 2>&1 || (swww-daemon --quiet >/dev/null 2>&1 & sleep 0.2); waypaper --restore".to_owned(),
            );
        }
        return WallpaperPlan::Restore(restore);
    }
    let image = trim(wallpaper.image.as_str());
    if image.as_str().is_empty() {
        WallpaperPlan::NoImage
    } else {
        WallpaperPlan::Image(image)
    }
}

/// The part of a path within the home directory, where the path begins with `~/` and there is one.
pub open spec fn within_home(path: Seq<char>, home: Option<Seq<char>>) -> Option<Seq<char>> {
    match home {
        Some(_) => text::without_prefix(path, "~/"@),
        None => None,
    }
}

/// The part of a path within the home directory, where the path begins with `~/` and there is one.
pub fn expand_home_path(raw_path: &str, home: Option<&str>) -> (rest: Option<String>)
    ensures
        text::text_view(rest) == within_home(raw_path@, text::slice_view(home)),
{
    if home.is_none() {
        return None;
    }
    strip_prefix(raw_path, "~/")
}

/// Whether showing a picture begins now.
#[derive(Clone, Copy, Debug, PartialEq, Eq, Structural)]
pub enum WallpaperStart {
    /// There is no such file.
    NotFound,
    /// Another picture is being shown just now.
    Busy,
    Begin,
}

/// Whether showing a picture begins now; while one does, no other may.
pub fn begin_wallpaper(image_exists: bool, inflight: &mut bool) -> (start: WallpaperStart)
    ensures
        start == (if !image_exists {
            WallpaperStart::NotFound
        } else if *old(inflight) {
            WallpaperStart::Busy
        } else {
            WallpaperStart::Begin
        }),
        *final(inflight) == (*old(inflight) || image_exists),
{
    if !image_exists {
        return WallpaperStart::NotFound;
    }
    if *inflight {
        return WallpaperStart::Busy;
    }
    *inflight = true;
    WallpaperStart::Begin
}

/// How often the daemon is started.
pub const DAEMON_STARTS: u32 = 4;

/// How often the daemon is asked after each start.
pub const DAEMON_POLLS: u32 = 20;

/// How often the picture is handed over.
pub const IMAGE_ATTEMPTS: u32 = 8;

/// A step of showing a picture.
#[derive(Clone, Copy, Debug, PartialEq, Eq, Structural)]
pub enum WallpaperStep {
    /// Ask whether the daemon runs, before the start with this number.
    Check(u32),
    /// Start the daemon, for the time with this number.
    StartDaemon(u32),
    /// Ask whether the daemon runs, after a start and so many times before.
    Poll(u32, u32),
    /// Ask whether the daemon runs, for the last time.
    LastCheck,
    /// Hand over the picture, for the time with this number.
    ShowImage(u32),
    /// The picture is shown, or never will be.
    Done,
}

impl WallpaperStep {
    /// Whether the numbers are within their bounds.
    pub open spec fn valid(self) -> bool {
        match self {
            WallpaperStep::Check(start) => 1 <= start <= DAEMON_STARTS,
            WallpaperStep::StartDaemon(start) => 1 <= start <= DAEMON_STARTS,
            WallpaperStep::Poll(start, polls) => 1 <= start <= DAEMON_STARTS && polls
                < DAEMON_POLLS,
            WallpaperStep::LastCheck => true,
            WallpaperStep::ShowImage(attempt) => 1 <= attempt <= IMAGE_ATTEMPTS,
            WallpaperStep::Done => true,
        }
    }

    /// The step after the daemon was asked for the last time after a start.
    pub open spec fn after_start(start: u32) -> WallpaperStep {
        if start < DAEMON_STARTS {
            WallpaperStep::Check((start + 1) as u32)
        } else {
            WallpaperStep::LastCheck
        }
    }

    /// The step after this one, which succeeded or not.
    pub open spec fn after(self, success: bool) -> WallpaperStep {
        match self {
            WallpaperStep::Check(start) => if success {
                WallpaperStep::LastCheck
            } else {
                WallpaperStep::StartDaemon(start)
            },
            WallpaperStep::StartDaemon(start) => WallpaperStep::Poll(start, 0),
            WallpaperStep::Poll(start, polls) => if success || polls + 1 >= DAEMON_POLLS {
                WallpaperStep::after_start(start)
            } else {
                WallpaperStep::Poll(start, (polls + 1) as u32)
            },
            WallpaperStep::LastCheck => if success {
                WallpaperStep::ShowImage(1)
            } else {
                WallpaperStep::Done
            },
            WallpaperStep::ShowImage(attempt) => if success || attempt >= IMAGE_ATTEMPTS {
                WallpaperStep::Done
            } else {
                WallpaperStep::ShowImage((attempt + 1) as u32)
            },
            WallpaperStep::Done => WallpaperStep::Done,
        }
    }

    /// How long to wait after this step, in milliseconds.
    pub open spec fn pause(self, success: bool) -> u64 {
        match self {
            WallpaperStep::StartDaemon(_) => if success {
                120
            } else {
                0
            },
            WallpaperStep::Poll(_, _) => if success {
                0
            } else {
                50
            },
            WallpaperStep::ShowImage(attempt) => if success || attempt >= IMAGE_ATTEMPTS {
                0
            } else {
                125
            },
            _ => 0,
        }
    }

    /// The first step.
    pub fn first() -> (step: WallpaperStep)
        ensures
            step == WallpaperStep::Check(1),
            step.valid(),
    {
        WallpaperStep::Check(1)
    }

    /// The step after this one, which succeeded or not, and how long to wait before it, in
    /// milliseconds.
    pub fn advance(self, success: bool) -> (next: (WallpaperStep, u64))
        requires
            self.valid(),
        ensures
            next.0 == self.after(success),
            next.1 == self.pause(success),
            next.0.valid(),
    {
        match self {
            WallpaperStep::Check(start) => if success {
                (WallpaperStep::LastCheck, 0)
            } else {
                (WallpaperStep::StartDaemon(start), 0)
            },
            WallpaperStep::StartDaemon(start) => if success {
                (WallpaperStep::Poll(start, 0), 120)
            } else {
                (WallpaperStep::Poll(start, 0), 0)
            },
            WallpaperStep::Poll(start, polls) => {
                let wait: u64 = if success {
                    0
                } else {
                    50
                };
                if success || polls + 1 >= DAEMON_POLLS {
                    if start < DAEMON_STARTS {
                        (WallpaperStep::Check(start + 1), wait)
                    } else {
                        (WallpaperStep::LastCheck, wait)
                    }
                } else {
                    (WallpaperStep::Poll(start, polls + 1), wait)
                }
            },
            WallpaperStep::LastCheck => if success {
                (WallpaperStep::ShowImage(1), 0)
            } else {
                (WallpaperStep::Done, 0)
            },
            WallpaperStep::ShowImage(attempt) => if success || attempt >= IMAGE_ATTEMPTS {
                (WallpaperStep::Done, 0)
            } else {
                (WallpaperStep::ShowImage(attempt + 1), 125)
            },
            WallpaperStep::Done => (WallpaperStep::Done, 0),
        }
    }

    /// How many steps there are left at most.
    pub open spec fn left(self) -> int {
        match self {
            WallpaperStep::Check(start) => (DAEMON_STARTS - start + 1) * (DAEMON_POLLS + 2)
                + IMAGE_ATTEMPTS + 1,
            WallpaperStep::StartDaemon(start) => (DAEMON_STARTS - start) * (DAEMON_POLLS + 2)
                + DAEMON_POLLS + 1 + IMAGE_ATTEMPTS + 1,
            WallpaperStep::Poll(start, polls) => (DAEMON_STARTS - start) * (DAEMON_POLLS + 2)
                + DAEMON_POLLS - polls + IMAGE_ATTEMPTS + 1,
            WallpaperStep::LastCheck => IMAGE_ATTEMPTS + 1,
            WallpaperStep::ShowImage(attempt) => IMAGE_ATTEMPTS + 1 - attempt,
            WallpaperStep::Done => 0,
        }
    }
}

/// Whatever comes of the steps, showing a picture comes to an end: each step leaves fewer.
pub proof fn wallpaper_comes_to_an_end(step: WallpaperStep, success: bool)
    requires
        step.valid(),
        step != WallpaperStep::Done,
    ensures
        step.after(success).valid(),
        0 <= step.after(success).left() < step.left(),
{
}

/// The picture is handed over only to a daemon that just answered.
pub proof fn picture_needs_daemon(step: WallpaperStep, success: bool)
    requires
        step.valid(),
        step.after(success) is ShowImage,
    ensures
        step is ShowImage || (step == WallpaperStep::LastCheck && success),
{
}

/// The command that asks whether the daemon runs.
pub fn swww_query() -> (command: CommandLine)
    ensures
        command@ == (Line {
            program: "swww"@,
            args: seq!["query"@, "--namespace"@, namespace()],
        }),
{
    let mut args = no_texts();
    push_text(&mut args, "query");
    push_text(&mut args, "--namespace");
    push_text(&mut args, "raven");
    assert(text::texts(args@) =~= seq!["query"@, "--namespace"@, namespace()]);
    CommandLine { program: "swww".to_owned(), args }
}

/// The command that starts the daemon.
pub fn swww_daemon() -> (command: CommandLine)
    ensures
        command@ == (Line {
            program: "swww-daemon"@,
            args: seq!["--namespace"@, namespace(), "--quiet"@],
        }),
{
    let mut args = no_texts();
    push_text(&mut args, "--namespace");
    push_text(&mut args, "raven");
    push_text(&mut args, "--quiet");
    assert(text::texts(args@) =~= seq!["--namespace"@, namespace(), "--quiet"@]);
    CommandLine { program: "swww-daemon".to_owned(), args }
}

/// The command that hands over a picture; `duration` is the time for the change, as it is written.
pub fn swww_img(wallpaper: &WallpaperConfig, image: &str, duration: &str) -> (command: CommandLine)
    ensures
        command@ == (Line {
            program: "swww"@,
            args: seq![
                "img"@,
                "--namespace"@,
                namespace(),
                image@,
                "--resize"@,
                wallpaper@.resize,
                "--transition-type"@,
                wallpaper@.transition_type,
                "--transition-duration"@,
                duration@,
            ],
        }),
{
    let mut args = no_texts();
    push_text(&mut args, "img");
    push_text(&mut args, "--namespace");
    push_text(&mut args, "raven");
    push_text(&mut args, image);
    push_text(&mut args, "--resize");
    push_text(&mut args, wallpaper.resize.as_str());
    push_text(&mut args, "--transition-type");
    push_text(&mut args, wallpaper.transition_type.as_str());
    push_text(&mut args, "--transition-duration");
    push_text(&mut args, duration);
    assert(text::texts(args@) =~= seq![
        "img"@,
        "--namespace"@,
        namespace(),
        image@,
        "--resize"@,
        wallpaper@.resize,
        "--transition-type"@,
        wallpaper@.transition_type,
        "--transition-duration"@,
        duration@,
    ]);
    CommandLine { program: "swww".to_owned(), args }
}

} // verus!
