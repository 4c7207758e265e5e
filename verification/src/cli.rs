//! The command line: the options, and what the program does with them
//! (show the help, signal a running daemon, or run itself).
use vstd::prelude::*;

use crate::app::{RunMode, ViewMode};
use crate::daemon::DaemonCommand;
use crate::text::same_text;

verus! {

broadcast use vstd::string::group_string_axioms;

/// The options given on the command line.
pub struct Args {
    pub help: bool,
    pub daemon_mode: bool,
    pub show_windows: bool,
    pub show_apps: bool,
    pub reload: bool,
    pub config: Option<String>,
}

pub ghost struct ArgsView {
    pub help: bool,
    pub daemon_mode: bool,
    pub show_windows: bool,
    pub show_apps: bool,
    pub reload: bool,
    pub config: Option<Seq<char>>,
}

impl View for Args {
    type V = ArgsView;

    open spec fn view(&self) -> ArgsView {
        ArgsView {
            help: self.help,
            daemon_mode: self.daemon_mode,
            show_windows: self.show_windows,
            show_apps: self.show_apps,
            reload: self.reload,
            config: match self.config {
                Some(c) => Some(c@),
                None => None,
            },
        }
    }
}

/// Why the command line was refused.
#[derive(Debug)]
pub enum ArgError {
    /// `--config` (or `-c`) came last, without a path.
    MissingConfigPath,
    /// An argument that is not an option.
    UnknownArgument(String),
}

pub ghost enum ArgErrorView {
    MissingConfigPath,
    UnknownArgument(Seq<char>),
}

impl View for ArgError {
    type V = ArgErrorView;

    open spec fn view(&self) -> ArgErrorView {
        match self {
            ArgError::MissingConfigPath => ArgErrorView::MissingConfigPath,
            ArgError::UnknownArgument(a) => ArgErrorView::UnknownArgument(a@),
        }
    }
}

/// No option given.
pub open spec fn no_options() -> ArgsView {
    ArgsView {
        help: false,
        daemon_mode: false,
        show_windows: false,
        show_apps: false,
        reload: false,
        config: None,
    }
}

/// Reads the arguments from position `i` on into `acc`: each option sets its
/// flag; `--config`/`-c` takes the next argument as the path (the last one
/// given wins); the first argument that is not an option is refused.
pub open spec fn parse_from(argv: Seq<Seq<char>>, i: nat, acc: ArgsView) -> Result<
    ArgsView,
    ArgErrorView,
>
    decreases argv.len() - i,
{
    if i >= argv.len() {
        Ok(acc)
    } else {
        let a = argv[i as int];
        if a == "--help"@ || a == "-h"@ {
            parse_from(argv, i + 1, ArgsView { help: true, ..acc })
        } else if a == "--daemon"@ || a == "-d"@ {
            parse_from(argv, i + 1, ArgsView { daemon_mode: true, ..acc })
        } else if a == "--windows"@ || a == "-w"@ {
            parse_from(argv, i + 1, ArgsView { show_windows: true, ..acc })
        } else if a == "--apps"@ || a == "-a"@ {
            parse_from(argv, i + 1, ArgsView { show_apps: true, ..acc })
        } else if a == "--reload"@ || a == "-r"@ {
            parse_from(argv, i + 1, ArgsView { reload: true, ..acc })
        } else if a == "--config"@ || a == "-c"@ {
            if i + 1 < argv.len() {
                parse_from(argv, i + 2, ArgsView { config: Some(argv[(i + 1) as int]), ..acc })
            } else {
                Err(ArgErrorView::MissingConfigPath)
            }
        } else {
            Err(ArgErrorView::UnknownArgument(a))
        }
    }
}

pub open spec fn parsed_args(argv: Seq<Seq<char>>) -> Result<ArgsView, ArgErrorView> {
    parse_from(argv, 0, no_options())
}

pub open spec fn texts_of(v: Seq<String>) -> Seq<Seq<char>> {
    v.map_values(|s: String| s@)
}

fn is_option(a: &str, long: &str, short: &str) -> (r: bool)
    ensures
        r == (a@ == long@ || a@ == short@),
{
    same_text(a, long) || same_text(a, short)
}

/// Reads the program's arguments (without the program name).
pub fn parse_args(argv: &Vec<String>) -> (r: Result<Args, ArgError>)
    ensures
        match r {
            Ok(a) => parsed_args(texts_of(argv@)) == Ok::<ArgsView, ArgErrorView>(a@),
            Err(e) => parsed_args(texts_of(argv@)) == Err::<ArgsView, ArgErrorView>(e@),
        },
{
    let ghost av = texts_of(argv@);
    let mut args = Args {
        help: false,
        daemon_mode: false,
        show_windows: false,
        show_apps: false,
        reload: false,
        config: None,
    };
    let mut i: usize = 0;
    while i < argv.len()
        invariant
            i <= argv.len(),
            av == texts_of(argv@),
            parsed_args(av) == parse_from(av, i as nat, args@),
        decreases argv.len() - i,
    {
        let a = argv[i].as_str();
        assert(av[i as int] == a@);
        if is_option(a, "--help", "-h") {
            args.help = true;
        } else if is_option(a, "--daemon", "-d") {
            args.daemon_mode = true;
        } else if is_option(a, "--windows", "-w") {
            args.show_windows = true;
        } else if is_option(a, "--apps", "-a") {
            args.show_apps = true;
        } else if is_option(a, "--reload", "-r") {
            args.reload = true;
        } else if is_option(a, "--config", "-c") {
            i += 1;
            if i < argv.len() {
                assert(av[i as int] == argv@[i as int]@);
                args.config = Some(argv[i].as_str().to_owned());
            } else {
                return Err(ArgError::MissingConfigPath);
            }
        } else {
            return Err(ArgError::UnknownArgument(a.to_owned()));
        }
        i += 1;
    }
    Ok(args)
}

/// What the options ask for, before anything is looked up.
#[derive(Debug, Clone, Copy, PartialEq, Eq, Structural)]
pub enum LaunchPlan {
    /// Print the usage text.
    PrintHelp,
    /// Send `reload` to the daemon, which must be running.
    Reload,
    /// Send the command to a running daemon; without one, run once with the view.
    Signal(DaemonCommand, ViewMode),
    /// Run as the daemon, unless one is running already.
    StartDaemon,
    /// Run once with the default view.
    Standalone,
}

/// The plan for the options: help first, then reload, windows, apps, daemon.
pub open spec fn plan_of(a: ArgsView) -> LaunchPlan {
    if a.help {
        LaunchPlan::PrintHelp
    } else if a.reload {
        LaunchPlan::Reload
    } else if a.show_windows {
        LaunchPlan::Signal(DaemonCommand::ShowWindows, ViewMode::Windows)
    } else if a.show_apps {
        LaunchPlan::Signal(DaemonCommand::ShowApps, ViewMode::Apps)
    } else if a.daemon_mode {
        LaunchPlan::StartDaemon
    } else {
        LaunchPlan::Standalone
    }
}

pub fn launch_plan(args: &Args) -> (r: LaunchPlan)
    ensures
        r == plan_of(args@),
{
    if args.help {
        LaunchPlan::PrintHelp
    } else if args.reload {
        LaunchPlan::Reload
    } else if args.show_windows {
        LaunchPlan::Signal(DaemonCommand::ShowWindows, ViewMode::Windows)
    } else if args.show_apps {
        LaunchPlan::Signal(DaemonCommand::ShowApps, ViewMode::Apps)
    } else if args.daemon_mode {
        LaunchPlan::StartDaemon
    } else {
        LaunchPlan::Standalone
    }
}

/// Why the program stops with status 1.
#[derive(Debug, Clone, Copy, PartialEq, Eq, Structural)]
pub enum LaunchError {
    /// `--reload` found no daemon.
    NoDaemon,
    /// `--daemon` found one running.
    DaemonRunning,
}

/// What the program does once it knows whether a daemon answered.
#[derive(Debug, Clone, Copy, PartialEq, Eq, Structural)]
pub enum Launch {
    /// Nothing more to do.
    Done,
    /// Stop with an error.
    Fail(LaunchError),
    /// Send the command to the daemon and stop.
    Send(DaemonCommand),
    /// Run the switcher in this mode, with this view chosen (if any).
    Run { mode: RunMode, view: Option<ViewMode> },
}

/// The outcome of a plan, given whether the daemon's socket accepted a
/// connection (for `Reload`, whether `reload` could be sent).
pub open spec fn launch_of(plan: LaunchPlan, daemon_answered: bool) -> Launch {
    match plan {
        LaunchPlan::PrintHelp => Launch::Done,
        LaunchPlan::Reload => if daemon_answered {
            Launch::Done
        } else {
            Launch::Fail(LaunchError::NoDaemon)
        },
        LaunchPlan::Signal(c, v) => if daemon_answered {
            Launch::Send(c)
        } else {
            Launch::Run { mode: RunMode::Normal, view: Some(v) }
        },
        LaunchPlan::StartDaemon => if daemon_answered {
            Launch::Fail(LaunchError::DaemonRunning)
        } else {
            Launch::Run { mode: RunMode::Daemon, view: None }
        },
        LaunchPlan::Standalone => Launch::Run { mode: RunMode::Normal, view: None },
    }
}

pub fn resolve_launch(plan: LaunchPlan, daemon_answered: bool) -> (r: Launch)
    ensures
        r == launch_of(plan, daemon_answered),
{
    match plan {
        LaunchPlan::PrintHelp => Launch::Done,
        LaunchPlan::Reload => if daemon_answered {
            Launch::Done
        } else {
            Launch::Fail(LaunchError::NoDaemon)
        },
        LaunchPlan::Signal(c, v) => if daemon_answered {
            Launch::Send(c)
        } else {
            Launch::Run { mode: RunMode::Normal, view: Some(v) }
        },
        LaunchPlan::StartDaemon => if daemon_answered {
            Launch::Fail(LaunchError::DaemonRunning)
        } else {
            Launch::Run { mode: RunMode::Daemon, view: None }
        },
        LaunchPlan::Standalone => Launch::Run { mode: RunMode::Normal, view: None },
    }
}

/// Whether the surface takes the keyboard.
#[derive(Debug, Clone, Copy, PartialEq, Eq, Structural)]
pub enum Keyboard {
    Released,
    Exclusive,
}

/// The size and keyboard mode of the surfaces at start: a one-shot run opens
/// at the configured width and 500 pixels high with the keyboard; a daemon
/// starts at one pixel without it.
pub open spec fn surface_of(mode: RunMode, width: u32) -> (u32, u32, Keyboard) {
    match mode {
        RunMode::Normal => (width, 500, Keyboard::Exclusive),
        RunMode::Daemon => (1, 1, Keyboard::Released),
    }
}

pub fn initial_surface(mode: RunMode, width: u32) -> (r: (u32, u32, Keyboard))
    ensures
        r == surface_of(mode, width),
{
    match mode {
        RunMode::Normal => (width, 500, Keyboard::Exclusive),
        RunMode::Daemon => (1, 1, Keyboard::Released),
    }
}

} // verus!
