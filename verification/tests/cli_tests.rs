use hyprmwh::app::{RunMode, ViewMode};
use hyprmwh::cli::{
    initial_surface, launch_plan, parse_args, resolve_launch, ArgError, Keyboard, Launch,
    LaunchError, LaunchPlan,
};
use hyprmwh::daemon::DaemonCommand;

fn argv(v: &[&str]) -> Vec<String> {
    v.iter().map(|s| s.to_string()).collect()
}

#[test]
fn options_set_their_flags() {
    let a = parse_args(&argv(&["-w", "--apps", "-d", "--reload", "-h"])).unwrap();
    assert!(a.show_windows && a.show_apps && a.daemon_mode && a.reload && a.help);
    assert!(a.config.is_none());
    let a = parse_args(&argv(&[])).unwrap();
    assert!(!a.show_windows && !a.show_apps && !a.daemon_mode && !a.reload && !a.help);
}

#[test]
fn config_takes_a_path() {
    let a = parse_args(&argv(&["--config", "/tmp/a.toml", "-c", "/tmp/b.toml", "-a"])).unwrap();
    assert_eq!(a.config.as_deref(), Some("/tmp/b.toml"));
    assert!(a.show_apps);
    assert!(matches!(parse_args(&argv(&["-w", "--config"])), Err(ArgError::MissingConfigPath)));
}

#[test]
fn unknown_argument_refused() {
    match parse_args(&argv(&["-w", "--verbose", "--config"])) {
        Err(ArgError::UnknownArgument(a)) => assert_eq!(a, "--verbose"),
        other => panic!("unexpected {:?}", other.err()),
    }
}

#[test]
fn launch_plans() {
    let plan = |v: &[&str]| launch_plan(&parse_args(&argv(v)).unwrap());
    assert_eq!(plan(&["-h", "-w"]), LaunchPlan::PrintHelp);
    assert_eq!(plan(&["-r", "-w"]), LaunchPlan::Reload);
    assert_eq!(plan(&["-w", "-a"]), LaunchPlan::Signal(DaemonCommand::ShowWindows, ViewMode::Windows));
    assert_eq!(plan(&["-a", "-d"]), LaunchPlan::Signal(DaemonCommand::ShowApps, ViewMode::Apps));
    assert_eq!(plan(&["-d"]), LaunchPlan::StartDaemon);
    assert_eq!(plan(&[]), LaunchPlan::Standalone);
}

#[test]
fn launch_outcomes() {
    assert_eq!(resolve_launch(LaunchPlan::Reload, false), Launch::Fail(LaunchError::NoDaemon));
    assert_eq!(resolve_launch(LaunchPlan::Reload, true), Launch::Done);
    let sig = LaunchPlan::Signal(DaemonCommand::ShowWindows, ViewMode::Windows);
    assert_eq!(resolve_launch(sig, true), Launch::Send(DaemonCommand::ShowWindows));
    assert_eq!(resolve_launch(sig, false), Launch::Run { mode: RunMode::Normal, view: Some(ViewMode::Windows) });
    assert_eq!(resolve_launch(LaunchPlan::StartDaemon, true), Launch::Fail(LaunchError::DaemonRunning));
    assert_eq!(resolve_launch(LaunchPlan::StartDaemon, false), Launch::Run { mode: RunMode::Daemon, view: None });
    assert_eq!(resolve_launch(LaunchPlan::Standalone, true), Launch::Run { mode: RunMode::Normal, view: None });
    assert_eq!(resolve_launch(LaunchPlan::PrintHelp, false), Launch::Done);
}

#[test]
fn initial_surfaces() {
    assert_eq!(initial_surface(RunMode::Normal, 600), (600, 500, Keyboard::Exclusive));
    assert_eq!(initial_surface(RunMode::Daemon, 600), (1, 1, Keyboard::Released));
}
