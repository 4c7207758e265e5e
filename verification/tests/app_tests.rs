use hyprmwh::app::{
    command_message, default_view, move_here_dispatches, namespace, run_mode, startup_message,
    update, App, Effect, Key, Message, Modifiers, NamedKey, RunMode, ViewMode, VimMode,
    HELP_HEIGHT, WINDOW_HEIGHT,
};
use hyprmwh::daemon::DaemonCommand;
use hyprmwh::data::{DesktopApp, WindowInfo};

const NONE: Modifiers = Modifiers { shift: false, control: false, alt: false, logo: false };
const SHIFT: Modifiers = Modifiers { shift: true, control: false, alt: false, logo: false };
const CTRL: Modifiers = Modifiers { shift: false, control: true, alt: false, logo: false };

fn apps() -> Vec<DesktopApp> {
    ["Firefox", "Files", "Kitty", "btop", "Code"]
        .iter()
        .map(|n| DesktopApp { name: n.to_string(), command: format!("{}-bin", n.to_lowercase()) })
        .collect()
}

fn windows() -> Vec<WindowInfo> {
    vec![
        WindowInfo { title: "Mozilla Firefox".into(), class: "firefox".into(), address: "0xa".into(), workspace_id: 1 },
        WindowInfo { title: "shell".into(), class: "kitty".into(), address: "0xb".into(), workspace_id: 2 },
        WindowInfo { title: "notes".into(), class: "obsidian".into(), address: "0xc".into(), workspace_id: -98 },
    ]
}

fn ch(s: &str) -> Message {
    Message::Key { key: Key::Character(s.to_string()), modifiers: NONE }
}

fn ch_with(s: &str, m: Modifiers) -> Message {
    Message::Key { key: Key::Character(s.to_string()), modifiers: m }
}

fn named(k: NamedKey) -> Message {
    Message::Key { key: Key::Named(k), modifiers: NONE }
}

fn named_with(k: NamedKey, m: Modifiers) -> Message {
    Message::Key { key: Key::Named(k), modifiers: m }
}

fn run(app: &mut App, msg: Message, mode: RunMode) -> Vec<Effect> {
    assert!(app.can_handle(&msg));
    let effects = update(app, msg, mode);
    for e in &effects {
        if let Effect::RefreshWindows = e {
            app.windows_loaded(windows());
        }
    }
    effects
}

fn shown_apps() -> App {
    let mut app = App::new_state(ViewMode::Apps, apps());
    let e = run(&mut app, Message::ShowApps, RunMode::Daemon);
    assert!(matches!(e.as_slice(), [Effect::ShowSurfaces]));
    app
}

fn shown_windows() -> App {
    let mut app = App::new_state(ViewMode::Windows, apps());
    let e = run(&mut app, Message::ShowWindows, RunMode::Daemon);
    assert!(matches!(e.as_slice(), [Effect::RefreshWindows, Effect::ShowSurfaces]));
    app
}

#[test]
fn start_up_defaults() {
    assert_eq!(run_mode(None), RunMode::Normal);
    assert_eq!(run_mode(Some(RunMode::Daemon)), RunMode::Daemon);
    assert_eq!(default_view(None), ViewMode::Apps);
    assert_eq!(default_view(Some(ViewMode::Windows)), ViewMode::Windows);
    assert_eq!(namespace(), "hyprmwh");
    assert!(startup_message(RunMode::Daemon, ViewMode::Apps).is_none());
    assert!(matches!(startup_message(RunMode::Normal, ViewMode::Windows), Some(Message::ShowWindows)));
    assert!(matches!(startup_message(RunMode::Normal, ViewMode::Apps), Some(Message::ShowApps)));
    assert!(matches!(command_message(DaemonCommand::Reload), Message::Reload));
    assert!(matches!(command_message(DaemonCommand::ShowApps), Message::ShowApps));
}

#[test]
fn new_state_lists_every_app() {
    let app = App::new_state(ViewMode::Windows, apps());
    assert!(!app.visible);
    assert_eq!(app.view_mode, ViewMode::Windows);
    assert_eq!(app.app_filtered, vec![0, 1, 2, 3, 4]);
    assert!(app.win_filtered.is_empty());
    assert_eq!(app.items_len(), 0);
}

#[test]
fn show_apps_starts_searching() {
    let app = shown_apps();
    assert!(app.visible);
    assert_eq!(app.vim_mode, VimMode::Search);
    assert_eq!(app.items_len(), 5);
}

#[test]
fn typing_filters_case_insensitively() {
    let mut app = shown_apps();
    run(&mut app, ch("F"), RunMode::Daemon);
    assert_eq!(app.query, "F");
    assert_eq!(app.app_filtered, vec![0, 1]);
    run(&mut app, ch("I"), RunMode::Daemon);
    assert_eq!(app.app_filtered, vec![0, 1]);
    run(&mut app, ch("r"), RunMode::Daemon);
    assert_eq!(app.app_filtered, vec![0]);
    run(&mut app, named(NamedKey::Backspace), RunMode::Daemon);
    assert_eq!(app.query, "FI");
    assert_eq!(app.app_filtered, vec![0, 1]);
    // control-modified characters are not typed
    run(&mut app, ch_with("x", CTRL), RunMode::Daemon);
    assert_eq!(app.query, "FI");
    run(&mut app, named(NamedKey::Enter), RunMode::Daemon);
    assert_eq!(app.vim_mode, VimMode::Normal);
    assert_eq!(app.query, "FI");
}

#[test]
fn escape_twice_closes_daemon() {
    let mut app = shown_apps();
    run(&mut app, ch("k"), RunMode::Daemon);
    let e = run(&mut app, named(NamedKey::Escape), RunMode::Daemon);
    assert!(e.is_empty());
    assert_eq!(app.vim_mode, VimMode::Normal);
    assert_eq!(app.query, "");
    assert_eq!(app.items_len(), 5);
    let e = run(&mut app, named(NamedKey::Escape), RunMode::Daemon);
    assert!(matches!(e.as_slice(), [Effect::HideSurfaces]));
    assert!(!app.visible);
}

#[test]
fn q_exits_one_shot_run() {
    let mut app = shown_apps();
    run(&mut app, named(NamedKey::Escape), RunMode::Normal);
    let e = run(&mut app, ch("q"), RunMode::Normal);
    assert!(matches!(e.as_slice(), [Effect::Exit]));
}

#[test]
fn count_prefix_moves_and_clamps() {
    let mut app = shown_apps();
    run(&mut app, named(NamedKey::Enter), RunMode::Daemon);
    run(&mut app, ch("2"), RunMode::Daemon);
    assert_eq!(app.count_buf, "2");
    let e = run(&mut app, ch("j"), RunMode::Daemon);
    assert_eq!(app.selected, 2);
    assert_eq!(app.count_buf, "");
    assert!(matches!(e.as_slice(), [Effect::ScrollTo { index: 2, count: 5 }]));
    run(&mut app, ch("1"), RunMode::Daemon);
    run(&mut app, ch("0"), RunMode::Daemon);
    run(&mut app, ch("j"), RunMode::Daemon);
    assert_eq!(app.selected, 4);
    run(&mut app, ch("k"), RunMode::Daemon);
    assert_eq!(app.selected, 3);
    run(&mut app, ch("9"), RunMode::Daemon);
    run(&mut app, ch("k"), RunMode::Daemon);
    assert_eq!(app.selected, 0);
    // a leading zero is not a count
    run(&mut app, ch("0"), RunMode::Daemon);
    assert_eq!(app.count_buf, "");
    run(&mut app, ch("G"), RunMode::Daemon);
    assert_eq!(app.selected, 4);
    run(&mut app, ch("g"), RunMode::Daemon);
    assert_eq!(app.selected, 0);
    run(&mut app, ch_with("g", SHIFT), RunMode::Daemon);
    assert_eq!(app.selected, 4);
    // other keys clear a pending count
    run(&mut app, ch("3"), RunMode::Daemon);
    run(&mut app, ch("x"), RunMode::Daemon);
    assert_eq!(app.count_buf, "");
}

#[test]
fn enter_launches_selected_app_and_closes() {
    let mut app = shown_apps();
    run(&mut app, named(NamedKey::Enter), RunMode::Daemon);
    run(&mut app, ch("j"), RunMode::Daemon);
    let e = run(&mut app, named(NamedKey::Enter), RunMode::Normal);
    match e.as_slice() {
        [Effect::Launch(c), Effect::Exit] => assert_eq!(c, "files-bin"),
        other => panic!("unexpected effects {:?}", other),
    }
    assert!(!app.visible);
}

#[test]
fn tab_switches_views_without_closing() {
    let mut app = shown_apps();
    run(&mut app, named(NamedKey::Escape), RunMode::Daemon);
    let e = run(&mut app, named(NamedKey::Tab), RunMode::Daemon);
    assert!(matches!(e.as_slice(), [Effect::RefreshWindows]));
    assert!(app.visible);
    assert_eq!(app.view_mode, ViewMode::Windows);
    assert_eq!(app.win_filtered, vec![0, 1, 2]);
    let e = run(&mut app, named(NamedKey::Tab), RunMode::Daemon);
    assert!(e.is_empty());
    assert_eq!(app.view_mode, ViewMode::Apps);
    assert_eq!(app.vim_mode, VimMode::Search);
}

#[test]
fn enter_on_window_goes_to_workspace() {
    let mut app = shown_windows();
    run(&mut app, ch("j"), RunMode::Daemon);
    let e = run(&mut app, named(NamedKey::Enter), RunMode::Daemon);
    match e.as_slice() {
        [Effect::Dispatch(a), Effect::Dispatch(b), Effect::HideSurfaces] => {
            assert_eq!(a, &vec!["workspace".to_string(), "2".to_string()]);
            assert_eq!(b, &vec!["focuswindow".to_string(), "address:0xb".to_string()]);
        }
        other => panic!("unexpected effects {:?}", other),
    }
}

#[test]
fn shift_enter_moves_window_here() {
    let mut app = shown_windows();
    run(&mut app, ch("G"), RunMode::Daemon);
    let e = run(&mut app, named_with(NamedKey::Enter, SHIFT), RunMode::Daemon);
    match e.as_slice() {
        [Effect::MoveWindowHere(a), Effect::HideSurfaces] => assert_eq!(a, "0xc"),
        other => panic!("unexpected effects {:?}", other),
    }
    let d = move_here_dispatches(Some(5), "0xc");
    assert_eq!(d, vec![
        vec!["movetoworkspace".to_string(), "5,address:0xc".to_string()],
        vec!["focuswindow".to_string(), "address:0xc".to_string()],
    ]);
    assert!(move_here_dispatches(None, "0xc").is_empty());
}

#[test]
fn move_window_to_typed_workspace() {
    let mut app = shown_windows();
    run(&mut app, ch("t"), RunMode::Daemon);
    assert_eq!(app.vim_mode, VimMode::MoveWindow);
    run(&mut app, ch("1"), RunMode::Daemon);
    run(&mut app, ch("x"), RunMode::Daemon);
    run(&mut app, ch("2"), RunMode::Daemon);
    assert_eq!(app.move_buf, "12");
    let e = run(&mut app, named(NamedKey::Enter), RunMode::Daemon);
    match e.as_slice() {
        [Effect::Dispatch(a), Effect::RefreshWindows] => {
            assert_eq!(a, &vec!["movetoworkspace".to_string(), "12,address:0xa".to_string()]);
        }
        other => panic!("unexpected effects {:?}", other),
    }
    assert_eq!(app.vim_mode, VimMode::Normal);
    assert_eq!(app.move_buf, "");
    // backspace on the last digit leaves the mode
    run(&mut app, ch("t"), RunMode::Daemon);
    run(&mut app, ch("3"), RunMode::Daemon);
    run(&mut app, named(NamedKey::Backspace), RunMode::Daemon);
    assert_eq!(app.vim_mode, VimMode::Normal);
}

#[test]
fn t_is_ignored_in_app_view() {
    let mut app = shown_apps();
    run(&mut app, named(NamedKey::Escape), RunMode::Daemon);
    run(&mut app, ch("t"), RunMode::Daemon);
    assert_eq!(app.vim_mode, VimMode::Normal);
}

#[test]
fn command_mode_quit_and_help() {
    let mut app = shown_windows();
    run(&mut app, ch(":"), RunMode::Daemon);
    assert_eq!(app.vim_mode, VimMode::Command);
    run(&mut app, ch("h"), RunMode::Daemon);
    run(&mut app, ch("e"), RunMode::Daemon);
    run(&mut app, ch("l"), RunMode::Daemon);
    run(&mut app, ch("p"), RunMode::Daemon);
    let e = run(&mut app, named(NamedKey::Enter), RunMode::Daemon);
    assert!(matches!(e.as_slice(), [Effect::Resize(h)] if *h == HELP_HEIGHT));
    assert!(app.show_help);
    // any key dismisses the help screen
    let e = run(&mut app, ch("j"), RunMode::Daemon);
    assert!(matches!(e.as_slice(), [Effect::Resize(h)] if *h == WINDOW_HEIGHT));
    assert!(!app.show_help);
    assert_eq!(app.selected, 0);
    run(&mut app, ch_with(";", SHIFT), RunMode::Daemon);
    run(&mut app, ch("w"), RunMode::Daemon);
    run(&mut app, ch("q"), RunMode::Daemon);
    let e = run(&mut app, named(NamedKey::Enter), RunMode::Normal);
    assert!(matches!(e.as_slice(), [Effect::Exit]));
}

#[test]
fn command_backspace_and_unknown() {
    let mut app = shown_windows();
    run(&mut app, ch(":"), RunMode::Daemon);
    run(&mut app, ch("x"), RunMode::Daemon);
    run(&mut app, named(NamedKey::Backspace), RunMode::Daemon);
    assert_eq!(app.vim_mode, VimMode::Normal);
    run(&mut app, ch(":"), RunMode::Daemon);
    run(&mut app, ch("zz"), RunMode::Daemon);
    let e = run(&mut app, named(NamedKey::Enter), RunMode::Daemon);
    assert!(e.is_empty());
    assert_eq!(app.vim_mode, VimMode::Normal);
    assert_eq!(app.cmd, "");
}

#[test]
fn question_mark_shows_help() {
    let mut app = shown_windows();
    let e = run(&mut app, ch("?"), RunMode::Daemon);
    assert!(matches!(e.as_slice(), [Effect::Resize(620)]));
    assert!(app.show_help);
}

#[test]
fn hidden_switcher_ignores_keys_and_reload_keeps_rows() {
    let mut app = App::new_state(ViewMode::Apps, apps());
    let e = run(&mut app, ch("q"), RunMode::Daemon);
    assert!(e.is_empty());
    assert!(!app.visible);
    let e = run(&mut app, Message::Reload, RunMode::Daemon);
    assert!(matches!(e.as_slice(), [Effect::ReloadAll]));
    app.apps_loaded(vec![DesktopApp { name: "Solo".into(), command: "solo".into() }]);
    assert_eq!(app.all_apps.len(), 1);
    assert_eq!(app.app_filtered.len(), 5);
    let e = run(&mut app, Message::OtherEvent, RunMode::Daemon);
    assert!(e.is_empty());
}

#[test]
fn space_and_slash_start_a_new_search() {
    let mut app = shown_windows();
    run(&mut app, named(NamedKey::Space), RunMode::Daemon);
    assert_eq!(app.vim_mode, VimMode::Search);
    run(&mut app, ch("KIT"), RunMode::Daemon);
    assert_eq!(app.win_filtered, vec![1]);
    run(&mut app, named(NamedKey::Enter), RunMode::Daemon);
    run(&mut app, ch("/"), RunMode::Daemon);
    assert_eq!(app.query, "");
    assert_eq!(app.win_filtered, vec![0, 1, 2]);
}

#[test]
fn window_search_matches_title_or_class() {
    let mut app = shown_windows();
    run(&mut app, ch("/"), RunMode::Daemon);
    run(&mut app, ch("NOTES"), RunMode::Daemon);
    assert_eq!(app.win_filtered, vec![2]);
    run(&mut app, named(NamedKey::Escape), RunMode::Daemon);
    run(&mut app, ch("/"), RunMode::Daemon);
    run(&mut app, ch("obsid"), RunMode::Daemon);
    assert_eq!(app.win_filtered, vec![2]);
}

#[test]
fn selection_clamped_when_list_shrinks() {
    let mut app = shown_apps();
    run(&mut app, named(NamedKey::Enter), RunMode::Daemon);
    run(&mut app, ch("G"), RunMode::Daemon);
    assert_eq!(app.selected, 4);
    run(&mut app, ch("/"), RunMode::Daemon);
    run(&mut app, ch("zzz"), RunMode::Daemon);
    assert_eq!(app.items_len(), 0);
    assert_eq!(app.selected, 0);
}

#[test]
fn huge_count_moves_to_last_row() {
    let mut app = shown_apps();
    run(&mut app, named(NamedKey::Enter), RunMode::Daemon);
    run(&mut app, ch("j"), RunMode::Daemon);
    app.count_buf = usize::MAX.to_string();
    assert!(app.can_handle(&ch("j")));
    run(&mut app, ch("j"), RunMode::Daemon);
    assert_eq!(app.selected, 4);
    assert_eq!(app.count_buf, "");
}

#[test]
fn empty_query_lists_everything_again() {
    let mut app = shown_apps();
    run(&mut app, ch("btop"), RunMode::Daemon);
    assert_eq!(app.app_filtered, vec![3]);
    run(&mut app, named(NamedKey::Backspace), RunMode::Daemon);
    run(&mut app, named(NamedKey::Backspace), RunMode::Daemon);
    run(&mut app, named(NamedKey::Backspace), RunMode::Daemon);
    run(&mut app, named(NamedKey::Backspace), RunMode::Daemon);
    assert_eq!(app.query, "");
    assert_eq!(app.app_filtered, vec![0, 1, 2, 3, 4]);
}
