use hyprmwh::app::{update, App, Key, Message, Modifiers, NamedKey, RunMode, ViewMode};
use hyprmwh::data::{DesktopApp, WindowInfo};
use hyprmwh::render::{
    app_label, line_number, parse_hex_color, max_label_chars, number_width, row_texts, status_left, status_right,
    title_text, truncate, window_label, LineNumbers, StatusTone,
};

const NONE: Modifiers = Modifiers { shift: false, control: false, alt: false, logo: false };

#[test]
fn relative_line_numbers() {
    assert_eq!(line_number(LineNumbers::Relative, 3, 3, 2), " 4 ");
    assert_eq!(line_number(LineNumbers::Relative, 1, 3, 2), " 2 ");
    assert_eq!(line_number(LineNumbers::Relative, 5, 3, 1), "2 ");
    assert_eq!(line_number(LineNumbers::Absolute, 9, 0, 3), " 10 ");
    assert_eq!(line_number(LineNumbers::Absolute, 123, 0, 2), "124 ");
    assert_eq!(line_number(LineNumbers::Hidden, 4, 1, 2), "");
}

#[test]
fn rows_have_cursor_and_number() {
    let (num, text) = row_texts(LineNumbers::Relative, 2, 2, 1, "Firefox");
    assert_eq!(num, " 3 ");
    assert_eq!(text, "> Firefox");
    let (num, text) = row_texts(LineNumbers::Relative, 0, 2, 1, "Files");
    assert_eq!(num, " 2 ");
    assert_eq!(text, "  Files");
}

#[test]
fn widths_and_room() {
    assert_eq!(number_width(0), 1);
    assert_eq!(number_width(9), 1);
    assert_eq!(number_width(10), 2);
    assert_eq!(number_width(1000), 4);
    assert_eq!(max_label_chars(600), 62);
    assert_eq!(max_label_chars(99), 0);
    assert_eq!(max_label_chars(107), 0);
    assert_eq!(max_label_chars(108), 1);
}

#[test]
fn truncation_with_ellipsis() {
    assert_eq!(truncate("Firefox", 10), "Firefox");
    assert_eq!(truncate("Firefox", 7), "Firefox");
    assert_eq!(truncate("Firefox", 5), "Fire…");
    assert_eq!(truncate("Firefox", 1), "…");
    assert_eq!(truncate("Firefox", 0), "…");
    assert_eq!(truncate("", 0), "");
    assert_eq!(truncate("日本語テキスト", 4), "日本語…");
}

#[test]
fn labels_for_rows() {
    let w = WindowInfo { title: "shell".into(), class: "kitty".into(), address: "0x1".into(), workspace_id: 2 };
    assert_eq!(window_label(&w, 100), "[2] kitty | shell");
    assert_eq!(window_label(&w, 8), "[2] kit…");
    let s = WindowInfo { title: "scratch".into(), class: "foot".into(), address: "0x2".into(), workspace_id: -98 };
    assert_eq!(window_label(&s, 100), "[sp] foot | scratch");
    let a = DesktopApp { name: "Visual Studio Code".into(), command: "code".into() };
    assert_eq!(app_label(&a, 7), "Visual…");
}

#[test]
fn title_and_status_line() {
    assert_eq!(title_text(ViewMode::Apps, 12), "─── APP (12) ───");
    assert_eq!(title_text(ViewMode::Windows, 0), "─── WIN (0) ───");
    let apps = vec![
        DesktopApp { name: "A".into(), command: "a".into() },
        DesktopApp { name: "B".into(), command: "b".into() },
    ];
    let mut app = App::new_state(ViewMode::Apps, apps);
    update(&mut app, Message::ShowApps, RunMode::Daemon);
    update(&mut app, Message::Key { key: Key::Character("b".into()), modifiers: NONE }, RunMode::Daemon);
    let (left, tone) = status_left(&app);
    assert_eq!(left, "/b");
    assert_eq!(tone, StatusTone::ModeSearch);
    assert_eq!(status_right(&app), "1/1");
    update(&mut app, Message::Key { key: Key::Named(NamedKey::Escape), modifiers: NONE }, RunMode::Daemon);
    let (left, tone) = status_left(&app);
    assert_eq!(left, "-- APP --");
    assert_eq!(tone, StatusTone::ModeNormal);
    assert_eq!(status_right(&app), "1/2");
    update(&mut app, Message::Key { key: Key::Character(":".into()), modifiers: NONE }, RunMode::Daemon);
    update(&mut app, Message::Key { key: Key::Character("q".into()), modifiers: NONE }, RunMode::Daemon);
    let (left, tone) = status_left(&app);
    assert_eq!(left, ":q");
    assert_eq!(tone, StatusTone::ModeCommand);
    update(&mut app, Message::Key { key: Key::Named(NamedKey::Escape), modifiers: NONE }, RunMode::Daemon);
    update(&mut app, Message::Key { key: Key::Character("?".into()), modifiers: NONE }, RunMode::Daemon);
    assert_eq!(status_left(&app).0, "HELP");
    assert_eq!(status_right(&app), "? to toggle");
}

#[test]
fn empty_list_status() {
    let mut app = App::new_state(ViewMode::Windows, Vec::new());
    update(&mut app, Message::ShowWindows, RunMode::Daemon);
    app.windows_loaded(Vec::new());
    assert_eq!(status_right(&app), "0/0");
    app.vim_mode = hyprmwh::app::VimMode::MoveWindow;
    app.move_buf = "4".into();
    assert_eq!(status_left(&app).0, "move to ws: 4");
}

#[test]
fn hex_colours() {
    assert_eq!(parse_hex_color("#26262ECC"), Some((0x26, 0x26, 0x2e, 0xcc)));
    assert_eq!(parse_hex_color("#ffFFff"), Some((255, 255, 255, 255)));
    assert_eq!(parse_hex_color("#80CC80FF"), Some((0x80, 0xcc, 0x80, 0xff)));
    assert_eq!(parse_hex_color("26262E"), None);
    assert_eq!(parse_hex_color("#26262"), None);
    assert_eq!(parse_hex_color("#26262G"), None);
    assert_eq!(parse_hex_color(""), None);
}
