use hyprmwh::data::{
    clean_exec, data_dirs, hyprctl_active_workspace_id, order_apps, parse_desktop_file,
    windows_from_clients, DesktopApp, HyprClient,
};

fn app(name: &str, command: &str) -> DesktopApp {
    DesktopApp { name: name.to_string(), command: command.to_string() }
}

fn client(class: &str, title: &str, ws: i64) -> HyprClient {
    HyprClient {
        address: format!("0x{}{}", class, ws),
        class: class.to_string(),
        title: title.to_string(),
        workspace_id: ws,
    }
}

#[test]
fn clean_exec_drops_field_codes() {
    assert_eq!(clean_exec("firefox %u"), "firefox");
    assert_eq!(clean_exec("  env  FOO=1   code --new-window %F "), "env FOO=1 code --new-window");
    assert_eq!(clean_exec("%U"), "");
    assert_eq!(clean_exec(""), "");
    assert_eq!(clean_exec("a\t%%b\nc"), "a c");
    let once = clean_exec(" x %f  y ");
    assert_eq!(clean_exec(&once), once);
}

#[test]
fn desktop_file_with_name_and_exec() {
    let content = "[Desktop Entry]\nType=Application\nName=Firefox\nName=Other\nExec=firefox %u\n";
    let a = parse_desktop_file(content).unwrap();
    assert_eq!(a.name, "Firefox");
    assert_eq!(a.command, "firefox");
}

#[test]
fn desktop_file_crlf_and_sections() {
    let content = "[Desktop Action new]\r\nName=New Window\r\nExec=ff --new\r\n[Desktop Entry]\r\nName=Files\r\nExec=nautilus %U\r\n[Other]\r\nName=Ignored";
    let a = parse_desktop_file(content).unwrap();
    assert_eq!(a.name, "Files");
    assert_eq!(a.command, "nautilus");
}

#[test]
fn desktop_file_hidden_or_incomplete() {
    assert!(parse_desktop_file("[Desktop Entry]\nName=A\nExec=a\nNoDisplay=true\n").is_none());
    assert!(parse_desktop_file("[Desktop Entry]\nType=Directory\nName=A\nExec=a\n").is_none());
    assert!(parse_desktop_file("[Desktop Entry]\nName=A\n").is_none());
    assert!(parse_desktop_file("Name=A\nExec=a\n").is_none());
    assert!(parse_desktop_file("").is_none());
    // outside the entry section the hiding keys do not count
    let a = parse_desktop_file("[Desktop Entry]\nName=A\nExec=a\n[X]\nNoDisplay=true\n").unwrap();
    assert_eq!(a.name, "A");
}

#[test]
fn apps_sorted_by_lowercase_name_and_deduplicated() {
    let apps = vec![app("zed", "z"), app("Alacritty", "a1"), app("alacritty", "a2"), app("Alacritty", "a3"), app("btop", "b"), app("Alacritty", "a4")];
    let r = order_apps(apps);
    let names: Vec<(&str, &str)> = r.iter().map(|a| (a.name.as_str(), a.command.as_str())).collect();
    // stable sort by lowercase name keeps a1, a2, a3, a4 in order; dedup drops equal neighbours
    assert_eq!(names, vec![("Alacritty", "a1"), ("alacritty", "a2"), ("Alacritty", "a3"), ("btop", "b"), ("zed", "z")]);
}

#[test]
fn apps_empty_list() {
    assert!(order_apps(Vec::new()).is_empty());
}

#[test]
fn windows_filtered_and_sorted_by_workspace() {
    let cs = vec![client("kitty", "shell", 3), client("hyprmwh", "switcher", 1), client("firefox", "", 1), client("code", "editor", -98), client("mpv", "video", 1), client("foot", "term", 3)];
    let r = windows_from_clients(cs);
    let got: Vec<(&str, i64)> = r.iter().map(|w| (w.class.as_str(), w.workspace_id)).collect();
    assert_eq!(got, vec![("code", -98), ("mpv", 1), ("kitty", 3), ("foot", 3)]);
    assert_eq!(r[2].address, "0xkitty3");
}

#[test]
fn data_dirs_default_and_split() {
    assert_eq!(data_dirs(None), vec!["/usr/share".to_string(), "/run/current-system/sw/share".to_string()]);
    assert_eq!(data_dirs(Some("/a::/b")), vec!["/a".to_string(), "".to_string(), "/b".to_string()]);
    assert_eq!(data_dirs(Some("")), vec!["".to_string()]);
}

#[test]
fn active_workspace_from_json() {
    let out = br#"{"id": 4, "name": "4", "monitor": "DP-1", "windows": 2}"#;
    assert_eq!(hyprctl_active_workspace_id(out), Some(4));
    assert_eq!(hyprctl_active_workspace_id(br#"{"id": -98}"#), Some(-98));
    assert_eq!(hyprctl_active_workspace_id(br#"{"name": "x"}"#), None);
    assert_eq!(hyprctl_active_workspace_id(b"not json"), None);
    assert_eq!(hyprctl_active_workspace_id(br#"{"id": "4"}"#), None);
}
