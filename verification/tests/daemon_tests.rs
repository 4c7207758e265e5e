use hyprmwh::daemon::{command_from_text, command_text, parse_command, socket_path, DaemonCommand, SOCKET_NAME};

#[test]
fn socket_in_runtime_dir() {
    assert_eq!(socket_path(Some("/run/user/1000")), "/run/user/1000/hyprmwh.sock");
    assert_eq!(socket_path(None), "/tmp/hyprmwh.sock");
    assert_eq!(SOCKET_NAME, "hyprmwh.sock");
}

#[test]
fn daemon_reads_the_words_the_client_sends() {
    for c in [DaemonCommand::ShowWindows, DaemonCommand::ShowApps, DaemonCommand::Reload] {
        assert_eq!(parse_command(command_text(c).as_bytes()), c);
    }
    assert_eq!(command_text(DaemonCommand::Reload), "reload");
}

#[test]
fn daemon_command_parsing() {
    assert_eq!(parse_command(b"apps\n"), DaemonCommand::ShowApps);
    assert_eq!(parse_command(b"  reload "), DaemonCommand::Reload);
    assert_eq!(parse_command(b""), DaemonCommand::ShowWindows);
    assert_eq!(parse_command(b"APPS"), DaemonCommand::ShowWindows);
    assert_eq!(parse_command(&[0xff, b'a', b'p', b'p', b's']), DaemonCommand::ShowWindows);
    assert_eq!(command_from_text("\u{3000}apps"), DaemonCommand::ShowApps);
}
