//! The protocol between the client and the background daemon: where the
//! socket lives, the words that travel over it, and how the daemon reads them.
use vstd::prelude::*;
use vstd::utf8::{decode_utf8, valid_utf8};

use crate::text::{push_text, same_text, trim, trimmed};

verus! {

broadcast use vstd::string::group_string_axioms;

/// The file name of the daemon's socket in the runtime directory.
pub const SOCKET_NAME: &'static str = "hyprmwh.sock";

/// What the daemon is asked to do.
#[derive(Debug, Clone, Copy, PartialEq, Eq, Structural)]
pub enum DaemonCommand {
    ShowWindows,
    ShowApps,
    Reload,
}

/// The path of the socket: `<runtime dir>/hyprmwh.sock`, where the runtime
/// directory is `/tmp` when `XDG_RUNTIME_DIR` is not set.
pub open spec fn socket_path_of(runtime_dir: Option<Seq<char>>) -> Seq<char> {
    (match runtime_dir {
        Some(d) => d,
        None => "/tmp"@,
    }) + "/"@ + SOCKET_NAME@
}

/// The socket path, given the value of `XDG_RUNTIME_DIR` if it is set.
pub fn socket_path(runtime_dir: Option<&str>) -> (r: String)
    ensures
        r@ == socket_path_of(
            match runtime_dir {
                Some(d) => Some(d@),
                None => None,
            },
        ),
{
    let mut out = String::new();
    match runtime_dir {
        Some(d) => push_text(&mut out, d),
        None => push_text(&mut out, "/tmp"),
    }
    push_text(&mut out, "/");
    push_text(&mut out, SOCKET_NAME);
    out
}

/// The word that the client sends for each command.
pub open spec fn command_word(c: DaemonCommand) -> Seq<char> {
    match c {
        DaemonCommand::ShowWindows => "windows"@,
        DaemonCommand::ShowApps => "apps"@,
        DaemonCommand::Reload => "reload"@,
    }
}

/// The word that the client sends for `c`.
pub fn command_text(c: DaemonCommand) -> (r: &'static str)
    ensures
        r@ == command_word(c),
{
    match c {
        DaemonCommand::ShowWindows => "windows",
        DaemonCommand::ShowApps => "apps",
        DaemonCommand::Reload => "reload",
    }
}

/// The command that the daemon reads from a text: the trimmed text names it;
/// anything else asks for the window switcher.
pub open spec fn command_of_text(s: Seq<char>) -> DaemonCommand {
    let t = trimmed(s);
    if t == "windows"@ {
        DaemonCommand::ShowWindows
    } else if t == "apps"@ {
        DaemonCommand::ShowApps
    } else if t == "reload"@ {
        DaemonCommand::Reload
    } else {
        DaemonCommand::ShowWindows
    }
}

/// The command that the daemon reads from the bytes it received: they are
/// read as UTF-8 text, and bytes that are not UTF-8 count as the empty text.
pub open spec fn command_of_bytes(b: Seq<u8>) -> DaemonCommand {
    if valid_utf8(b) {
        command_of_text(decode_utf8(b))
    } else {
        command_of_text(Seq::empty())
    }
}

/// `std::str::from_utf8`: the text the bytes encode, when they are UTF-8.
#[verifier::external_body]
fn utf8_text(bytes: &[u8]) -> (r: Option<&str>)
    ensures
        r is Some <==> valid_utf8(bytes@),
        r matches Some(s) ==> s@ == decode_utf8(bytes@),
{
    std::str::from_utf8(bytes).ok()
}

/// The command named by a text.
pub fn command_from_text(s: &str) -> (r: DaemonCommand)
    ensures
        r == command_of_text(s@),
{
    let t = trim(s);
    if same_text(t.as_str(), "windows") {
        DaemonCommand::ShowWindows
    } else if same_text(t.as_str(), "apps") {
        DaemonCommand::ShowApps
    } else if same_text(t.as_str(), "reload") {
        DaemonCommand::Reload
    } else {
        DaemonCommand::ShowWindows
    }
}

/// The command in the bytes that the daemon read from a connection.
pub fn parse_command(bytes: &[u8]) -> (r: DaemonCommand)
    ensures
        r == command_of_bytes(bytes@),
{
    match utf8_text(bytes) {
        Some(s) => command_from_text(s),
        None => {
            let r = command_from_text("");
            proof {
                reveal_strlit("");
            }
            r
        },
    }
}

} // verus!
