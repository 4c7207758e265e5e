//! The switcher's state and the vim-style key handling that drives it.
//!
//! `update` takes the state and a message to the next state and to the list
//! of effects that the surrounding program carries out (showing or hiding the
//! surfaces, running `hyprctl`, launching an app, reloading data).
use vstd::prelude::*;

use crate::daemon::DaemonCommand;
use crate::data::{DesktopApp, WindowInfo};
use crate::text::{
    all_digits, chars_of, contains_chars, contains_seq, i64_text, is_digit, lowercase,
    parse_i64, parse_usize, parsed_i64, parsed_usize, pop_char, push_char, push_text,
    same_text, signed_decimal, to_lower, trim, trimmed,
};

verus! {

broadcast use vstd::string::group_string_axioms;

// ───────────────────────────── modes ─────────────────────────────

/// Whether the program runs once (and exits on close) or as a daemon.
#[derive(Debug, Clone, Copy, PartialEq, Eq, Structural)]
pub enum RunMode {
    Normal,
    Daemon,
}

/// Which list is shown.
#[derive(Debug, Clone, Copy, PartialEq, Eq, Structural)]
pub enum ViewMode {
    Windows,
    Apps,
}

/// What keys currently do.
#[derive(Debug, Clone, Copy, PartialEq, Eq, Structural)]
pub enum VimMode {
    Normal,
    Search,
    Command,
    MoveWindow,
}

/// The run mode that was set at start-up, `Normal` when none was.
pub fn run_mode(stored: Option<RunMode>) -> (m: RunMode)
    ensures
        m == (match stored {
            Some(m) => m,
            None => RunMode::Normal,
        }),
{
    match stored {
        Some(m) => m,
        None => RunMode::Normal,
    }
}

/// The view that was chosen at start-up, the app list when none was.
pub fn default_view(stored: Option<ViewMode>) -> (v: ViewMode)
    ensures
        v == (match stored {
            Some(v) => v,
            None => ViewMode::Apps,
        }),
{
    match stored {
        Some(v) => v,
        None => ViewMode::Apps,
    }
}

/// The layer-shell namespace of the program's surfaces.
pub fn namespace() -> (r: String)
    ensures
        r@ == "hyprmwh"@,
{
    "hyprmwh".to_owned()
}

/// Height of the surfaces while the list is shown.
pub const WINDOW_HEIGHT: u32 = 500;

/// Height of the surfaces while the help screen is shown.
pub const HELP_HEIGHT: u32 = 620;

// ───────────────────────────── input ─────────────────────────────

/// The named keys that the switcher tells apart.
#[derive(Debug, Clone, Copy, PartialEq, Eq, Structural)]
pub enum NamedKey {
    Escape,
    Enter,
    Backspace,
    Tab,
    Space,
    Other,
}

/// A key press.
#[derive(Debug)]
pub enum Key {
    Named(NamedKey),
    Character(String),
    Unidentified,
}

pub ghost enum KeyView {
    Named(NamedKey),
    Character(Seq<char>),
    Unidentified,
}

impl View for Key {
    type V = KeyView;

    open spec fn view(&self) -> KeyView {
        match self {
            Key::Named(n) => KeyView::Named(*n),
            Key::Character(c) => KeyView::Character(c@),
            Key::Unidentified => KeyView::Unidentified,
        }
    }
}

/// The modifier keys held during a key press.
#[derive(Debug, Clone, Copy, PartialEq, Eq, Structural)]
pub struct Modifiers {
    pub shift: bool,
    pub control: bool,
    pub alt: bool,
    pub logo: bool,
}

impl Modifiers {
    /// No modifier is held.
    pub open spec fn none(self) -> bool {
        !self.shift && !self.control && !self.alt && !self.logo
    }

    pub fn is_empty(&self) -> (r: bool)
        ensures
            r == self.none(),
    {
        !self.shift && !self.control && !self.alt && !self.logo
    }
}

/// What the switcher reacts to.
#[derive(Debug)]
pub enum Message {
    Key { key: Key, modifiers: Modifiers },
    OtherEvent,
    Close,
    Reload,
    ShowApps,
    ShowWindows,
}

pub ghost enum MessageView {
    Key { key: KeyView, modifiers: Modifiers },
    OtherEvent,
    Close,
    Reload,
    ShowApps,
    ShowWindows,
}

impl View for Message {
    type V = MessageView;

    open spec fn view(&self) -> MessageView {
        match self {
            Message::Key { key, modifiers } => MessageView::Key { key: key@, modifiers: *modifiers },
            Message::OtherEvent => MessageView::OtherEvent,
            Message::Close => MessageView::Close,
            Message::Reload => MessageView::Reload,
            Message::ShowApps => MessageView::ShowApps,
            Message::ShowWindows => MessageView::ShowWindows,
        }
    }
}

// ───────────────────────────── effects ─────────────────────────────

/// Work that the surrounding program does after a step.
#[derive(Debug)]
pub enum Effect {
    /// Size, place and focus every surface for the list.
    ShowSurfaces,
    /// Shrink every surface to one pixel and release the keyboard.
    HideSurfaces,
    /// End the process with status 0.
    Exit,
    /// Set the height of every surface.
    Resize(u32),
    /// Scroll the list so that row `index` of `count` is in view.
    ScrollTo { index: usize, count: usize },
    /// Run `hyprctl dispatch` with these arguments.
    Dispatch(Vec<String>),
    /// Launch this command line through `sh -c`.
    Launch(String),
    /// Read the window list again and hand it to `App::windows_loaded`.
    RefreshWindows,
    /// Move the window with this address to the active workspace and focus
    /// it (see `move_here_dispatches`).
    MoveWindowHere(String),
    /// Reload the configuration and the app list (see `App::apps_loaded`).
    ReloadAll,
}

pub ghost enum EffectView {
    ShowSurfaces,
    HideSurfaces,
    Exit,
    Resize(u32),
    ScrollTo { index: usize, count: usize },
    Dispatch(Seq<Seq<char>>),
    Launch(Seq<char>),
    RefreshWindows,
    MoveWindowHere(Seq<char>),
    ReloadAll,
}

pub open spec fn texts_view(v: Seq<String>) -> Seq<Seq<char>> {
    v.map_values(|s: String| s@)
}

impl View for Effect {
    type V = EffectView;

    open spec fn view(&self) -> EffectView {
        match self {
            Effect::ShowSurfaces => EffectView::ShowSurfaces,
            Effect::HideSurfaces => EffectView::HideSurfaces,
            Effect::Exit => EffectView::Exit,
            Effect::Resize(h) => EffectView::Resize(*h),
            Effect::ScrollTo { index, count } => EffectView::ScrollTo {
                index: *index,
                count: *count,
            },
            Effect::Dispatch(args) => EffectView::Dispatch(texts_view(args@)),
            Effect::Launch(c) => EffectView::Launch(c@),
            Effect::RefreshWindows => EffectView::RefreshWindows,
            Effect::MoveWindowHere(a) => EffectView::MoveWindowHere(a@),
            Effect::ReloadAll => EffectView::ReloadAll,
        }
    }
}

pub open spec fn effects_view(v: Seq<Effect>) -> Seq<EffectView> {
    v.map_values(|e: Effect| e@)
}

fn push_effect(v: &mut Vec<Effect>, e: Effect)
    ensures
        effects_view(final(v)@) == effects_view(old(v)@).push(e@),
{
    let ghost ev = e@;
    v.push(e);
    assert(effects_view(v@) =~= effects_view(old(v)@).push(ev));
}

fn no_effects() -> (r: Vec<Effect>)
    ensures
        effects_view(r@) == Seq::<EffectView>::empty(),
{
    let r: Vec<Effect> = Vec::new();
    assert(effects_view(r@) =~= Seq::<EffectView>::empty());
    r
}

fn one_effect(e: Effect) -> (r: Vec<Effect>)
    ensures
        effects_view(r@) == seq![e@],
{
    let mut r = no_effects();
    push_effect(&mut r, e);
    r
}

// ───────────────────────────── hyprctl arguments ─────────────────────────────

/// `hyprctl dispatch workspace <id>`.
pub open spec fn workspace_args(ws: i64) -> Seq<Seq<char>> {
    seq!["workspace"@, signed_decimal(ws as int)]
}

/// `hyprctl dispatch focuswindow address:<address>`.
pub open spec fn focus_args(address: Seq<char>) -> Seq<Seq<char>> {
    seq!["focuswindow"@, "address:"@ + address]
}

/// `hyprctl dispatch movetoworkspace <id>,address:<address>`.
pub open spec fn move_args(ws: i64, address: Seq<char>) -> Seq<Seq<char>> {
    seq!["movetoworkspace"@, signed_decimal(ws as int) + ",address:"@ + address]
}

fn two_texts(a: String, b: String) -> (r: Vec<String>)
    ensures
        texts_view(r@) == seq![a@, b@],
{
    let ghost av = a@;
    let ghost bv = b@;
    let mut r: Vec<String> = Vec::new();
    r.push(a);
    r.push(b);
    assert(texts_view(r@) =~= seq![av, bv]);
    r
}

fn workspace_dispatch(ws: i64) -> (r: Vec<String>)
    ensures
        texts_view(r@) == workspace_args(ws),
{
    two_texts("workspace".to_owned(), i64_text(ws))
}

fn focus_dispatch(address: &str) -> (r: Vec<String>)
    ensures
        texts_view(r@) == focus_args(address@),
{
    let mut target = "address:".to_owned();
    push_text(&mut target, address);
    two_texts("focuswindow".to_owned(), target)
}

fn move_dispatch(ws: i64, address: &str) -> (r: Vec<String>)
    ensures
        texts_view(r@) == move_args(ws, address@),
{
    let mut target = i64_text(ws);
    push_text(&mut target, ",address:");
    push_text(&mut target, address);
    two_texts("movetoworkspace".to_owned(), target)
}

/// The dispatches that move the window at `address` to the active workspace
/// `active` and focus it; none when the active workspace is unknown.
pub fn move_here_dispatches(active: Option<i64>, address: &str) -> (r: Vec<Vec<String>>)
    ensures
        match active {
            Some(ws) => r@.len() == 2 && texts_view(r@[0]@) == move_args(ws, address@)
                && texts_view(r@[1]@) == focus_args(address@),
            None => r@.len() == 0,
        },
{
    let mut r: Vec<Vec<String>> = Vec::new();
    match active {
        Some(ws) => {
            r.push(move_dispatch(ws, address));
            r.push(focus_dispatch(address));
        },
        None => {},
    }
    r
}

// ───────────────────────────── state ─────────────────────────────

/// The switcher's state.
pub struct App {
    pub visible: bool,
    pub view_mode: ViewMode,
    pub show_help: bool,
    pub query: String,
    pub cmd: String,
    pub selected: usize,
    pub vim_mode: VimMode,
    pub all_apps: Vec<DesktopApp>,
    pub app_filtered: Vec<usize>,
    pub windows: Vec<WindowInfo>,
    pub win_filtered: Vec<usize>,
    /// Count typed before `j` or `k` ("4j" moves down 4).
    pub count_buf: String,
    /// Workspace number typed in move-window mode.
    pub move_buf: String,
}

#[verifier::ext_equal]
pub ghost struct AppView {
    pub visible: bool,
    pub view_mode: ViewMode,
    pub show_help: bool,
    pub query: Seq<char>,
    pub cmd: Seq<char>,
    pub selected: usize,
    pub vim_mode: VimMode,
    pub all_apps: Seq<DesktopApp>,
    pub app_filtered: Seq<usize>,
    pub windows: Seq<WindowInfo>,
    pub win_filtered: Seq<usize>,
    pub count_buf: Seq<char>,
    pub move_buf: Seq<char>,
}

impl View for App {
    type V = AppView;

    open spec fn view(&self) -> AppView {
        AppView {
            visible: self.visible,
            view_mode: self.view_mode,
            show_help: self.show_help,
            query: self.query@,
            cmd: self.cmd@,
            selected: self.selected,
            vim_mode: self.vim_mode,
            all_apps: self.all_apps@,
            app_filtered: self.app_filtered@,
            windows: self.windows@,
            win_filtered: self.win_filtered@,
            count_buf: self.count_buf@,
            move_buf: self.move_buf@,
        }
    }
}

// ───────────────────────────── the model ─────────────────────────────

/// The number of rows of the list shown.
pub open spec fn items_len(s: AppView) -> nat {
    match s.view_mode {
        ViewMode::Apps => s.app_filtered.len(),
        ViewMode::Windows => s.win_filtered.len(),
    }
}

/// An app matches a query when the lowercased query is empty or occurs in
/// its lowercased name.
pub open spec fn app_matches(a: DesktopApp, q: Seq<char>) -> bool {
    lowercase(q).len() == 0 || contains_seq(lowercase(a.name@), lowercase(q))
}

/// A window matches a query when the lowercased query is empty or occurs in
/// its lowercased title or class.
pub open spec fn window_matches(w: WindowInfo, q: Seq<char>) -> bool {
    lowercase(q).len() == 0 || contains_seq(lowercase(w.title@), lowercase(q)) || contains_seq(
        lowercase(w.class@),
        lowercase(q),
    )
}

/// The positions of the apps that match, in increasing order.
pub open spec fn app_hits(apps: Seq<DesktopApp>, q: Seq<char>) -> Seq<usize>
    decreases apps.len(),
{
    if apps.len() == 0 {
        seq![]
    } else if app_matches(apps.last(), q) {
        app_hits(apps.drop_last(), q).push((apps.len() - 1) as usize)
    } else {
        app_hits(apps.drop_last(), q)
    }
}

/// The positions of the windows that match, in increasing order.
pub open spec fn window_hits(ws: Seq<WindowInfo>, q: Seq<char>) -> Seq<usize>
    decreases ws.len(),
{
    if ws.len() == 0 {
        seq![]
    } else if window_matches(ws.last(), q) {
        window_hits(ws.drop_last(), q).push((ws.len() - 1) as usize)
    } else {
        window_hits(ws.drop_last(), q)
    }
}

/// The selection moved back onto the list when it fell past its end.
pub open spec fn clamped(s: AppView) -> AppView {
    if s.selected >= items_len(s) {
        AppView {
            selected: (if items_len(s) == 0 {
                0
            } else {
                items_len(s) - 1
            }) as usize,
            ..s
        }
    } else {
        s
    }
}

/// The current list recomputed for the query.
pub open spec fn filtered(s: AppView) -> AppView {
    let q = s.query;
    clamped(
        match s.view_mode {
            ViewMode::Apps => AppView { app_filtered: app_hits(s.all_apps, q), ..s },
            ViewMode::Windows => AppView { win_filtered: window_hits(s.windows, q), ..s },
        },
    )
}

/// Query, command, buffers, selection, mode and help back to their start.
pub open spec fn reset(s: AppView) -> AppView {
    AppView {
        query: seq![],
        cmd: seq![],
        move_buf: seq![],
        selected: 0,
        vim_mode: VimMode::Normal,
        show_help: false,
        count_buf: seq![],
        ..s
    }
}

/// Closing: hidden and reset; the process ends, or the daemon hides its surfaces.
pub open spec fn closed(s: AppView, mode: RunMode) -> (AppView, Seq<EffectView>) {
    (
        reset(AppView { visible: false, ..s }),
        match mode {
            RunMode::Normal => seq![EffectView::Exit],
            RunMode::Daemon => seq![EffectView::HideSurfaces],
        },
    )
}

/// The scroll that brings the selection into view, when the list has more than one row.
pub open spec fn scrolled(s: AppView) -> Seq<EffectView> {
    if items_len(s) <= 1 {
        seq![]
    } else {
        seq![EffectView::ScrollTo { index: s.selected, count: items_len(s) as usize }]
    }
}

/// The count typed before `j`/`k`, 1 when there is none (or it does not parse).
pub open spec fn count_value(buf: Seq<char>) -> nat {
    match parsed_usize(buf) {
        Some(n) => n as nat,
        None => 1,
    }
}

/// The last row of the list (0 when it is empty).
pub open spec fn last_row(s: AppView) -> int {
    if items_len(s) == 0 {
        0
    } else {
        items_len(s) - 1
    }
}

pub open spec fn is_char(k: KeyView, c: Seq<char>) -> bool {
    k matches KeyView::Character(t) && t == c
}

/// The filtered position of the selected row, if the row exists.
pub open spec fn selected_entry(filtered: Seq<usize>, selected: usize) -> Option<usize> {
    if selected < filtered.len() {
        Some(filtered[selected as int])
    } else {
        None
    }
}

/// Keys in search mode edit the query, which filters the list as it is typed.
pub open spec fn search_step(s: AppView, key: KeyView, m: Modifiers) -> (AppView, Seq<EffectView>) {
    match key {
        KeyView::Named(NamedKey::Escape) => (
            filtered(AppView { query: seq![], vim_mode: VimMode::Normal, ..s }),
            seq![],
        ),
        KeyView::Named(NamedKey::Enter) => (AppView { vim_mode: VimMode::Normal, ..s }, seq![]),
        KeyView::Named(NamedKey::Backspace) => (
            filtered(
                AppView {
                    query: if s.query.len() > 0 {
                        s.query.drop_last()
                    } else {
                        s.query
                    },
                    ..s
                },
            ),
            seq![],
        ),
        KeyView::Character(c) => if !m.control && !m.alt {
            (filtered(AppView { query: s.query + c, ..s }), seq![])
        } else {
            (s, seq![])
        },
        _ => (s, seq![]),
    }
}

/// Keys in command mode edit the command line; Enter runs it
/// (`q`, `wq`, `q!` close; `help`, `?` show the help screen).
pub open spec fn command_step(s: AppView, key: KeyView, m: Modifiers, mode: RunMode) -> (
    AppView,
    Seq<EffectView>,
) {
    match key {
        KeyView::Named(NamedKey::Escape) => (
            AppView { cmd: seq![], vim_mode: VimMode::Normal, ..s },
            seq![],
        ),
        KeyView::Named(NamedKey::Enter) => {
            let c = trimmed(s.cmd);
            let s1 = AppView { cmd: seq![], vim_mode: VimMode::Normal, ..s };
            if c == "q"@ || c == "wq"@ || c == "q!"@ {
                closed(s1, mode)
            } else if c == "help"@ || c == "?"@ {
                (AppView { show_help: true, ..s1 }, seq![EffectView::Resize(HELP_HEIGHT)])
            } else {
                (s1, seq![])
            }
        },
        KeyView::Named(NamedKey::Backspace) => {
            let cmd = if s.cmd.len() > 0 {
                s.cmd.drop_last()
            } else {
                s.cmd
            };
            (
                AppView {
                    cmd,
                    vim_mode: if cmd.len() == 0 {
                        VimMode::Normal
                    } else {
                        s.vim_mode
                    },
                    ..s
                },
                seq![],
            )
        },
        KeyView::Character(c) => if !m.control && !m.alt {
            (AppView { cmd: s.cmd + c, ..s }, seq![])
        } else {
            (s, seq![])
        },
        _ => (s, seq![]),
    }
}

/// Keys in move-window mode type a workspace number; Enter moves the
/// selected window there and reads the window list again.
pub open spec fn move_step(s: AppView, key: KeyView, m: Modifiers) -> (AppView, Seq<EffectView>) {
    match key {
        KeyView::Named(NamedKey::Escape) => (
            AppView { move_buf: seq![], vim_mode: VimMode::Normal, ..s },
            seq![],
        ),
        KeyView::Named(NamedKey::Backspace) => {
            let buf = if s.move_buf.len() > 0 {
                s.move_buf.drop_last()
            } else {
                s.move_buf
            };
            (
                AppView {
                    move_buf: buf,
                    vim_mode: if buf.len() == 0 {
                        VimMode::Normal
                    } else {
                        s.vim_mode
                    },
                    ..s
                },
                seq![],
            )
        },
        KeyView::Named(NamedKey::Enter) => {
            let s1 = AppView { move_buf: seq![], vim_mode: VimMode::Normal, ..s };
            match parsed_i64(trimmed(s.move_buf)) {
                Some(ws) => match selected_entry(s.win_filtered, s.selected) {
                    Some(idx) => (
                        s1,
                        seq![
                            EffectView::Dispatch(move_args(ws, s.windows[idx as int].address@)),
                            EffectView::RefreshWindows,
                        ],
                    ),
                    None => (s1, seq![]),
                },
                None => (s1, seq![]),
            }
        },
        KeyView::Character(c) => if !m.control && !m.alt {
            (
                AppView {
                    move_buf: if all_digits(c) {
                        s.move_buf + c
                    } else {
                        s.move_buf
                    },
                    ..s
                },
                seq![],
            )
        } else {
            (s, seq![])
        },
        _ => (s, seq![]),
    }
}

/// A digit that extends the count prefix (a first digit may not be `0`).
pub open spec fn is_count_digit(s: AppView, key: KeyView, m: Modifiers) -> bool {
    key matches KeyView::Character(c) && m.none() && c.len() == 1 && is_digit(c[0]) && (
    s.count_buf.len() > 0 || c[0] != '0')
}

/// What Enter does in normal mode before the switcher closes: go to the
/// selected window's workspace and focus it, or launch the selected app.
pub open spec fn select_effects(s: AppView) -> Seq<EffectView> {
    match s.view_mode {
        ViewMode::Windows => match selected_entry(s.win_filtered, s.selected) {
            Some(idx) => seq![
                EffectView::Dispatch(workspace_args(s.windows[idx as int].workspace_id)),
                EffectView::Dispatch(focus_args(s.windows[idx as int].address@)),
            ],
            None => seq![],
        },
        ViewMode::Apps => match selected_entry(s.app_filtered, s.selected) {
            Some(idx) => seq![EffectView::Launch(s.all_apps[idx as int].command@)],
            None => seq![],
        },
    }
}

/// What Shift+Enter does in normal mode before the switcher closes: bring
/// the selected window to the active workspace (window list only).
pub open spec fn move_here_effects(s: AppView) -> Seq<EffectView> {
    if s.view_mode == ViewMode::Windows {
        match selected_entry(s.win_filtered, s.selected) {
            Some(idx) => seq![EffectView::MoveWindowHere(s.windows[idx as int].address@)],
            None => seq![],
        }
    } else {
        seq![]
    }
}

/// Then with the effects `pre` done first.
pub open spec fn after(pre: Seq<EffectView>, r: (AppView, Seq<EffectView>)) -> (
    AppView,
    Seq<EffectView>,
) {
    (r.0, pre + r.1)
}

/// Keys in normal mode.
pub open spec fn normal_step(s: AppView, key: KeyView, m: Modifiers, mode: RunMode) -> (
    AppView,
    Seq<EffectView>,
) {
    if is_count_digit(s, key, m) {
        (AppView { count_buf: s.count_buf + key->Character_0, ..s }, seq![])
    } else {
        let is_jk = (is_char(key, "j"@) || is_char(key, "k"@)) && m.none();
        let s0 = if is_jk {
            s
        } else {
            AppView { count_buf: seq![], ..s }
        };
        let max = last_row(s);
        if key == KeyView::Named(NamedKey::Escape) {
            closed(s0, mode)
        } else if is_char(key, "?"@) || (is_char(key, "/"@) && m.shift) {
            (AppView { show_help: true, ..s0 }, seq![EffectView::Resize(HELP_HEIGHT)])
        } else if key == KeyView::Named(NamedKey::Tab) {
            match s0.view_mode {
                ViewMode::Windows => (
                    filtered(
                        AppView {
                            vim_mode: VimMode::Search,
                            ..reset(AppView { view_mode: ViewMode::Apps, ..s0 })
                        },
                    ),
                    seq![],
                ),
                ViewMode::Apps => (
                    reset(AppView { view_mode: ViewMode::Windows, ..s0 }),
                    seq![EffectView::RefreshWindows],
                ),
            }
        } else if key == KeyView::Named(NamedKey::Enter) && m.shift {
            after(move_here_effects(s0), closed(s0, mode))
        } else if key == KeyView::Named(NamedKey::Enter) {
            after(select_effects(s0), closed(s0, mode))
        } else if is_char(key, "q"@) && m.none() {
            closed(s0, mode)
        } else if is_char(key, "j"@) && m.none() {
            let n = count_value(s.count_buf);
            let sel = if s.selected + n <= max {
                s.selected + n
            } else {
                max
            };
            let s1 = AppView { selected: sel as usize, count_buf: seq![], ..s };
            (s1, scrolled(s1))
        } else if is_char(key, "k"@) && m.none() {
            let n = count_value(s.count_buf);
            let sel = if s.selected >= n {
                s.selected - n
            } else {
                0
            };
            let s1 = AppView { selected: sel as usize, count_buf: seq![], ..s };
            (s1, scrolled(s1))
        } else if is_char(key, "g"@) && m.none() {
            let s1 = AppView { selected: 0, ..s0 };
            (s1, scrolled(s1))
        } else if is_char(key, "G"@) || (is_char(key, "g"@) && m.shift) {
            let s1 = AppView { selected: max as usize, ..s0 };
            (s1, scrolled(s1))
        } else if key == KeyView::Named(NamedKey::Space) || (is_char(key, "/"@) && m.none()) {
            (filtered(AppView { query: seq![], vim_mode: VimMode::Search, ..s0 }), seq![])
        } else if is_char(key, "t"@) && m.none() && s0.view_mode == ViewMode::Windows {
            (AppView { move_buf: seq![], vim_mode: VimMode::MoveWindow, ..s0 }, seq![])
        } else if is_char(key, ":"@) || (is_char(key, ";"@) && m.shift) {
            (AppView { cmd: seq![], vim_mode: VimMode::Command, ..s0 }, seq![])
        } else {
            (s0, seq![])
        }
    }
}

/// A key press while the list is shown.
pub open spec fn key_step(s: AppView, key: KeyView, m: Modifiers, mode: RunMode) -> (
    AppView,
    Seq<EffectView>,
) {
    match s.vim_mode {
        VimMode::Search => search_step(s, key, m),
        VimMode::Command => command_step(s, key, m, mode),
        VimMode::MoveWindow => move_step(s, key, m),
        VimMode::Normal => normal_step(s, key, m, mode),
    }
}

/// The switcher's transition: the next state and the effects, in order.
pub open spec fn step(s: AppView, msg: MessageView, mode: RunMode) -> (AppView, Seq<EffectView>) {
    match msg {
        MessageView::ShowWindows => (
            AppView { visible: true, ..reset(AppView { view_mode: ViewMode::Windows, ..s }) },
            seq![EffectView::RefreshWindows, EffectView::ShowSurfaces],
        ),
        MessageView::ShowApps => (
            AppView {
                visible: true,
                ..filtered(
                    AppView {
                        vim_mode: VimMode::Search,
                        ..reset(AppView { view_mode: ViewMode::Apps, ..s })
                    },
                )
            },
            seq![EffectView::ShowSurfaces],
        ),
        MessageView::Reload => (s, seq![EffectView::ReloadAll]),
        MessageView::Close => closed(s, mode),
        MessageView::Key { key, modifiers } => if !s.visible {
            (s, seq![])
        } else if s.show_help {
            (AppView { show_help: false, ..s }, seq![EffectView::Resize(WINDOW_HEIGHT)])
        } else {
            key_step(s, key, modifiers, mode)
        },
        MessageView::OtherEvent => (s, seq![]),
    }
}

/// The selected row of `filtered` points into a list of `len` items.
pub open spec fn entry_in(filtered: Seq<usize>, selected: usize, len: nat) -> bool {
    selected_entry(filtered, selected) matches Some(idx) ==> idx < len
}

/// The inputs on which a key press is handled without a fault: a selected
/// row that Enter acts on must point into its list.
pub open spec fn key_defined(s: AppView, key: KeyView, m: Modifiers) -> bool {
    match s.vim_mode {
        VimMode::Normal => {
            &&& (key == KeyView::Named(NamedKey::Enter) && (!m.shift || s.view_mode
                == ViewMode::Windows) ==> match s.view_mode {
                ViewMode::Windows => entry_in(s.win_filtered, s.selected, s.windows.len()),
                ViewMode::Apps => entry_in(s.app_filtered, s.selected, s.all_apps.len()),
            })
        },
        VimMode::MoveWindow => key == KeyView::Named(NamedKey::Enter) && parsed_i64(
            trimmed(s.move_buf),
        ) is Some ==> entry_in(s.win_filtered, s.selected, s.windows.len()),
        _ => true,
    }
}

/// The messages that `update` handles without a fault.
pub open spec fn message_defined(s: AppView, msg: MessageView) -> bool {
    match msg {
        MessageView::Key { key, modifiers } => s.visible && !s.show_help ==> key_defined(
            s,
            key,
            modifiers,
        ),
        _ => true,
    }
}

/// The state once a fresh window list has arrived: the list is filtered again.
pub open spec fn with_windows(s: AppView, windows: Seq<WindowInfo>) -> AppView {
    filtered(AppView { windows, ..s })
}

/// The state once a fresh app list has arrived (the filtered rows are kept).
pub open spec fn with_apps(s: AppView, apps: Seq<DesktopApp>) -> AppView {
    AppView { all_apps: apps, ..s }
}

/// The state at start-up: hidden, showing `view`, every app listed.
pub open spec fn initial(view: ViewMode, apps: Seq<DesktopApp>) -> AppView {
    AppView {
        visible: false,
        view_mode: view,
        show_help: false,
        query: seq![],
        cmd: seq![],
        selected: 0,
        vim_mode: VimMode::Normal,
        all_apps: apps,
        app_filtered: app_hits(apps, seq![]),
        windows: seq![],
        win_filtered: seq![],
        count_buf: seq![],
        move_buf: seq![],
    }
}

// ───────────────────────────── the code ─────────────────────────────

fn app_hits_exec(apps: &Vec<DesktopApp>, query: &str) -> (r: Vec<usize>)
    ensures
        r@ == app_hits(apps@, query@),
{
    let lq = to_lower(query);
    let empty = lq.as_str().is_empty();
    let q = chars_of(lq.as_str());
    let mut r: Vec<usize> = Vec::new();
    let mut i: usize = 0;
    while i < apps.len()
        invariant
            i <= apps.len(),
            q@ == lowercase(query@),
            empty == (lowercase(query@).len() == 0),
            r@ == app_hits(apps@.take(i as int), query@),
        decreases apps.len() - i,
    {
        let hit = if empty {
            true
        } else {
            let name = to_lower(apps[i].name.as_str());
            contains_chars(&chars_of(name.as_str()), &q)
        };
        assert(apps@.take(i + 1).drop_last() =~= apps@.take(i as int));
        assert(apps@.take(i + 1).last() == apps@[i as int]);
        if hit {
            r.push(i);
        }
        i += 1;
    }
    assert(apps@.take(apps.len() as int) =~= apps@);
    r
}

fn window_hits_exec(ws: &Vec<WindowInfo>, query: &str) -> (r: Vec<usize>)
    ensures
        r@ == window_hits(ws@, query@),
{
    let lq = to_lower(query);
    let empty = lq.as_str().is_empty();
    let q = chars_of(lq.as_str());
    let mut r: Vec<usize> = Vec::new();
    let mut i: usize = 0;
    while i < ws.len()
        invariant
            i <= ws.len(),
            q@ == lowercase(query@),
            empty == (lowercase(query@).len() == 0),
            r@ == window_hits(ws@.take(i as int), query@),
        decreases ws.len() - i,
    {
        let hit = if empty {
            true
        } else {
            let title = to_lower(ws[i].title.as_str());
            if contains_chars(&chars_of(title.as_str()), &q) {
                true
            } else {
                let class = to_lower(ws[i].class.as_str());
                contains_chars(&chars_of(class.as_str()), &q)
            }
        };
        assert(ws@.take(i + 1).drop_last() =~= ws@.take(i as int));
        assert(ws@.take(i + 1).last() == ws@[i as int]);
        if hit {
            r.push(i);
        }
        i += 1;
    }
    assert(ws@.take(ws.len() as int) =~= ws@);
    r
}

fn key_is(key: &Key, lit: &str) -> (r: bool)
    ensures
        r == is_char(key@, lit@),
{
    match key {
        Key::Character(c) => same_text(c.as_str(), lit),
        _ => false,
    }
}

fn is_named(key: &Key, n: NamedKey) -> (r: bool)
    ensures
        r == (key@ == KeyView::Named(n)),
{
    match key {
        Key::Named(k) => *k == n,
        _ => false,
    }
}

impl App {
    /// The state at start-up, with the app list already read.
    pub fn new_state(view: ViewMode, apps: Vec<DesktopApp>) -> (r: App)
        ensures
            r@ == initial(view, apps@),
    {
        let mut state = App {
            visible: false,
            view_mode: ViewMode::Apps,
            show_help: false,
            query: String::new(),
            cmd: String::new(),
            selected: 0,
            vim_mode: VimMode::Normal,
            all_apps: apps,
            app_filtered: Vec::new(),
            windows: Vec::new(),
            win_filtered: Vec::new(),
            count_buf: String::new(),
            move_buf: String::new(),
        };
        state.filter();
        state.view_mode = view;
        state
    }

    /// The number of rows of the list shown.
    pub fn items_len(&self) -> (r: usize)
        ensures
            r == items_len(self@),
    {
        match self.view_mode {
            ViewMode::Apps => self.app_filtered.len(),
            ViewMode::Windows => self.win_filtered.len(),
        }
    }

    /// Recomputes the current list for the query and keeps the selection on it.
    pub fn filter(&mut self)
        ensures
            final(self)@ == filtered(old(self)@),
    {
        match self.view_mode {
            ViewMode::Apps => {
                self.app_filtered = app_hits_exec(&self.all_apps, self.query.as_str());
            },
            ViewMode::Windows => {
                self.win_filtered = window_hits_exec(&self.windows, self.query.as_str());
            },
        }
        let len = self.items_len();
        if self.selected >= len {
            self.selected = if len == 0 {
                0
            } else {
                len - 1
            };
        }
    }

    /// Clears the query, the command, the buffers, the selection and the help
    /// screen, and goes back to normal mode.
    pub fn reset_state(&mut self)
        ensures
            final(self)@ == reset(old(self)@),
    {
        self.query = String::new();
        self.cmd = String::new();
        self.move_buf = String::new();
        self.selected = 0;
        self.vim_mode = VimMode::Normal;
        self.show_help = false;
        self.count_buf = String::new();
    }

    /// Takes in a fresh window list (after `Effect::RefreshWindows`).
    pub fn windows_loaded(&mut self, windows: Vec<WindowInfo>)
        ensures
            final(self)@ == with_windows(old(self)@, windows@),
    {
        self.windows = windows;
        self.filter();
    }

    /// Takes in a fresh app list (after `Effect::ReloadAll`).
    pub fn apps_loaded(&mut self, apps: Vec<DesktopApp>)
        ensures
            final(self)@ == with_apps(old(self)@, apps@),
    {
        self.all_apps = apps;
    }

    fn close(&mut self, mode: RunMode) -> (r: Vec<Effect>)
        ensures
            (final(self)@, effects_view(r@)) == closed(old(self)@, mode),
    {
        self.visible = false;
        self.reset_state();
        match mode {
            RunMode::Normal => one_effect(Effect::Exit),
            RunMode::Daemon => one_effect(Effect::HideSurfaces),
        }
    }

    fn scroll(&self) -> (r: Vec<Effect>)
        ensures
            effects_view(r@) == scrolled(self@),
    {
        let count = self.items_len();
        if count <= 1 {
            no_effects()
        } else {
            one_effect(Effect::ScrollTo { index: self.selected, count })
        }
    }

    fn take_count(&mut self) -> (n: usize)
        ensures
            n == count_value(old(self)@.count_buf),
            final(self)@ == (AppView { count_buf: seq![], ..old(self)@ }),
    {
        let n = match parse_usize(self.count_buf.as_str()) {
            Some(n) => n,
            None => 1,
        };
        self.count_buf = String::new();
        n
    }

    fn search_key(&mut self, key: Key, m: Modifiers) -> (r: Vec<Effect>)
        ensures
            (final(self)@, effects_view(r@)) == search_step(old(self)@, key@, m),
    {
        match key {
            Key::Named(NamedKey::Escape) => {
                self.query = String::new();
                self.filter();
                self.vim_mode = VimMode::Normal;
                no_effects()
            },
            Key::Named(NamedKey::Enter) => {
                self.vim_mode = VimMode::Normal;
                no_effects()
            },
            Key::Named(NamedKey::Backspace) => {
                pop_char(&mut self.query);
                self.filter();
                no_effects()
            },
            Key::Character(c) => {
                if !m.control && !m.alt {
                    push_text(&mut self.query, c.as_str());
                    self.filter();
                }
                no_effects()
            },
            _ => no_effects(),
        }
    }

    fn command_key(&mut self, key: Key, m: Modifiers, mode: RunMode) -> (r: Vec<Effect>)
        ensures
            (final(self)@, effects_view(r@)) == command_step(old(self)@, key@, m, mode),
    {
        match key {
            Key::Named(NamedKey::Escape) => {
                self.cmd = String::new();
                self.vim_mode = VimMode::Normal;
                no_effects()
            },
            Key::Named(NamedKey::Enter) => {
                let c = trim(self.cmd.as_str());
                self.cmd = String::new();
                self.vim_mode = VimMode::Normal;
                let cs = c.as_str();
                if same_text(cs, "q") || same_text(cs, "wq") || same_text(cs, "q!") {
                    self.close(mode)
                } else if same_text(cs, "help") || same_text(cs, "?") {
                    self.show_help = true;
                    one_effect(Effect::Resize(HELP_HEIGHT))
                } else {
                    no_effects()
                }
            },
            Key::Named(NamedKey::Backspace) => {
                pop_char(&mut self.cmd);
                if self.cmd.as_str().is_empty() {
                    self.vim_mode = VimMode::Normal;
                }
                no_effects()
            },
            Key::Character(c) => {
                if !m.control && !m.alt {
                    push_text(&mut self.cmd, c.as_str());
                }
                no_effects()
            },
            _ => no_effects(),
        }
    }

    fn move_key(&mut self, key: Key, m: Modifiers) -> (r: Vec<Effect>)
        requires
            key_defined(old(self)@, key@, m),
            old(self).vim_mode == VimMode::MoveWindow,
        ensures
            (final(self)@, effects_view(r@)) == move_step(old(self)@, key@, m),
    {
        match key {
            Key::Named(NamedKey::Escape) => {
                self.move_buf = String::new();
                self.vim_mode = VimMode::Normal;
                no_effects()
            },
            Key::Named(NamedKey::Backspace) => {
                pop_char(&mut self.move_buf);
                if self.move_buf.as_str().is_empty() {
                    self.vim_mode = VimMode::Normal;
                }
                no_effects()
            },
            Key::Named(NamedKey::Enter) => {
                let t = trim(self.move_buf.as_str());
                let mut r = no_effects();
                match parse_i64(t.as_str()) {
                    Some(ws) => {
                        if self.selected < self.win_filtered.len() {
                            let idx = self.win_filtered[self.selected];
                            let args = move_dispatch(ws, self.windows[idx].address.as_str());
                            push_effect(&mut r, Effect::Dispatch(args));
                            push_effect(&mut r, Effect::RefreshWindows);
                        }
                    },
                    None => {},
                }
                self.move_buf = String::new();
                self.vim_mode = VimMode::Normal;
                r
            },
            Key::Character(c) => {
                if !m.control && !m.alt {
                    let v = chars_of(c.as_str());
                    let mut digits = true;
                    let mut i: usize = 0;
                    while i < v.len()
                        invariant
                            i <= v.len(),
                            digits == (forall|k: int| 0 <= k < i ==> is_digit(v@[k])),
                        decreases v.len() - i,
                    {
                        if !('0' as u32 <= v[i] as u32 && v[i] as u32 <= '9' as u32) {
                            digits = false;
                        }
                        i += 1;
                    }
                    if digits {
                        push_text(&mut self.move_buf, c.as_str());
                    }
                }
                no_effects()
            },
            _ => no_effects(),
        }
    }

    fn count_digit(&self, key: &Key, m: Modifiers) -> (r: Option<char>)
        ensures
            (r is Some) == is_count_digit(self@, key@, m),
            r matches Some(d) ==> key@->Character_0 == seq![d],
    {
        match key {
            Key::Character(c) => {
                if !m.is_empty() {
                    return None;
                }
                let v = chars_of(c.as_str());
                if v.len() == 1 && '0' as u32 <= v[0] as u32 && v[0] as u32 <= '9' as u32 && (
                !self.count_buf.as_str().is_empty() || v[0] != '0') {
                    assert(v@ =~= seq![v@[0]]);
                    Some(v[0])
                } else {
                    None
                }
            },
            _ => None,
        }
    }

    #[verifier::rlimit(60)]
    fn normal_key(&mut self, key: Key, m: Modifiers, mode: RunMode) -> (r: Vec<Effect>)
        requires
            key_defined(old(self)@, key@, m),
            old(self).vim_mode == VimMode::Normal,
        ensures
            (final(self)@, effects_view(r@)) == normal_step(old(self)@, key@, m, mode),
    {
        let ghost s = self@;
        let max = if self.items_len() == 0 {
            0
        } else {
            self.items_len() - 1
        };
        match self.count_digit(&key, m) {
            Some(d) => {
                push_char(&mut self.count_buf, d);
                assert(self.count_buf@ =~= s.count_buf + key@->Character_0);
                return no_effects();
            },
            None => {},
        }
        let is_jk = (key_is(&key, "j") || key_is(&key, "k")) && m.is_empty();
        if !is_jk {
            self.count_buf = String::new();
        }
        if is_named(&key, NamedKey::Escape) {
            self.close(mode)
        } else if key_is(&key, "?") || (key_is(&key, "/") && m.shift) {
            self.show_help = true;
            one_effect(Effect::Resize(HELP_HEIGHT))
        } else if is_named(&key, NamedKey::Tab) {
            match self.view_mode {
                ViewMode::Windows => {
                    self.view_mode = ViewMode::Apps;
                    self.reset_state();
                    self.vim_mode = VimMode::Search;
                    self.filter();
                    no_effects()
                },
                ViewMode::Apps => {
                    self.view_mode = ViewMode::Windows;
                    self.reset_state();
                    one_effect(Effect::RefreshWindows)
                },
            }
        } else if is_named(&key, NamedKey::Enter) && m.shift {
            let mut r = no_effects();
            if self.view_mode == ViewMode::Windows && self.selected < self.win_filtered.len() {
                let idx = self.win_filtered[self.selected];
                let address = self.windows[idx].address.as_str().to_owned();
                push_effect(&mut r, Effect::MoveWindowHere(address));
            }
            let mut rest = self.close(mode);
            let ghost pre = effects_view(r@);
            let ghost post = effects_view(rest@);
            r.append(&mut rest);
            assert(effects_view(r@) =~= pre + post);
            r
        } else if is_named(&key, NamedKey::Enter) {
            let mut r = no_effects();
            match self.view_mode {
                ViewMode::Windows => {
                    if self.selected < self.win_filtered.len() {
                        let idx = self.win_filtered[self.selected];
                        let ws = self.windows[idx].workspace_id;
                        push_effect(&mut r, Effect::Dispatch(workspace_dispatch(ws)));
                        let focus = focus_dispatch(self.windows[idx].address.as_str());
                        push_effect(&mut r, Effect::Dispatch(focus));
                    }
                },
                ViewMode::Apps => {
                    if self.selected < self.app_filtered.len() {
                        let idx = self.app_filtered[self.selected];
                        let command = self.all_apps[idx].command.as_str().to_owned();
                        push_effect(&mut r, Effect::Launch(command));
                    }
                },
            }
            let mut rest = self.close(mode);
            let ghost pre = effects_view(r@);
            let ghost post = effects_view(rest@);
            r.append(&mut rest);
            assert(effects_view(r@) =~= pre + post);
            r
        } else if key_is(&key, "q") && m.is_empty() {
            self.close(mode)
        } else if key_is(&key, "j") && m.is_empty() {
            let n = self.take_count();
            self.selected = if self.selected <= max && n <= max - self.selected {
                self.selected + n
            } else {
                max
            };
            self.scroll()
        } else if key_is(&key, "k") && m.is_empty() {
            let n = self.take_count();
            self.selected = if self.selected >= n {
                self.selected - n
            } else {
                0
            };
            self.scroll()
        } else if key_is(&key, "g") && m.is_empty() {
            self.selected = 0;
            self.scroll()
        } else if key_is(&key, "G") || (key_is(&key, "g") && m.shift) {
            self.selected = max;
            self.scroll()
        } else if is_named(&key, NamedKey::Space) || (key_is(&key, "/") && m.is_empty()) {
            self.query = String::new();
            self.filter();
            self.vim_mode = VimMode::Search;
            no_effects()
        } else if key_is(&key, "t") && m.is_empty() && self.view_mode == ViewMode::Windows {
            self.move_buf = String::new();
            self.vim_mode = VimMode::MoveWindow;
            no_effects()
        } else if key_is(&key, ":") || (key_is(&key, ";") && m.shift) {
            self.cmd = String::new();
            self.vim_mode = VimMode::Command;
            no_effects()
        } else {
            no_effects()
        }
    }

    /// Whether `update` handles `msg` without a fault in this state (see
    /// `message_defined`).
    pub fn can_handle(&self, msg: &Message) -> (r: bool)
        ensures
            r == message_defined(self@, msg@),
    {
        match msg {
            Message::Key { key, modifiers } => {
                if !self.visible || self.show_help {
                    return true;
                }
                match self.vim_mode {
                    VimMode::Normal => {
                        let enter_ok = if is_named(key, NamedKey::Enter) && (!modifiers.shift
                            || self.view_mode == ViewMode::Windows) {
                            match self.view_mode {
                                ViewMode::Windows => self.selected >= self.win_filtered.len()
                                    || self.win_filtered[self.selected] < self.windows.len(),
                                ViewMode::Apps => self.selected >= self.app_filtered.len()
                                    || self.app_filtered[self.selected] < self.all_apps.len(),
                            }
                        } else {
                            true
                        };
                        enter_ok
                    },
                    VimMode::MoveWindow => {
                        if is_named(key, NamedKey::Enter) {
                            let t = trim(self.move_buf.as_str());
                            match parse_i64(t.as_str()) {
                                Some(_) => self.selected >= self.win_filtered.len()
                                    || self.win_filtered[self.selected] < self.windows.len(),
                                None => true,
                            }
                        } else {
                            true
                        }
                    },
                    _ => true,
                }
            },
            _ => true,
        }
    }
}

/// Handles one message: the state changes as `step` says, and the effects it
/// lists are returned in order.
pub fn update(app: &mut App, message: Message, mode: RunMode) -> (r: Vec<Effect>)
    requires
        message_defined(old(app)@, message@),
    ensures
        (final(app)@, effects_view(r@)) == step(old(app)@, message@, mode),
{
    match message {
        Message::ShowWindows => {
            app.view_mode = ViewMode::Windows;
            app.reset_state();
            app.visible = true;
            let mut r = one_effect(Effect::RefreshWindows);
            push_effect(&mut r, Effect::ShowSurfaces);
            r
        },
        Message::ShowApps => {
            app.view_mode = ViewMode::Apps;
            app.reset_state();
            app.vim_mode = VimMode::Search;
            app.filter();
            app.visible = true;
            one_effect(Effect::ShowSurfaces)
        },
        Message::Reload => one_effect(Effect::ReloadAll),
        Message::Close => app.close(mode),
        Message::Key { key, modifiers } => {
            if !app.visible {
                return no_effects();
            }
            if app.show_help {
                app.show_help = false;
                return one_effect(Effect::Resize(WINDOW_HEIGHT));
            }
            match app.vim_mode {
                VimMode::Search => app.search_key(key, modifiers),
                VimMode::Command => app.command_key(key, modifiers, mode),
                VimMode::MoveWindow => app.move_key(key, modifiers),
                VimMode::Normal => app.normal_key(key, modifiers, mode),
            }
        },
        Message::OtherEvent => no_effects(),
    }
}

/// The message that starts a one-shot run: show the chosen list. A daemon
/// starts hidden and waits for commands instead.
pub fn startup_message(mode: RunMode, view: ViewMode) -> (r: Option<Message>)
    ensures
        mode == RunMode::Daemon ==> r is None,
        mode == RunMode::Normal ==> (r matches Some(m) && m@ == (match view {
            ViewMode::Apps => MessageView::ShowApps,
            ViewMode::Windows => MessageView::ShowWindows,
        })),
{
    match mode {
        RunMode::Daemon => None,
        RunMode::Normal => match view {
            ViewMode::Apps => Some(Message::ShowApps),
            ViewMode::Windows => Some(Message::ShowWindows),
        },
    }
}

/// The message that a daemon command turns into.
pub fn command_message(c: DaemonCommand) -> (m: Message)
    ensures
        m@ == (match c {
            DaemonCommand::ShowWindows => MessageView::ShowWindows,
            DaemonCommand::ShowApps => MessageView::ShowApps,
            DaemonCommand::Reload => MessageView::Reload,
        }),
{
    match c {
        DaemonCommand::ShowWindows => Message::ShowWindows,
        DaemonCommand::ShowApps => Message::ShowApps,
        DaemonCommand::Reload => Message::Reload,
    }
}

} // verus!
