//! Properties of the switcher that hold across its functions.
use vstd::prelude::*;
use vstd::utf8::{encode_utf8, encode_utf8_decode_utf8, encode_utf8_valid_utf8};

use crate::app::{
    app_hits, closed, count_value, filtered, initial, items_len, last_row, reset, step,
    window_hits, with_apps, with_windows, AppView, EffectView, KeyView, MessageView, Modifiers,
    NamedKey, RunMode, ViewMode, VimMode, WINDOW_HEIGHT,
};
use crate::data::{
    entry_of_lines, scan_line, scan_lines, EntryScan,
    cleaned_exec, is_field_code, joined, kept_words, word_scan, words,
    app_order, dedup_names, listed_windows, ordered_apps, windows_of, workspace_order, DesktopApp,
    HyprClient, WindowInfo,
};
use crate::order::{
    lemma_stable_sort, lemma_text_le_total, lemma_text_le_trans, sorted_by, stable_sort,
    total_preorder,
};
use crate::daemon::{command_of_bytes, command_of_text, command_word, DaemonCommand};
use crate::text::{
    all_digits, contains_seq, decimal, lowercase, occurs_at, digits_value, lead_space, lemma_decimal_digits, parsed_i64,
    parsed_usize, signed_decimal, signed_value, trail_space, trimmed, unsigned_value,
};

verus! {

broadcast use vstd::string::group_string_axioms;

// ───────────────────────────── numbers ─────────────────────────────

/// Reading back the decimal text of a number gives the number.
pub proof fn law_usize_text_reads_back(n: usize)
    ensures
        parsed_usize(decimal(n as nat)) == Some(n),
{
    lemma_decimal_digits(n as nat);
    let d = decimal(n as nat);
    assert(d[0] != '+');
    assert(unsigned_value(d) == Some(n as nat));
}

/// Reading back the decimal text of a signed number gives the number.
pub proof fn law_i64_text_reads_back(n: i64)
    ensures
        parsed_i64(signed_decimal(n as int)) == Some(n),
{
    if n < 0 {
        let m = (-(n as int)) as nat;
        lemma_decimal_digits(m);
        let t = signed_decimal(n as int);
        assert(t.drop_first() =~= decimal(m));
        assert(signed_value(t) == Some(-(m as int)));
    } else {
        lemma_decimal_digits(n as nat);
        let d = decimal(n as nat);
        assert(d[0] != '+' && d[0] != '-');
        assert(unsigned_value(d) == Some(n as nat));
    }
}

// ───────────────────────────── daemon protocol ─────────────────────────────

proof fn lemma_word_trimmed(w: Seq<char>)
    requires
        w.len() > 0,
        !crate::text::is_space(w[0]),
        !crate::text::is_space(w.last()),
    ensures
        trimmed(w) == w,
{
    assert(lead_space(w) == 0);
    assert(trail_space(w) == 0);
    assert(w.subrange(0, w.len() as int) =~= w);
}

/// The daemon reads each command's word back as that command.
pub proof fn law_command_word_reads_back(c: DaemonCommand)
    ensures
        command_of_text(command_word(c)) == c,
{
    reveal_strlit("windows");
    reveal_strlit("apps");
    reveal_strlit("reload");
    lemma_word_trimmed(command_word(c));
    assert("windows"@[0] != "apps"@[0]);
    assert("windows"@[0] != "reload"@[0]);
    assert("apps"@[0] != "reload"@[0]);
}

/// The bytes that the client sends for a command (the UTF-8 encoding of its
/// word) are read by the daemon as that command.
pub proof fn law_daemon_protocol(c: DaemonCommand)
    ensures
        command_of_bytes(encode_utf8(command_word(c))) == c,
{
    encode_utf8_valid_utf8(command_word(c));
    encode_utf8_decode_utf8(command_word(c));
    law_command_word_reads_back(c);
}

// ───────────────────────────── the switcher ─────────────────────────────

pub open spec fn key(k: KeyView, m: Modifiers) -> MessageView {
    MessageView::Key { key: k, modifiers: m }
}

pub open spec fn no_modifiers() -> Modifiers {
    Modifiers { shift: false, control: false, alt: false, logo: false }
}

/// While the switcher is hidden, key presses change nothing and do nothing.
pub proof fn law_hidden_ignores_keys(s: AppView, k: KeyView, m: Modifiers, mode: RunMode)
    requires
        !s.visible,
    ensures
        step(s, key(k, m), mode) == (s, Seq::<EffectView>::empty()),
{
}

/// While the help screen is shown, any key only dismisses it (and the
/// surfaces return to the list's height).
pub proof fn law_any_key_dismisses_help(s: AppView, k: KeyView, m: Modifiers, mode: RunMode)
    requires
        s.visible,
        s.show_help,
    ensures
        step(s, key(k, m), mode) == (AppView { show_help: false, ..s }, seq![
            EffectView::Resize(WINDOW_HEIGHT),
        ]),
{
}

/// Escape pressed twice while searching or typing a command closes the
/// switcher: the first leaves the mode, the second closes.
pub proof fn law_escape_twice_closes(s: AppView, m1: Modifiers, m2: Modifiers, mode: RunMode)
    requires
        s.visible,
        !s.show_help,
        s.vim_mode == VimMode::Search || s.vim_mode == VimMode::Command,
    ensures
        ({
            let esc = KeyView::Named(NamedKey::Escape);
            let first = step(s, key(esc, m1), mode).0;
            &&& first.visible
            &&& first.vim_mode == VimMode::Normal
            &&& step(first, key(esc, m2), mode) == closed(first, mode)
        }),
{
    let esc = KeyView::Named(NamedKey::Escape);
    let first = step(s, key(esc, m1), mode).0;
    let s0 = AppView { count_buf: seq![], ..first };
    assert(reset(AppView { visible: false, ..s0 }) =~= reset(AppView { visible: false, ..first }));
}

/// `Tab` in normal mode switches between the app list and the window list
/// without closing; switching to windows reads the window list again.
pub proof fn law_tab_switches_view(s: AppView, m: Modifiers, mode: RunMode)
    requires
        s.visible,
        !s.show_help,
        s.vim_mode == VimMode::Normal,
    ensures
        ({
            let r = step(s, key(KeyView::Named(NamedKey::Tab), m), mode);
            &&& r.0.visible
            &&& r.0.view_mode != s.view_mode
            &&& r.1 == (if s.view_mode == ViewMode::Apps {
                seq![EffectView::RefreshWindows]
            } else {
                Seq::<EffectView>::empty()
            })
        }),
{
}

/// A count typed before `j` moves the selection down that many rows, but not
/// past the last row ("4j" moves down 4).
pub proof fn law_count_moves_down(s: AppView, d: char, mode: RunMode)
    requires
        s.visible,
        !s.show_help,
        s.vim_mode == VimMode::Normal,
        s.count_buf.len() == 0,
        items_len(s) <= usize::MAX,
        '1' as u32 <= d as u32 <= '9' as u32,
    ensures
        ({
            let first = step(s, key(KeyView::Character(seq![d]), no_modifiers()), mode).0;
            let second = step(first, key(KeyView::Character("j"@), no_modifiers()), mode).0;
            let n = (d as u32 - '0' as u32) as int;
            &&& first.count_buf == seq![d]
            &&& second.selected == (if s.selected + n <= last_row(s) {
                s.selected + n
            } else {
                last_row(s)
            })
            &&& second.count_buf.len() == 0
        }),
{
    reveal_strlit("j");
    reveal_strlit("?");
    reveal_strlit("/");
    reveal_strlit("q");
    let first = step(s, key(KeyView::Character(seq![d]), no_modifiers()), mode).0;
    assert(first.count_buf =~= seq![d]);
    let c = seq![d];
    assert(c.drop_last() =~= Seq::<char>::empty());
    assert(digits_value(c) == digits_value(c.drop_last()) * 10 + crate::text::digit_value(d));
    assert(all_digits(c));
    assert(unsigned_value(c) == Some(digits_value(c)));
    assert(count_value(first.count_buf) == (d as u32 - '0' as u32) as nat);
    assert(!("j"@ =~= "?"@));
    assert(!("j"@ =~= "q"@));
    assert(!("j"@ =~= "/"@));
}

/// Every row of either list points to an item of its list, and each list
/// of rows is strictly increasing.
pub open spec fn rows_valid(s: AppView) -> bool {
    &&& forall|i: int| 0 <= i < s.app_filtered.len() ==> #[trigger] s.app_filtered[i] < s.all_apps.len()
    &&& forall|i: int| 0 <= i < s.win_filtered.len() ==> #[trigger] s.win_filtered[i] < s.windows.len()
    &&& forall|a: int, b: int|
        0 <= a < b < s.app_filtered.len() ==> #[trigger] s.app_filtered[a] < #[trigger] s.app_filtered[b]
    &&& forall|a: int, b: int|
        0 <= a < b < s.win_filtered.len() ==> #[trigger] s.win_filtered[a] < #[trigger] s.win_filtered[b]
}

/// The lists fit in memory, as vectors do.
pub open spec fn sizes_fit(s: AppView) -> bool {
    &&& s.all_apps.len() <= usize::MAX
    &&& s.windows.len() <= usize::MAX
    &&& s.app_filtered.len() <= usize::MAX
    &&& s.win_filtered.len() <= usize::MAX
}

/// The selection is on the list (row 0 when the list is empty).
pub open spec fn selection_valid(s: AppView) -> bool {
    s.selected <= last_row(s)
}

/// The state is consistent: rows point into their lists in increasing
/// order, and the selection is on the list shown, so that drawing the list
/// and acting on the selected row stay within the lists.
pub open spec fn consistent(s: AppView) -> bool {
    &&& rows_valid(s)
    &&& sizes_fit(s)
    &&& selection_valid(s)
    &&& (s.vim_mode == VimMode::MoveWindow ==> s.view_mode == ViewMode::Windows)
}

proof fn lemma_app_hits(apps: Seq<DesktopApp>, q: Seq<char>)
    ensures
        app_hits(apps, q).len() <= apps.len(),
        forall|i: int| 0 <= i < app_hits(apps, q).len() ==> #[trigger] app_hits(apps, q)[i] < apps.len(),
    decreases apps.len(),
{
    if apps.len() > 0 {
        lemma_app_hits(apps.drop_last(), q);
    }
}

proof fn lemma_window_hits(ws: Seq<WindowInfo>, q: Seq<char>)
    ensures
        window_hits(ws, q).len() <= ws.len(),
        forall|i: int| 0 <= i < window_hits(ws, q).len() ==> #[trigger] window_hits(ws, q)[i] < ws.len(),
    decreases ws.len(),
{
    if ws.len() > 0 {
        lemma_window_hits(ws.drop_last(), q);
    }
}

/// Filtering gives a consistent state.
pub proof fn lemma_filtered_consistent(t: AppView)
    requires
        rows_valid(t),
        sizes_fit(t),
        t.vim_mode == VimMode::MoveWindow ==> t.view_mode == ViewMode::Windows,
    ensures
        consistent(filtered(t)),
{
    lemma_app_hits(t.all_apps, t.query);
    lemma_window_hits(t.windows, t.query);
    law_app_rows_are_matches(t.all_apps, t.query);
    law_window_rows_are_matches(t.windows, t.query);
}

proof fn lemma_all_filtered()
    ensures
        forall|t: AppView|
            rows_valid(t) && sizes_fit(t) && (t.vim_mode == VimMode::MoveWindow ==> t.view_mode
                == ViewMode::Windows) ==> #[trigger] consistent(filtered(t)),
{
    assert forall|t: AppView|
        rows_valid(t) && sizes_fit(t) && (t.vim_mode == VimMode::MoveWindow ==> t.view_mode
            == ViewMode::Windows) implies #[trigger] consistent(
        filtered(t),
    ) by {
        lemma_filtered_consistent(t);
    }
}

/// Every step keeps the state consistent.
pub proof fn law_step_keeps_consistent(s: AppView, msg: MessageView, mode: RunMode)
    requires
        consistent(s),
    ensures
        consistent(step(s, msg, mode).0),
{
    lemma_all_filtered();
    match msg {
        MessageView::Key { key: k, modifiers: m } => {
            if s.visible && !s.show_help {
                match s.vim_mode {
                    VimMode::Normal => lemma_normal_consistent(s, k, m, mode),
                    VimMode::Search => lemma_search_consistent(s, k, m),
                    VimMode::Command => lemma_command_consistent(s, k, m, mode),
                    VimMode::MoveWindow => lemma_move_consistent(s, k, m),
                }
                assert(step(s, msg, mode).0 === crate::app::key_step(s, k, m, mode).0);
                assert(consistent(crate::app::key_step(s, k, m, mode).0));
                assert(consistent(step(s, msg, mode).0));
            } else if s.visible {
                assert(consistent(AppView { show_help: false, ..s }));
                assert(consistent(step(s, msg, mode).0));
            } else {
                assert(step(s, msg, mode).0 === s);
                assert(consistent(step(s, msg, mode).0));
            }
        },
        MessageView::ShowApps => {
            let t = AppView {
                vim_mode: VimMode::Search,
                ..reset(AppView { view_mode: ViewMode::Apps, ..s })
            };
            assert(rows_valid(t));
            assert(consistent(filtered(t)));
        },
        _ => {},
    }
}

proof fn lemma_normal_consistent(s: AppView, k: KeyView, m: Modifiers, mode: RunMode)
    requires
        consistent(s),
        s.vim_mode == VimMode::Normal,
    ensures
        consistent(crate::app::normal_step(s, k, m, mode).0),
{
    lemma_all_filtered();
    let s0 = AppView { count_buf: seq![], ..s };
    assert(consistent(s0));
    assert(consistent(reset(AppView { view_mode: ViewMode::Windows, ..s0 })));
    assert(rows_valid(reset(AppView { view_mode: ViewMode::Apps, ..s0 })));
}

proof fn lemma_search_consistent(s: AppView, k: KeyView, m: Modifiers)
    requires
        consistent(s),
        s.vim_mode == VimMode::Search,
    ensures
        consistent(crate::app::search_step(s, k, m).0),
{
    lemma_all_filtered();
}

proof fn lemma_command_consistent(s: AppView, k: KeyView, m: Modifiers, mode: RunMode)
    requires
        consistent(s),
        s.vim_mode == VimMode::Command,
    ensures
        consistent(crate::app::command_step(s, k, m, mode).0),
{
    let s1 = AppView { cmd: seq![], vim_mode: VimMode::Normal, ..s };
    assert(consistent(s1));
    assert(consistent(closed(s1, mode).0));
}

proof fn lemma_move_consistent(s: AppView, k: KeyView, m: Modifiers)
    requires
        consistent(s),
        s.vim_mode == VimMode::MoveWindow,
    ensures
        consistent(crate::app::move_step(s, k, m).0),
{
}

/// Taking in a fresh window list in the window view keeps the state consistent.
pub proof fn law_windows_loaded_keeps_consistent(s: AppView, windows: Seq<WindowInfo>)
    requires
        consistent(s),
        s.view_mode == ViewMode::Windows,
        windows.len() <= usize::MAX,
    ensures
        consistent(with_windows(s, windows)),
{
    lemma_window_hits(windows, s.query);
    law_window_rows_are_matches(windows, s.query);
}

/// The window list is read again only when the window list is what is shown.
pub proof fn law_refresh_only_in_window_view(s: AppView, msg: MessageView, mode: RunMode)
    requires
        consistent(s),
    ensures
        forall|i: int|
            0 <= i < step(s, msg, mode).1.len() && #[trigger] step(s, msg, mode).1[i]
                == EffectView::RefreshWindows ==> step(s, msg, mode).0.view_mode
                == ViewMode::Windows,
{
}

/// Taking in a fresh app list keeps the selection on the list shown (the
/// rows are kept as they were until the next filtering).
pub proof fn law_apps_loaded_keeps_selection(s: AppView, apps: Seq<DesktopApp>)
    requires
        selection_valid(s),
    ensures
        selection_valid(with_apps(s, apps)),
{
}

/// The state at start-up is consistent.
pub proof fn law_initial_consistent(view: ViewMode, apps: Seq<DesktopApp>)
    requires
        apps.len() <= usize::MAX,
    ensures
        consistent(initial(view, apps)),
{
    lemma_app_hits(apps, seq![]);
    law_app_rows_are_matches(apps, seq![]);
}

/// With a query that lowercases to the empty text (only the empty query
/// does, as `to_lowercase` maps each character to one or more) every app is
/// listed, in order.
pub proof fn law_empty_query_lists_every_app(apps: Seq<DesktopApp>, q: Seq<char>)
    requires
        apps.len() <= usize::MAX + 1,
        lowercase(q).len() == 0,
    ensures
        app_hits(apps, q) == Seq::new(apps.len(), |i: int| i as usize),
    decreases apps.len(),
{
    if apps.len() > 0 {
        law_empty_query_lists_every_app(apps.drop_last(), q);
        assert(Seq::new(apps.drop_last().len(), |i: int| i as usize).push(
            (apps.len() - 1) as usize,
        ) =~= Seq::new(apps.len(), |i: int| i as usize));
    } else {
        assert(Seq::<usize>::empty() =~= Seq::new(0, |i: int| i as usize));
    }
}

/// With a query that lowercases to the empty text (only the empty query
/// does) every window is listed, in order.
pub proof fn law_empty_query_lists_every_window(ws: Seq<WindowInfo>, q: Seq<char>)
    requires
        ws.len() <= usize::MAX + 1,
        lowercase(q).len() == 0,
    ensures
        window_hits(ws, q) == Seq::new(ws.len(), |i: int| i as usize),
    decreases ws.len(),
{
    if ws.len() > 0 {
        law_empty_query_lists_every_window(ws.drop_last(), q);
        assert(Seq::new(ws.drop_last().len(), |i: int| i as usize).push((ws.len() - 1) as usize)
            =~= Seq::new(ws.len(), |i: int| i as usize));
    } else {
        assert(Seq::<usize>::empty() =~= Seq::new(0, |i: int| i as usize));
    }
}

/// Showing the app launcher lists every app, starts in search mode with an
/// empty query, and selects the first row.
pub proof fn law_show_apps_lists_every_app(s: AppView, mode: RunMode)
    requires
        s.all_apps.len() <= usize::MAX,
    ensures
        ({
            let r = step(s, MessageView::ShowApps, mode);
            &&& r.0.visible
            &&& r.0.view_mode == ViewMode::Apps
            &&& r.0.vim_mode == VimMode::Search
            &&& r.0.query.len() == 0
            &&& r.0.selected == 0
            &&& r.0.app_filtered == app_hits(s.all_apps, seq![])
            &&& (lowercase(seq![]).len() == 0 ==> r.0.app_filtered == Seq::new(
                s.all_apps.len(),
                |i: int| i as usize,
            ))
            &&& r.1 == seq![EffectView::ShowSurfaces]
        }),
{
    if lowercase(seq![]).len() == 0 {
        law_empty_query_lists_every_app(s.all_apps, seq![]);
    }
}

/// Closing hides the switcher and clears what was typed; a one-shot run then
/// exits, a daemon hides its surfaces.
pub proof fn law_close(s: AppView, mode: RunMode)
    ensures
        ({
            let r = step(s, MessageView::Close, mode);
            &&& !r.0.visible
            &&& r.0.query.len() == 0
            &&& r.0.cmd.len() == 0
            &&& r.0.vim_mode == VimMode::Normal
            &&& !r.0.show_help
            &&& r.1 == (match mode {
                RunMode::Normal => seq![EffectView::Exit],
                RunMode::Daemon => seq![EffectView::HideSurfaces],
            })
        }),
{
}

/// Typing `:q` and Enter in normal mode closes the switcher.
pub proof fn law_colon_q_closes(s: AppView, mode: RunMode)
    requires
        s.visible,
        !s.show_help,
        s.vim_mode == VimMode::Normal,
    ensures
        ({
            let none = no_modifiers();
            let s1 = step(s, key(KeyView::Character(":"@), none), mode).0;
            let s2 = step(s1, key(KeyView::Character("q"@), none), mode).0;
            let r3 = step(s2, key(KeyView::Named(NamedKey::Enter), none), mode);
            &&& s1.vim_mode == VimMode::Command
            &&& s2.cmd == "q"@
            &&& !r3.0.visible
            &&& r3.1 == closed(s2, mode).1
        }),
{
    reveal_strlit(":");
    reveal_strlit("q");
    reveal_strlit("?");
    reveal_strlit("/");
    reveal_strlit("j");
    reveal_strlit("k");
    reveal_strlit("g");
    reveal_strlit("G");
    reveal_strlit("t");
    let none = no_modifiers();
    let c = KeyView::Character(":"@);
    assert(!crate::app::is_count_digit(s, c, none));
    assert(!crate::app::is_char(c, "?"@));
    assert(!crate::app::is_char(c, "q"@));
    assert(!crate::app::is_char(c, "j"@));
    assert(!crate::app::is_char(c, "k"@));
    assert(!crate::app::is_char(c, "g"@));
    assert(!crate::app::is_char(c, "G"@));
    assert(!crate::app::is_char(c, "/"@));
    assert(!crate::app::is_char(c, "t"@));
    let s1 = step(s, key(c, none), mode).0;
    let s2 = step(s1, key(KeyView::Character("q"@), none), mode).0;
    assert(s2.cmd =~= "q"@);
    assert(crate::text::lead_space("q"@) == 0);
    assert(crate::text::trail_space("q"@) == 0);
    assert(trimmed("q"@) =~= "q"@);
}

// ───────────────────────────── lists ─────────────────────────────

proof fn lemma_app_order_total_preorder()
    ensures
        total_preorder(app_order()),
{
    assert forall|a: DesktopApp, b: DesktopApp| #[trigger] (app_order())(a, b) || (app_order())(
        b,
        a,
    ) by {
        lemma_text_le_total(crate::text::lowercase(a.name@), crate::text::lowercase(b.name@));
    }
    assert forall|a: DesktopApp, b: DesktopApp, c: DesktopApp|
        #[trigger] (app_order())(a, b) && #[trigger] (app_order())(b, c) implies (app_order())(
        a,
        c,
    ) by {
        lemma_text_le_trans(
            crate::text::lowercase(a.name@),
            crate::text::lowercase(b.name@),
            crate::text::lowercase(c.name@),
        );
    }
}

proof fn lemma_dedup(s: Seq<DesktopApp>, le: spec_fn(DesktopApp, DesktopApp) -> bool)
    requires
        sorted_by(s, le),
    ensures
        sorted_by(dedup_names(s), le),
        dedup_names(s).len() <= s.len(),
        s.len() > 0 ==> dedup_names(s).len() > 0 && dedup_names(s).last().name@ == s.last().name@,
        forall|k: int| 0 <= k < dedup_names(s).len() ==> exists|m: int| 0 <= m < s.len() && s[m]
            == #[trigger] dedup_names(s)[k],
        forall|k: int|
            0 <= k < dedup_names(s).len() - 1 ==> #[trigger] dedup_names(s)[k].name@ != dedup_names(
                s,
            )[k + 1].name@,
    decreases s.len(),
{
    if s.len() > 0 {
        let t = s.drop_last();
        assert(sorted_by(t, le));
        lemma_dedup(t, le);
        let r = dedup_names(t);
        let x = s.last();
        let d = dedup_names(s);
        assert forall|k: int| 0 <= k < r.len() implies le(#[trigger] r[k], x) by {
            let m = choose|m: int| 0 <= m < t.len() && t[m] == r[k];
            assert(s[m] == t[m]);
            assert(le(s[m], s[s.len() - 1]));
        }
        assert forall|k: int| 0 <= k < d.len() implies exists|m: int| 0 <= m < s.len() && s[m]
            == #[trigger] d[k] by {
            if k < r.len() {
                let m = choose|m: int| 0 <= m < t.len() && t[m] == r[k];
                assert(s[m] == d[k]);
            } else {
                assert(s[s.len() - 1] == d[k]);
            }
        }
        if r.len() > 0 && r.last().name@ == x.name@ {
        } else {
            assert forall|i: int, j: int| 0 <= i < j < d.len() implies le(
                #[trigger] d[i],
                #[trigger] d[j],
            ) by {
                if j < r.len() {
                    assert(d[i] == r[i] && d[j] == r[j]);
                } else {
                    assert(d[i] == r[i]);
                }
            }
            assert forall|k: int| 0 <= k < d.len() - 1 implies #[trigger] d[k].name@ != d[k
                + 1].name@ by {
                if k + 1 < r.len() {
                    assert(d[k] == r[k] && d[k + 1] == r[k + 1]);
                } else {
                    assert(d[k] == r.last());
                }
            }
        }
    }
}

/// The app list is in order of lowercased name, no two neighbouring apps
/// share a name, and every app listed was among those read.
pub proof fn law_app_list_ordered(apps: Seq<DesktopApp>)
    ensures
        sorted_by(ordered_apps(apps), app_order()),
        forall|k: int|
            0 <= k < ordered_apps(apps).len() - 1 ==> #[trigger] ordered_apps(apps)[k].name@
                != ordered_apps(apps)[k + 1].name@,
        forall|k: int|
            0 <= k < ordered_apps(apps).len() ==> apps.contains(#[trigger] ordered_apps(apps)[k]),
{
    lemma_app_order_total_preorder();
    lemma_stable_sort(apps, app_order());
    let sorted = stable_sort(apps, app_order());
    lemma_dedup(sorted, app_order());
    assert forall|k: int| 0 <= k < ordered_apps(apps).len() implies apps.contains(
        #[trigger] ordered_apps(apps)[k],
    ) by {
        broadcast use vstd::seq_lib::group_to_multiset_ensures;

        let m = choose|m: int| 0 <= m < sorted.len() && sorted[m] == ordered_apps(apps)[k];
        assert(sorted.contains(sorted[m]));
        assert(sorted.to_multiset().count(sorted[m]) > 0);
    }
}

/// The window list is in order of workspace and holds exactly the listed
/// clients (a permutation of them).
pub proof fn law_window_list_ordered(cs: Seq<HyprClient>)
    ensures
        sorted_by(windows_of(cs), workspace_order()),
        windows_of(cs).to_multiset() == listed_windows(cs).to_multiset(),
{
    assert(total_preorder(workspace_order()));
    lemma_stable_sort(listed_windows(cs), workspace_order());
}

// ───────────────────────────── text ─────────────────────────────

proof fn lemma_lead_space_bounds(s: Seq<char>)
    ensures
        lead_space(s) <= s.len(),
        forall|k: int| 0 <= k < lead_space(s) ==> crate::text::is_space(#[trigger] s[k]),
        lead_space(s) < s.len() ==> !crate::text::is_space(s[lead_space(s) as int]),
    decreases s.len(),
{
    if s.len() > 0 && crate::text::is_space(s[0]) {
        let t = s.drop_first();
        lemma_lead_space_bounds(t);
        assert forall|k: int| 0 <= k < lead_space(s) implies crate::text::is_space(
            #[trigger] s[k],
        ) by {
            if k > 0 {
                assert(s[k] == t[k - 1]);
            }
        }
    }
}

proof fn lemma_trail_space_bounds(s: Seq<char>)
    ensures
        trail_space(s) <= s.len(),
        forall|k: int| s.len() - trail_space(s) <= k < s.len() ==> crate::text::is_space(#[trigger] s[k]),
        trail_space(s) < s.len() ==> !crate::text::is_space(s[s.len() - 1 - trail_space(s)]),
    decreases s.len(),
{
    if s.len() > 0 && crate::text::is_space(s.last()) {
        let t = s.drop_last();
        lemma_trail_space_bounds(t);
        assert forall|k: int| s.len() - trail_space(s) <= k < s.len() implies crate::text::is_space(
            #[trigger] s[k],
        ) by {
            if k < s.len() - 1 {
                assert(s[k] == t[k]);
            }
        }
    }
}

/// Trimming a trimmed text changes nothing.
pub proof fn law_trim_idempotent(s: Seq<char>)
    ensures
        trimmed(trimmed(s)) == trimmed(s),
{
    lemma_lead_space_bounds(s);
    lemma_trail_space_bounds(s);
    let t = trimmed(s);
    if lead_space(s) == s.len() {
        assert(lead_space(t) == 0);
    } else {
        let a = lead_space(s) as int;
        let b = trail_space(s) as int;
        assert(b < s.len() - a) by {
            if b >= s.len() - a {
                assert(crate::text::is_space(s[a]));
            }
        }
        assert(t[0] == s[a]);
        assert(t.last() == s[s.len() - 1 - b]);
        assert(lead_space(t) == 0);
        assert(trail_space(t) == 0);
        assert(t.subrange(0, t.len() as int) =~= t);
    }
}

/// A cut label is never longer than the room it is cut for (one character
/// when there is no room), and a label that fits is left as it is.
pub proof fn law_truncate_fits(s: Seq<char>, max: nat)
    ensures
        crate::render::truncated(s, max).len() <= (if max >= 1 {
            max
        } else {
            1
        }),
        s.len() <= max ==> crate::render::truncated(s, max) == s,
{
}

/// A word as `split_whitespace` yields it: not empty, without whitespace.
pub open spec fn plain_word(w: Seq<char>) -> bool {
    w.len() > 0 && forall|i: int| 0 <= i < w.len() ==> !crate::text::is_space(#[trigger] w[i])
}

proof fn lemma_scan_words_plain(s: Seq<char>)
    ensures
        forall|k: int| 0 <= k < word_scan(s).0.len() ==> plain_word(#[trigger] word_scan(s).0[k]),
        forall|i: int|
            0 <= i < word_scan(s).1.len() ==> !crate::text::is_space(#[trigger] word_scan(s).1[i]),
    decreases s.len(),
{
    if s.len() > 0 {
        lemma_scan_words_plain(s.drop_last());
        let p = word_scan(s.drop_last());
        let c = s.last();
        if !crate::text::is_space(c) {
            assert forall|i: int| 0 <= i < p.1.push(c).len() implies !crate::text::is_space(
                #[trigger] p.1.push(c)[i],
            ) by {
                if i < p.1.len() {
                    assert(p.1.push(c)[i] == p.1[i]);
                }
            }
        }
    }
}

proof fn lemma_kept_words(ws: Seq<Seq<char>>)
    requires
        forall|k: int| 0 <= k < ws.len() ==> plain_word(#[trigger] ws[k]),
    ensures
        forall|k: int| 0 <= k < kept_words(ws).len() ==> plain_word(#[trigger] kept_words(ws)[k])
            && !is_field_code(kept_words(ws)[k]),
        (forall|k: int| 0 <= k < ws.len() ==> !is_field_code(#[trigger] ws[k])) ==> kept_words(ws)
            == ws,
    decreases ws.len(),
{
    if ws.len() > 0 {
        let t = ws.drop_last();
        assert forall|k: int| 0 <= k < t.len() implies plain_word(#[trigger] t[k]) by {
            assert(t[k] == ws[k]);
        }
        lemma_kept_words(t);
        let kt = kept_words(t);
        assert(plain_word(ws[ws.len() - 1]));
        assert forall|k: int| 0 <= k < kept_words(ws).len() implies plain_word(
            #[trigger] kept_words(ws)[k],
        ) && !is_field_code(kept_words(ws)[k]) by {
            if k < kt.len() {
                assert(kept_words(ws)[k] == kt[k]);
            }
        }
        if forall|k: int| 0 <= k < ws.len() ==> !is_field_code(#[trigger] ws[k]) {
            assert(forall|k: int| 0 <= k < t.len() ==> !is_field_code(#[trigger] t[k])) by {
                assert forall|k: int| 0 <= k < t.len() implies !is_field_code(#[trigger] t[k]) by {
                    assert(t[k] == ws[k]);
                }
            }
            assert(!is_field_code(ws[ws.len() - 1]));
            assert(t.push(ws.last()) =~= ws);
        }
    }
}

proof fn lemma_scan_append_word(x: Seq<char>, w: Seq<char>)
    requires
        forall|i: int| 0 <= i < w.len() ==> !crate::text::is_space(#[trigger] w[i]),
    ensures
        word_scan(x + w) == (word_scan(x).0, word_scan(x).1 + w),
    decreases w.len(),
{
    if w.len() == 0 {
        assert(x + w =~= x);
        assert(word_scan(x).1 + w =~= word_scan(x).1);
    } else {
        let v = w.drop_last();
        assert forall|i: int| 0 <= i < v.len() implies !crate::text::is_space(#[trigger] v[i]) by {
            assert(v[i] == w[i]);
        }
        lemma_scan_append_word(x, v);
        assert((x + w).drop_last() =~= x + v);
        assert((x + w).last() == w.last());
        assert(!crate::text::is_space(w[w.len() - 1]));
        assert((word_scan(x).1 + v).push(w.last()) =~= word_scan(x).1 + w);
    }
}

proof fn lemma_words_of_joined(ws: Seq<Seq<char>>)
    requires
        forall|k: int| 0 <= k < ws.len() ==> plain_word(#[trigger] ws[k]),
    ensures
        words(joined(ws)) == ws,
        ws.len() > 0 ==> word_scan(joined(ws)).1 == ws.last(),
        ws.len() > 0 ==> word_scan(joined(ws)).0 == ws.drop_last(),
    decreases ws.len(),
{
    if ws.len() == 0 {
        assert(joined(ws) =~= Seq::<char>::empty());
    } else if ws.len() == 1 {
        let w = ws[0];
        assert(plain_word(w));
        lemma_scan_append_word(Seq::<char>::empty(), w);
        assert(Seq::<char>::empty() + w =~= w);
        assert(seq![w] =~= ws);
        assert(ws.drop_last() =~= Seq::<Seq<char>>::empty());
    } else {
        let t = ws.drop_last();
        let w = ws.last();
        assert(plain_word(ws[ws.len() - 1]));
        assert forall|k: int| 0 <= k < t.len() implies plain_word(#[trigger] t[k]) by {
            assert(t[k] == ws[k]);
        }
        lemma_words_of_joined(t);
        let jt = joined(t);
        let x = jt + seq![' '];
        assert(x.drop_last() =~= jt);
        assert(crate::text::is_space(x.last()));
        assert(word_scan(x).0 == t);
        assert(word_scan(x).1 =~= Seq::<char>::empty());
        lemma_scan_append_word(x, w);
        assert(joined(ws) == x + w);
        assert(Seq::<char>::empty() + w =~= w);
        assert(t.push(w) =~= ws);
    }
}

/// Cleaning a cleaned command line changes nothing.
pub proof fn law_clean_exec_idempotent(s: Seq<char>)
    ensures
        cleaned_exec(cleaned_exec(s)) == cleaned_exec(s),
{
    lemma_scan_words_plain(s);
    let ws = words(s);
    assert forall|k: int| 0 <= k < ws.len() implies plain_word(#[trigger] ws[k]) by {
        let p = word_scan(s);
        if k < p.0.len() {
            assert(ws[k] == p.0[k]);
        } else {
            assert(ws[k] == p.1);
        }
    }
    lemma_kept_words(ws);
    let kw = kept_words(ws);
    lemma_words_of_joined(kw);
    lemma_kept_words(kw);
}

// ───────────────────────────── filtering ─────────────────────────────

/// The rows of the app list are exactly the positions of the apps that match
/// the query, in increasing order.
pub proof fn law_app_rows_are_matches(apps: Seq<DesktopApp>, q: Seq<char>)
    requires
        apps.len() <= usize::MAX + 1,
    ensures
        forall|i: int|
            0 <= i < apps.len() ==> (app_hits(apps, q).contains(i as usize)
                <==> crate::app::app_matches(#[trigger] apps[i], q)),
        forall|a: int, b: int|
            0 <= a < b < app_hits(apps, q).len() ==> app_hits(apps, q)[a] < app_hits(apps, q)[b],
    decreases apps.len(),
{
    if apps.len() > 0 {
        let t = apps.drop_last();
        law_app_rows_are_matches(t, q);
        lemma_app_hits(t, q);
        let r = app_hits(t, q);
        let last = (apps.len() - 1) as usize;
        assert forall|i: int| 0 <= i < apps.len() implies (app_hits(apps, q).contains(i as usize)
            <==> crate::app::app_matches(#[trigger] apps[i], q)) by {
            if i < apps.len() - 1 {
                assert(apps[i] == t[i]);
                if app_hits(apps, q).contains(i as usize) {
                    let k = choose|k: int| 0 <= k < app_hits(apps, q).len() && app_hits(apps, q)[k]
                        == i as usize;
                    if k < r.len() {
                        assert(r[k] == i as usize);
                    }
                }
                if r.contains(i as usize) {
                    let k = choose|k: int| 0 <= k < r.len() && r[k] == i as usize;
                    assert(app_hits(apps, q)[k] == i as usize);
                }
            } else {
                if app_hits(apps, q).contains(i as usize) {
                    let k = choose|k: int| 0 <= k < app_hits(apps, q).len() && app_hits(apps, q)[k]
                        == i as usize;
                    if k < r.len() {
                        assert(r[k] < t.len());
                    }
                }
                if crate::app::app_matches(apps[i], q) {
                    assert(app_hits(apps, q)[r.len() as int] == last);
                }
            }
        }
    }
}

/// The rows of the window list are exactly the positions of the windows that
/// match the query, in increasing order.
pub proof fn law_window_rows_are_matches(ws: Seq<WindowInfo>, q: Seq<char>)
    requires
        ws.len() <= usize::MAX + 1,
    ensures
        forall|i: int|
            0 <= i < ws.len() ==> (window_hits(ws, q).contains(i as usize)
                <==> crate::app::window_matches(#[trigger] ws[i], q)),
        forall|a: int, b: int|
            0 <= a < b < window_hits(ws, q).len() ==> window_hits(ws, q)[a] < window_hits(ws, q)[b],
    decreases ws.len(),
{
    if ws.len() > 0 {
        let t = ws.drop_last();
        law_window_rows_are_matches(t, q);
        lemma_window_hits(t, q);
        let r = window_hits(t, q);
        let last = (ws.len() - 1) as usize;
        assert forall|i: int| 0 <= i < ws.len() implies (window_hits(ws, q).contains(i as usize)
            <==> crate::app::window_matches(#[trigger] ws[i], q)) by {
            if i < ws.len() - 1 {
                assert(ws[i] == t[i]);
                if window_hits(ws, q).contains(i as usize) {
                    let k = choose|k: int| 0 <= k < window_hits(ws, q).len() && window_hits(ws, q)[k]
                        == i as usize;
                    if k < r.len() {
                        assert(r[k] == i as usize);
                    }
                }
                if r.contains(i as usize) {
                    let k = choose|k: int| 0 <= k < r.len() && r[k] == i as usize;
                    assert(window_hits(ws, q)[k] == i as usize);
                }
            } else {
                if window_hits(ws, q).contains(i as usize) {
                    let k = choose|k: int| 0 <= k < window_hits(ws, q).len() && window_hits(ws, q)[k]
                        == i as usize;
                    if k < r.len() {
                        assert(r[k] < t.len());
                    }
                }
                if crate::app::window_matches(ws[i], q) {
                    assert(window_hits(ws, q)[r.len() as int] == last);
                }
            }
        }
    }
}

/// A text found in a text found in `a` is found in `a`.
pub proof fn lemma_contains_trans(a: Seq<char>, b: Seq<char>, c: Seq<char>)
    requires
        contains_seq(a, b),
        contains_seq(b, c),
    ensures
        contains_seq(a, c),
{
    let i = choose|i: int| occurs_at(a, b, i);
    let j = choose|j: int| occurs_at(b, c, j);
    assert(a.subrange(i + j, i + j + c.len()) =~= b.subrange(j, j + c.len()));
    assert(occurs_at(a, c, i + j));
}

/// Narrowing the query never adds a row to the app list: when the lowercased
/// new query contains the lowercased old one, every row for the new query is
/// a row for the old one (both lists being increasing, the new list is a
/// subsequence of the old).
pub proof fn law_narrowing_query_keeps_app_rows(apps: Seq<DesktopApp>, q1: Seq<char>, q2: Seq<char>)
    requires
        apps.len() <= usize::MAX,
        contains_seq(lowercase(q2), lowercase(q1)),
    ensures
        forall|k: int|
            0 <= k < app_hits(apps, q2).len() ==> app_hits(apps, q1).contains(
                #[trigger] app_hits(apps, q2)[k],
            ),
{
    law_app_rows_are_matches(apps, q1);
    law_app_rows_are_matches(apps, q2);
    lemma_app_hits(apps, q2);
    assert forall|k: int| 0 <= k < app_hits(apps, q2).len() implies app_hits(apps, q1).contains(
        #[trigger] app_hits(apps, q2)[k],
    ) by {
        let x = app_hits(apps, q2)[k];
        let i = x as int;
        assert(app_hits(apps, q2).contains(x));
        assert(i as usize == x);
        let a = apps[i];
        assert(crate::app::app_matches(a, q2));
        if lowercase(q2).len() == 0 {
            let j = choose|j: int| occurs_at(lowercase(q2), lowercase(q1), j);
            assert(lowercase(q1).len() == 0);
        } else {
            lemma_contains_trans(lowercase(a.name@), lowercase(q2), lowercase(q1));
        }
        assert(crate::app::app_matches(a, q1));
    }
}

/// Narrowing the query never adds a row to the window list.
pub proof fn law_narrowing_query_keeps_window_rows(
    ws: Seq<WindowInfo>,
    q1: Seq<char>,
    q2: Seq<char>,
)
    requires
        ws.len() <= usize::MAX,
        contains_seq(lowercase(q2), lowercase(q1)),
    ensures
        forall|k: int|
            0 <= k < window_hits(ws, q2).len() ==> window_hits(ws, q1).contains(
                #[trigger] window_hits(ws, q2)[k],
            ),
{
    law_window_rows_are_matches(ws, q1);
    law_window_rows_are_matches(ws, q2);
    lemma_window_hits(ws, q2);
    assert forall|k: int| 0 <= k < window_hits(ws, q2).len() implies window_hits(ws, q1).contains(
        #[trigger] window_hits(ws, q2)[k],
    ) by {
        let x = window_hits(ws, q2)[k];
        let i = x as int;
        assert(window_hits(ws, q2).contains(x));
        assert(i as usize == x);
        let w = ws[i];
        assert(crate::app::window_matches(w, q2));
        if lowercase(q2).len() == 0 {
            let j = choose|j: int| occurs_at(lowercase(q2), lowercase(q1), j);
            assert(lowercase(q1).len() == 0);
        } else if contains_seq(lowercase(w.title@), lowercase(q2)) {
            lemma_contains_trans(lowercase(w.title@), lowercase(q2), lowercase(q1));
        } else {
            lemma_contains_trans(lowercase(w.class@), lowercase(q2), lowercase(q1));
        }
        assert(crate::app::window_matches(w, q1));
    }
}

/// Filtering two states that differ only in the query, where the lowercased
/// second query contains the lowercased first: every row of the list shown
/// for the second is a row for the first.
pub proof fn law_narrowing_query_filter(s: AppView, q1: Seq<char>, q2: Seq<char>)
    requires
        sizes_fit(s),
        contains_seq(lowercase(q2), lowercase(q1)),
    ensures
        ({
            let f1 = filtered(AppView { query: q1, ..s });
            let f2 = filtered(AppView { query: q2, ..s });
            match s.view_mode {
                ViewMode::Apps => forall|k: int|
                    0 <= k < f2.app_filtered.len() ==> f1.app_filtered.contains(
                        #[trigger] f2.app_filtered[k],
                    ),
                ViewMode::Windows => forall|k: int|
                    0 <= k < f2.win_filtered.len() ==> f1.win_filtered.contains(
                        #[trigger] f2.win_filtered[k],
                    ),
            }
        }),
{
    law_narrowing_query_keeps_app_rows(s.all_apps, q1, q2);
    law_narrowing_query_keeps_window_rows(s.windows, q1, q2);
}

// ───────────────────────────── acting on the selected row ─────────────────────────────

/// The effect that closing has in each run mode.
pub open spec fn close_effect(mode: RunMode) -> EffectView {
    match mode {
        RunMode::Normal => EffectView::Exit,
        RunMode::Daemon => EffectView::HideSurfaces,
    }
}

/// Enter (without Shift) in normal mode in the app view launches the command
/// of the app shown on the selected row of the filtered list, then closes.
pub proof fn law_enter_launches_selected_app(s: AppView, m: Modifiers, mode: RunMode)
    requires
        s.visible,
        !s.show_help,
        s.vim_mode == VimMode::Normal,
        s.view_mode == ViewMode::Apps,
        !m.shift,
        s.selected < s.app_filtered.len(),
    ensures
        step(s, key(KeyView::Named(NamedKey::Enter), m), mode).1 == seq![
            EffectView::Launch(s.all_apps[s.app_filtered[s.selected as int] as int].command@),
            close_effect(mode),
        ],
        !step(s, key(KeyView::Named(NamedKey::Enter), m), mode).0.visible,
{
    let r = step(s, key(KeyView::Named(NamedKey::Enter), m), mode);
    assert(r.1 =~= seq![
        EffectView::Launch(s.all_apps[s.app_filtered[s.selected as int] as int].command@),
        close_effect(mode),
    ]);
}

/// Enter (without Shift) in normal mode in the window view goes to the
/// workspace of the window shown on the selected row and focuses it, then closes.
pub proof fn law_enter_goes_to_selected_window(s: AppView, m: Modifiers, mode: RunMode)
    requires
        s.visible,
        !s.show_help,
        s.vim_mode == VimMode::Normal,
        s.view_mode == ViewMode::Windows,
        !m.shift,
        s.selected < s.win_filtered.len(),
    ensures
        ({
            let w = s.windows[s.win_filtered[s.selected as int] as int];
            step(s, key(KeyView::Named(NamedKey::Enter), m), mode).1 == seq![
                EffectView::Dispatch(seq!["workspace"@, signed_decimal(w.workspace_id as int)]),
                EffectView::Dispatch(seq!["focuswindow"@, "address:"@ + w.address@]),
                close_effect(mode),
            ]
        }),
{
    let w = s.windows[s.win_filtered[s.selected as int] as int];
    let r = step(s, key(KeyView::Named(NamedKey::Enter), m), mode);
    assert(r.1 =~= seq![
        EffectView::Dispatch(seq!["workspace"@, signed_decimal(w.workspace_id as int)]),
        EffectView::Dispatch(seq!["focuswindow"@, "address:"@ + w.address@]),
        close_effect(mode),
    ]);
}

/// Enter in move-window mode, with a buffer that reads as workspace `n`,
/// moves the window shown on the selected row of the filtered list to
/// workspace `n`, then reads the window list again.
pub proof fn law_move_moves_selected_window(s: AppView, m: Modifiers, mode: RunMode, n: i64)
    requires
        s.visible,
        !s.show_help,
        s.vim_mode == VimMode::MoveWindow,
        parsed_i64(trimmed(s.move_buf)) == Some(n),
        s.selected < s.win_filtered.len(),
    ensures
        ({
            let w = s.windows[s.win_filtered[s.selected as int] as int];
            let r = step(s, key(KeyView::Named(NamedKey::Enter), m), mode);
            &&& r.1 == seq![
                EffectView::Dispatch(
                    seq!["movetoworkspace"@, signed_decimal(n as int) + ",address:"@ + w.address@],
                ),
                EffectView::RefreshWindows,
            ]
            &&& r.0.vim_mode == VimMode::Normal
            &&& r.0.move_buf.len() == 0
        }),
{
}

// ───────────────────────────── launching ─────────────────────────────

/// A launch outcome that runs the switcher in `mode`, with no view chosen.
pub open spec fn runs_plain(l: crate::cli::Launch, mode: RunMode) -> bool {
    l == crate::cli::Launch::Run { mode, view: None }
}

/// A launch outcome that runs the switcher as the daemon.
pub open spec fn runs_daemon(l: crate::cli::Launch) -> bool {
    l matches crate::cli::Launch::Run { mode: RunMode::Daemon, .. }
}

/// Without options the program runs once, in normal mode, with the default
/// view, whether or not a daemon answered.
pub proof fn law_no_options_runs_once(daemon_answered: bool)
    ensures
        runs_plain(
            crate::cli::launch_of(crate::cli::plan_of(crate::cli::no_options()), daemon_answered),
            RunMode::Normal,
        ),
        crate::cli::parsed_args(Seq::empty()) == Ok::<crate::cli::ArgsView, crate::cli::ArgErrorView>(crate::cli::no_options()),
{
}

/// The daemon is started only when `--daemon` is the deciding option
/// (no help, reload, windows or apps option) and no daemon answered.
pub proof fn law_daemon_only_on_request(a: crate::cli::ArgsView, daemon_answered: bool)
    ensures
        runs_daemon(crate::cli::launch_of(crate::cli::plan_of(a), daemon_answered)) ==> (a.daemon_mode
            && !a.help && !a.reload && !a.show_windows && !a.show_apps && !daemon_answered),
{
}

// ───────────────────────────── text order ─────────────────────────────

/// `a` comes before `b` in the order of `str`: `a` is a prefix of `b`, or at
/// the first position where they differ `a` has the smaller code point.
pub open spec fn lexicographic_le(a: Seq<char>, b: Seq<char>) -> bool {
    ||| (a.len() <= b.len() && b.take(a.len() as int) == a)
    ||| exists|k: int|
        0 <= k < a.len() && k < b.len() && a.take(k) == b.take(k) && (a[k] as u32) < (
        b[k] as u32)
}

/// The order of the app list is the lexicographic order of `str`.
pub proof fn law_text_order_is_lexicographic(a: Seq<char>, b: Seq<char>)
    ensures
        crate::order::text_le(a, b) <==> lexicographic_le(a, b),
    decreases a.len(),
{
    if a.len() == 0 {
        assert(b.take(0) =~= a);
    } else if b.len() == 0 {
        if lexicographic_le(a, b) {
            assert(false);
        }
    } else if (a[0] as u32) < (b[0] as u32) {
        assert(a.take(0) =~= b.take(0));
    } else if (a[0] as u32) > (b[0] as u32) {
        if lexicographic_le(a, b) {
            if a.len() <= b.len() && b.take(a.len() as int) == a {
                assert(b.take(a.len() as int)[0] == b[0]);
            } else {
                let k = choose|k: int|
                    0 <= k < a.len() && k < b.len() && a.take(k) == b.take(k) && (a[k] as u32) < (
                    b[k] as u32);
                if k > 0 {
                    assert(a.take(k)[0] == b.take(k)[0]);
                }
            }
        }
    } else {
        let a1 = a.drop_first();
        let b1 = b.drop_first();
        law_text_order_is_lexicographic(a1, b1);
        vstd::utf8::char_u32_cast(a[0], a[0] as u32);
        vstd::utf8::char_u32_cast(b[0], b[0] as u32);
        assert(a[0] == b[0]);
        if lexicographic_le(a1, b1) {
            if a1.len() <= b1.len() && b1.take(a1.len() as int) == a1 {
                assert(b.take(a.len() as int) =~= seq![b[0]] + b1.take(a1.len() as int));
                assert(a =~= seq![a[0]] + a1);
            } else {
                let k = choose|k: int|
                    0 <= k < a1.len() && k < b1.len() && a1.take(k) == b1.take(k) && (a1[k] as u32)
                        < (b1[k] as u32);
                assert(a.take(k + 1) =~= seq![a[0]] + a1.take(k));
                assert(b.take(k + 1) =~= seq![b[0]] + b1.take(k));
                assert(a[k + 1] == a1[k]);
                assert(b[k + 1] == b1[k]);
            }
        }
        if lexicographic_le(a, b) {
            if a.len() <= b.len() && b.take(a.len() as int) == a {
                assert(b1.take(a1.len() as int) =~= b.take(a.len() as int).drop_first());
            } else {
                let k = choose|k: int|
                    0 <= k < a.len() && k < b.len() && a.take(k) == b.take(k) && (a[k] as u32) < (
                    b[k] as u32);
                assert(k > 0);
                assert(a1.take(k - 1) =~= a.take(k).drop_first());
                assert(b1.take(k - 1) =~= b.take(k).drop_first());
                assert(a1[k - 1] == a[k]);
                assert(b1[k - 1] == b[k]);
            }
        }
    }
}

/// A text comes before every longer text it is a prefix of, and never after.
pub proof fn law_prefix_comes_first(a: Seq<char>, b: Seq<char>)
    ensures
        crate::order::text_le(a, a + b),
        b.len() > 0 ==> !crate::order::text_le(a + b, a),
{
    law_text_order_is_lexicographic(a, a + b);
    assert((a + b).take(a.len() as int) =~= a);
    law_text_order_is_lexicographic(a + b, a);
    if b.len() > 0 && lexicographic_le(a + b, a) {
        if (a + b).len() <= a.len() {
        } else {
            let k = choose|k: int|
                0 <= k < (a + b).len() && k < a.len() && (a + b).take(k) == a.take(k) && ((a
                    + b)[k] as u32) < (a[k] as u32);
            assert((a + b)[k] == a[k]);
        }
    }
}

/// In the app list, an app whose lowercased name is a proper prefix of
/// another's lowercased name comes before it.
pub proof fn law_app_list_prefix_first(apps: Seq<DesktopApp>, i: int, j: int, rest: Seq<char>)
    requires
        0 <= i < j < ordered_apps(apps).len(),
        rest.len() > 0,
    ensures
        lowercase(ordered_apps(apps)[i].name@) != lowercase(ordered_apps(apps)[j].name@) + rest,
{
    law_app_list_ordered(apps);
    let x = ordered_apps(apps)[i];
    let y = ordered_apps(apps)[j];
    assert((app_order())(x, y));
    law_prefix_comes_first(lowercase(y.name@), rest);
}

// ───────────────────────────── desktop entries ─────────────────────────────

/// Only a line that is exactly `NoDisplay=true` or `Type=Directory` hides
/// an entry: whatever else the lines say (`NoDisplay=false` among them),
/// an entry that holds neither line is not hidden.
pub proof fn law_hidden_only_by_marker_lines(ls: Seq<Seq<char>>)
    ensures
        scan_lines(ls).hidden ==> exists|k: int|
            0 <= k < ls.len() && (#[trigger] ls[k] == "NoDisplay=true"@ || ls[k]
                == "Type=Directory"@),
    decreases ls.len(),
{
    if ls.len() > 0 {
        let t = ls.drop_last();
        law_hidden_only_by_marker_lines(t);
        if scan_lines(ls).hidden {
            if scan_lines(t).hidden {
                let k = choose|k: int|
                    0 <= k < t.len() && (#[trigger] t[k] == "NoDisplay=true"@ || t[k]
                        == "Type=Directory"@);
                assert(ls[k] == t[k]);
            } else {
                assert(ls[ls.len() - 1] == "NoDisplay=true"@ || ls[ls.len() - 1]
                    == "Type=Directory"@);
            }
        }
    }
}

/// A line that neither opens a section nor is one of the hiding lines.
pub open spec fn plain_line(l: Seq<char>) -> bool {
    &&& (l.len() == 0 || l[0] != '[')
    &&& l != "NoDisplay=true"@
    &&& l != "Type=Directory"@
}

/// The state after the `[Desktop Entry]`, `Name=` and `Exec=` lines.
pub open spec fn named_entry(n: Seq<char>, e: Seq<char>) -> EntryScan {
    EntryScan { name: Some(n), command: Some(crate::data::cleaned_exec(e)), hidden: false, in_entry: true }
}

proof fn lemma_plain_lines_keep(n: Seq<char>, e: Seq<char>, p: Seq<Seq<char>>, rest: Seq<Seq<char>>)
    requires
        scan_lines(p) == named_entry(n, e),
        forall|k: int| 0 <= k < rest.len() ==> plain_line(#[trigger] rest[k]),
    ensures
        scan_lines(p + rest) == named_entry(n, e),
    decreases rest.len(),
{
    reveal_strlit("[Desktop Entry]");
    if rest.len() == 0 {
        assert(p + rest =~= p);
    } else {
        let t = rest.drop_last();
        assert forall|k: int| 0 <= k < t.len() implies plain_line(#[trigger] t[k]) by {
            assert(t[k] == rest[k]);
        }
        lemma_plain_lines_keep(n, e, p, t);
        assert((p + rest).drop_last() =~= p + t);
        let l = rest.last();
        assert(plain_line(rest[rest.len() - 1]));
        assert(l != "[Desktop Entry]"@) by {
            if l == "[Desktop Entry]"@ {
                assert(l[0] == '[');
            }
        }
        assert(scan_line(named_entry(n, e), l) == named_entry(n, e));
    }
}

/// An entry whose `[Desktop Entry]` section starts with a `Name=` line and an
/// `Exec=` line, and whose other lines open no section and are not hiding
/// lines, declares that name and that command line without its field codes.
pub proof fn law_entry_with_name_and_exec(n: Seq<char>, e: Seq<char>, rest: Seq<Seq<char>>)
    requires
        forall|k: int| 0 <= k < rest.len() ==> plain_line(#[trigger] rest[k]),
    ensures
        entry_of_lines(seq!["[Desktop Entry]"@, "Name="@ + n, "Exec="@ + e] + rest) == Some(
            (n, crate::data::cleaned_exec(e)),
        ),
{
    reveal_strlit("[Desktop Entry]");
    reveal_strlit("Name=");
    reveal_strlit("Exec=");
    reveal_strlit("NoDisplay=true");
    reveal_strlit("Type=Directory");
    let l0 = "[Desktop Entry]"@;
    let l1 = "Name="@ + n;
    let l2 = "Exec="@ + e;
    let p = seq![l0, l1, l2];
    let s0 = EntryScan { name: None, command: None, hidden: false, in_entry: false };
    assert(seq![l0].drop_last() =~= Seq::<Seq<char>>::empty());
    assert(seq![l0, l1].drop_last() =~= seq![l0]);
    assert(p.drop_last() =~= seq![l0, l1]);
    assert(scan_lines(seq![l0].drop_last()) == s0);
    assert(seq![l0].last() == l0);
    let s1 = scan_lines(seq![l0]);
    assert(s1 == scan_line(s0, l0));
    assert(s1 == EntryScan { in_entry: true, ..s0 });
    assert(l1[0] == 'N');
    assert(l1 != l0) by {
        assert(l0[0] == '[');
    }
    assert(l1.take(5) =~= "Name="@);
    assert(l1.skip(5) =~= n);
    let s2 = scan_lines(seq![l0, l1]);
    assert(s2 == EntryScan { name: Some(n), ..s1 });
    assert(l2[0] == 'E');
    assert(l2 != l0) by {
        assert(l0[0] == '[');
    }
    assert(!crate::data::has_prefix(l2, "Name="@)) by {
        if crate::data::has_prefix(l2, "Name="@) {
            assert(l2.take(5)[0] == 'E');
        }
    }
    assert(l2.take(5) =~= "Exec="@);
    assert(l2.skip(5) =~= e);
    assert(scan_lines(p) == named_entry(n, e));
    lemma_plain_lines_keep(n, e, p, rest);
}

} // verus!
