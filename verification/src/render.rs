//! The texts that the switcher draws: rows with line numbers, the title and
//! the vim-style status line.
use vstd::prelude::*;

use crate::app::{items_len, App, AppView, ViewMode, VimMode};
use crate::data::{DesktopApp, WindowInfo};
use crate::text::{chars_of, decimal, push_char, push_decimal, push_text, signed_decimal};

verus! {

broadcast use vstd::string::group_string_axioms;

/// How rows are numbered.
#[derive(Debug, Clone, Copy, PartialEq, Eq, Structural)]
pub enum LineNumbers {
    /// The selected row shows its number, the others their distance to it.
    Relative,
    /// Every row shows its 1-based number.
    Absolute,
    /// No numbers.
    Hidden,
}

/// How many characters of a label fit in a window `width` pixels wide.
pub open spec fn label_room(width: u32) -> nat {
    if width >= 100 {
        ((width - 100) / 8) as nat
    } else {
        0
    }
}

pub fn max_label_chars(width: u32) -> (r: usize)
    ensures
        r == label_room(width),
{
    let w = width as usize;
    let free: usize = if w >= 100 {
        w - 100
    } else {
        0
    };
    free / 8
}

/// Width of the number column: the digits of the row count (1 for no rows).
pub open spec fn number_width_of(total: nat) -> nat {
    if total > 0 {
        decimal(total).len()
    } else {
        1
    }
}

pub fn number_width(total: usize) -> (r: usize)
    ensures
        r == number_width_of(total as nat),
{
    if total > 0 {
        let v = chars_of(crate::text::usize_text(total).as_str());
        v.len()
    } else {
        1
    }
}

/// `s` right-aligned in a field of `w` characters, as `{:>w$}` formats it.
pub open spec fn padded(s: Seq<char>, w: nat) -> Seq<char> {
    if s.len() >= w {
        s
    } else {
        Seq::new((w - s.len()) as nat, |i: int| ' ') + s
    }
}

/// The distance between two rows.
pub open spec fn distance(a: nat, b: nat) -> nat {
    if a >= b {
        (a - b) as nat
    } else {
        (b - a) as nat
    }
}

/// The number shown in front of row `i` (0-based) when row `selected` is
/// selected, followed by a space; nothing when numbers are hidden.
pub open spec fn line_number_text(style: LineNumbers, i: nat, selected: nat, w: nat) -> Seq<char> {
    match style {
        LineNumbers::Hidden => seq![],
        LineNumbers::Absolute => padded(decimal(i + 1), w) + seq![' '],
        LineNumbers::Relative => if i == selected {
            padded(decimal(i + 1), w) + seq![' ']
        } else {
            padded(decimal(distance(i, selected)), w) + seq![' ']
        },
    }
}

fn push_padded(out: &mut String, n: usize, w: usize)
    ensures
        final(out)@ == old(out)@ + padded(decimal(n as nat), w as nat),
{
    let digits = chars_of(crate::text::usize_text(n).as_str());
    let ghost start = out@;
    let ghost d = decimal(n as nat);
    if digits.len() < w {
        let fill = w - digits.len();
        let mut k: usize = 0;
        while k < fill
            invariant
                k <= fill,
                fill == w - digits.len(),
                out@ == start + Seq::new(k as nat, |i: int| ' '),
            decreases fill - k,
        {
            push_char(out, ' ');
            k += 1;
            assert(Seq::new(k as nat, |i: int| ' ') =~= Seq::new((k - 1) as nat, |i: int| ' ').push(
                ' ',
            ));
        }
    }
    let ghost mid = out@;
    let mut j: usize = 0;
    while j < digits.len()
        invariant
            j <= digits.len(),
            digits@ == d,
            out@ == mid + d.take(j as int),
        decreases digits.len() - j,
    {
        push_char(out, digits[j]);
        j += 1;
        assert(d.take(j as int) =~= d.take(j - 1).push(d[j - 1]));
    }
    assert(d.take(digits.len() as int) =~= d);
    assert(out@ =~= start + padded(d, w as nat));
}

/// The line number in front of row `i`.
pub fn line_number(style: LineNumbers, i: usize, selected: usize, w: usize) -> (r: String)
    requires
        i < isize::MAX,
        selected <= isize::MAX,
    ensures
        r@ == line_number_text(style, i as nat, selected as nat, w as nat),
{
    let mut out = String::new();
    match style {
        LineNumbers::Hidden => {},
        LineNumbers::Absolute => {
            push_padded(&mut out, i + 1, w);
            push_char(&mut out, ' ');
        },
        LineNumbers::Relative => {
            if i == selected {
                push_padded(&mut out, i + 1, w);
            } else {
                let d = if i >= selected {
                    i - selected
                } else {
                    selected - i
                };
                push_padded(&mut out, d, w);
            }
            push_char(&mut out, ' ');
        },
    }
    out
}

/// `s` cut to at most `max` characters: a longer text keeps its first
/// `max - 1` characters and ends in `…`.
pub open spec fn truncated(s: Seq<char>, max: nat) -> Seq<char> {
    if s.len() <= max {
        s
    } else {
        s.take(if max >= 1 {
            max - 1
        } else {
            0
        }) + seq!['\u{2026}']
    }
}

/// The label cut to fit `max` characters.
pub fn truncate(s: &str, max: usize) -> (r: String)
    ensures
        r@ == truncated(s@, max as nat),
{
    let v = chars_of(s);
    if v.len() <= max {
        return s.to_owned();
    }
    let keep: usize = if max >= 1 {
        max - 1
    } else {
        0
    };
    let mut out = String::new();
    let mut i: usize = 0;
    while i < keep
        invariant
            i <= keep,
            keep < v.len(),
            v@ == s@,
            out@ == v@.take(i as int),
        decreases keep - i,
    {
        push_char(&mut out, v[i]);
        i += 1;
        assert(v@.take(i as int) =~= v@.take(i - 1).push(v@[i - 1]));
    }
    push_char(&mut out, '\u{2026}');
    out
}

/// The two texts of a row: the line number, and the cursor (`>` on the
/// selected row) with the label.
pub open spec fn row_texts_of(style: LineNumbers, i: nat, selected: nat, w: nat, label: Seq<char>) -> (
    Seq<char>,
    Seq<char>,
) {
    (
        seq![' '] + line_number_text(style, i, selected, w),
        seq![if i == selected {
            '>'
        } else {
            ' '
        }, ' '] + label,
    )
}

pub fn row_texts(style: LineNumbers, i: usize, selected: usize, w: usize, label: &str) -> (r: (
    String,
    String,
))
    requires
        i < isize::MAX,
        selected <= isize::MAX,
    ensures
        (r.0@, r.1@) == row_texts_of(style, i as nat, selected as nat, w as nat, label@),
{
    let mut num = String::new();
    push_char(&mut num, ' ');
    let ln = line_number(style, i, selected, w);
    push_text(&mut num, ln.as_str());
    let mut text = String::new();
    push_char(
        &mut text,
        if i == selected {
            '>'
        } else {
            ' '
        },
    );
    push_char(&mut text, ' ');
    push_text(&mut text, label);
    assert(text@ =~= seq![if i == selected {
        '>'
    } else {
        ' '
    }, ' '] + label@);
    (num, text)
}

/// The workspace column of a window row: `sp` for a special (negative) workspace.
pub open spec fn workspace_label(id: i64) -> Seq<char> {
    if id < 0 {
        "sp"@
    } else {
        signed_decimal(id as int)
    }
}

/// `[<workspace>] <class> | <title>`, cut to `max` characters.
pub open spec fn window_label_of(w: WindowInfo, max: nat) -> Seq<char> {
    truncated(
        "["@ + workspace_label(w.workspace_id) + "] "@ + w.class@ + " | "@ + w.title@,
        max,
    )
}

pub fn window_label(w: &WindowInfo, max: usize) -> (r: String)
    ensures
        r@ == window_label_of(*w, max as nat),
{
    let mut s = String::new();
    push_text(&mut s, "[");
    if w.workspace_id < 0 {
        push_text(&mut s, "sp");
    } else {
        push_decimal(&mut s, w.workspace_id as u64);
    }
    push_text(&mut s, "] ");
    push_text(&mut s, w.class.as_str());
    push_text(&mut s, " | ");
    push_text(&mut s, w.title.as_str());
    truncate(s.as_str(), max)
}

/// An app row shows the app's name, cut to `max` characters.
pub fn app_label(a: &DesktopApp, max: usize) -> (r: String)
    ensures
        r@ == truncated(a.name@, max as nat),
{
    truncate(a.name.as_str(), max)
}

pub open spec fn mode_label(v: ViewMode) -> Seq<char> {
    match v {
        ViewMode::Windows => "WIN"@,
        ViewMode::Apps => "APP"@,
    }
}

/// The title line: `─── <APP|WIN> (<rows>) ───`.
pub open spec fn title_of(v: ViewMode, count: nat) -> Seq<char> {
    "\u{2500}\u{2500}\u{2500} "@ + mode_label(v) + " ("@ + decimal(count) + ") \u{2500}\u{2500}\u{2500}"@
}

fn push_mode_label(out: &mut String, v: ViewMode)
    ensures
        final(out)@ == old(out)@ + mode_label(v),
{
    match v {
        ViewMode::Windows => push_text(out, "WIN"),
        ViewMode::Apps => push_text(out, "APP"),
    }
}

pub fn title_text(v: ViewMode, count: usize) -> (r: String)
    ensures
        r@ == title_of(v, count as nat),
{
    let mut s = String::new();
    push_text(&mut s, "\u{2500}\u{2500}\u{2500} ");
    push_mode_label(&mut s, v);
    push_text(&mut s, " (");
    push_decimal(&mut s, count as u64);
    push_text(&mut s, ") \u{2500}\u{2500}\u{2500}");
    s
}

/// Which status colour the left part of the status line takes.
#[derive(Debug, Clone, Copy, PartialEq, Eq, Structural)]
pub enum StatusTone {
    ModeNormal,
    ModeSearch,
    ModeCommand,
}

/// The left part of the status line: the help marker, the query being
/// typed, the command being typed, the workspace being typed, or the mode.
pub open spec fn status_left_of(s: AppView) -> (Seq<char>, StatusTone) {
    if s.show_help {
        ("HELP"@, StatusTone::ModeNormal)
    } else {
        match s.vim_mode {
            VimMode::Search => ("/"@ + s.query, StatusTone::ModeSearch),
            VimMode::Command => (":"@ + s.cmd, StatusTone::ModeCommand),
            VimMode::MoveWindow => ("move to ws: "@ + s.move_buf, StatusTone::ModeCommand),
            VimMode::Normal => ("-- "@ + mode_label(s.view_mode) + " --"@, StatusTone::ModeNormal),
        }
    }
}

pub fn status_left(app: &App) -> (r: (String, StatusTone))
    ensures
        (r.0@, r.1) == status_left_of(app@),
{
    let mut s = String::new();
    if app.show_help {
        push_text(&mut s, "HELP");
        return (s, StatusTone::ModeNormal);
    }
    match app.vim_mode {
        VimMode::Search => {
            push_text(&mut s, "/");
            push_text(&mut s, app.query.as_str());
            (s, StatusTone::ModeSearch)
        },
        VimMode::Command => {
            push_text(&mut s, ":");
            push_text(&mut s, app.cmd.as_str());
            (s, StatusTone::ModeCommand)
        },
        VimMode::MoveWindow => {
            push_text(&mut s, "move to ws: ");
            push_text(&mut s, app.move_buf.as_str());
            (s, StatusTone::ModeCommand)
        },
        VimMode::Normal => {
            push_text(&mut s, "-- ");
            push_mode_label(&mut s, app.view_mode);
            push_text(&mut s, " --");
            (s, StatusTone::ModeNormal)
        },
    }
}

/// The right part of the status line: `<row>/<rows>` (row 0 when the list is
/// empty), or the help hint.
pub open spec fn status_right_of(s: AppView) -> Seq<char> {
    if s.show_help {
        "? to toggle"@
    } else {
        decimal(
            if items_len(s) == 0 {
                0
            } else {
                s.selected + 1
            } as nat,
        ) + "/"@ + decimal(items_len(s))
    }
}

pub fn status_right(app: &App) -> (r: String)
    requires
        app@.show_help || items_len(app@) == 0 || app.selected < usize::MAX,
    ensures
        r@ == status_right_of(app@),
{
    let mut s = String::new();
    if app.show_help {
        push_text(&mut s, "? to toggle");
        return s;
    }
    let count = app.items_len();
    let row: usize = if count == 0 {
        0
    } else {
        app.selected + 1
    };
    push_decimal(&mut s, row as u64);
    push_text(&mut s, "/");
    push_decimal(&mut s, count as u64);
    s
}

// ───────────────────────────── colours ─────────────────────────────

/// The value of a hexadecimal digit (`0`-`9`, `a`-`f`, `A`-`F`).
pub open spec fn hex_digit(c: char) -> Option<u8> {
    let u = c as u32;
    if '0' as u32 <= u <= '9' as u32 {
        Some((u - '0' as u32) as u8)
    } else if 'a' as u32 <= u <= 'f' as u32 {
        Some((u - 'a' as u32 + 10) as u8)
    } else if 'A' as u32 <= u <= 'F' as u32 {
        Some((u - 'A' as u32 + 10) as u8)
    } else {
        None
    }
}

pub open spec fn all_hex(s: Seq<char>) -> bool {
    forall|i: int| 1 <= i < s.len() ==> #[trigger] hex_digit(s[i]) is Some
}

/// The byte written by the two hex digits at `i` and `i + 1`.
pub open spec fn hex_byte(s: Seq<char>, i: int) -> u8 {
    (hex_digit(s[i])->0 * 16 + hex_digit(s[i + 1])->0) as u8
}

/// The red, green, blue and alpha bytes of a colour written `#RRGGBB` (alpha
/// 255) or `#RRGGBBAA`; `None` for any other text.
pub open spec fn hex_color_of(s: Seq<char>) -> Option<(u8, u8, u8, u8)> {
    if s.len() > 0 && s[0] == '#' && (s.len() == 7 || s.len() == 9) && all_hex(s) {
        Some(
            (
                hex_byte(s, 1),
                hex_byte(s, 3),
                hex_byte(s, 5),
                if s.len() == 9 {
                    hex_byte(s, 7)
                } else {
                    255
                },
            ),
        )
    } else {
        None
    }
}

fn hex_digit_exec(c: char) -> (r: Option<u8>)
    ensures
        r == hex_digit(c),
{
    let u = c as u32;
    if '0' as u32 <= u && u <= '9' as u32 {
        Some((u - '0' as u32) as u8)
    } else if 'a' as u32 <= u && u <= 'f' as u32 {
        Some((u - 'a' as u32 + 10) as u8)
    } else if 'A' as u32 <= u && u <= 'F' as u32 {
        Some((u - 'A' as u32 + 10) as u8)
    } else {
        None
    }
}

fn byte_at(v: &Vec<char>, i: usize) -> (r: u8)
    requires
        i + 1 < v.len(),
        hex_digit(v@[i as int]) is Some,
        hex_digit(v@[i + 1]) is Some,
    ensures
        r == hex_byte(v@, i as int),
{
    let hi = match hex_digit_exec(v[i]) {
        Some(d) => d,
        None => 0,
    };
    let lo = match hex_digit_exec(v[i + 1]) {
        Some(d) => d,
        None => 0,
    };
    hi * 16 + lo
}

/// Reads a colour written `#RRGGBB` or `#RRGGBBAA`.
pub fn parse_hex_color(s: &str) -> (r: Option<(u8, u8, u8, u8)>)
    ensures
        r == hex_color_of(s@),
{
    let v = chars_of(s);
    if v.len() == 0 || v[0] != '#' || (v.len() != 7 && v.len() != 9) {
        return None;
    }
    let mut i: usize = 1;
    while i < v.len()
        invariant
            1 <= i <= v.len(),
            v@ == s@,
            forall|k: int| 1 <= k < i ==> #[trigger] hex_digit(v@[k]) is Some,
        decreases v.len() - i,
    {
        if hex_digit_exec(v[i]).is_none() {
            assert(!all_hex(s@));
            return None;
        }
        i += 1;
    }
    let r = byte_at(&v, 1);
    let g = byte_at(&v, 3);
    let b = byte_at(&v, 5);
    let a = if v.len() == 9 {
        byte_at(&v, 7)
    } else {
        255
    };
    Some((r, g, b, a))
}

} // verus!
