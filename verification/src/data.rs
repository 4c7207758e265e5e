//! The items the switcher lists: desktop applications and Hyprland windows,
//! and what is computed from the raw data that the program reads.
use vstd::prelude::*;

use crate::order::{lemma_insert_at, stable_sort, text_le, text_le_exec};
use crate::text::{
    chars_of, is_space, is_space_char, lowercase, push_char, same_text, to_lower,
};

verus! {

broadcast use vstd::string::group_string_axioms;

// ───────────────────────────── desktop apps ─────────────────────────────

/// An application that a desktop entry describes.
#[derive(Clone)]
pub struct DesktopApp {
    pub name: String,
    pub command: String,
}

/// The order the app list is shown in: by lowercased name, as `str` orders text.
pub open spec fn app_order() -> spec_fn(DesktopApp, DesktopApp) -> bool {
    |a: DesktopApp, b: DesktopApp| text_le(lowercase(a.name@), lowercase(b.name@))
}

/// Drops each app whose name equals that of the app kept just before it.
pub open spec fn dedup_names(s: Seq<DesktopApp>) -> Seq<DesktopApp>
    decreases s.len(),
{
    if s.len() == 0 {
        s
    } else {
        let r = dedup_names(s.drop_last());
        if r.len() > 0 && r.last().name@ == s.last().name@ {
            r
        } else {
            r.push(s.last())
        }
    }
}

/// The app list as it is shown: stably sorted by lowercased name, then with
/// each run of equal names reduced to its first app.
pub open spec fn ordered_apps(s: Seq<DesktopApp>) -> Seq<DesktopApp> {
    dedup_names(stable_sort(s, app_order()))
}

/// Sorts the apps by lowercased name (stably) and removes consecutive
/// duplicates by name, as the app list is prepared after loading.
pub fn order_apps(apps: Vec<DesktopApp>) -> (r: Vec<DesktopApp>)
    ensures
        r@ == ordered_apps(apps@),
{
    let ghost orig = apps@;
    let mut src = apps;
    let mut out: Vec<DesktopApp> = Vec::new();
    let mut keys: Vec<Vec<char>> = Vec::new();
    while src.len() > 0
        invariant
            orig.len() == out.len() + src.len(),
            src@ == orig.skip(out.len() as int),
            out@ == stable_sort(orig.take(out.len() as int), app_order()),
            keys.len() == out.len(),
            forall|k: int| 0 <= k < keys.len() ==> #[trigger] keys@[k]@ == lowercase(out@[k].name@),
        decreases src.len(),
    {
        let ghost done = out.len() as int;
        let ghost before = out@;
        let x = src.remove(0);
        assert(x == orig[done]);
        let xl = to_lower(x.name.as_str());
        let xk = chars_of(xl.as_str());
        let mut p = out.len();
        while p > 0 && !text_le_exec(&keys[p - 1], &xk)
            invariant
                p <= out.len(),
                out@ == before,
                keys.len() == out.len(),
                xk@ == lowercase(x.name@),
                forall|k: int| 0 <= k < keys.len() ==> #[trigger] keys@[k]@ == lowercase(out@[k].name@),
                forall|k: int| p <= k < out.len() ==> !(app_order())(#[trigger] out@[k], x),
            decreases p,
        {
            p -= 1;
        }
        proof {
            lemma_insert_at(before, x, app_order(), p as int);
            assert(orig.take(done + 1).drop_last() =~= orig.take(done));
            assert(orig.take(done + 1).last() == x);
            assert(src@ =~= orig.skip(done + 1));
        }
        let ghost kb = keys@;
        out.insert(p, x);
        keys.insert(p, xk);
        assert forall|k: int| 0 <= k < keys.len() implies #[trigger] keys@[k]@ == lowercase(
            out@[k].name@,
        ) by {
            if k < p {
                assert(keys@[k] == kb[k]);
                assert(out@[k] == before[k]);
            } else if k > p {
                assert(keys@[k] == kb[k - 1]);
                assert(out@[k] == before[k - 1]);
            }
        }
    }
    assert(orig.take(orig.len() as int) =~= orig);
    let ghost sorted = out@;
    let mut res: Vec<DesktopApp> = Vec::new();
    let mut rest = out;
    while rest.len() > 0
        invariant
            sorted.len() == rest.len() + (sorted.len() - rest.len()),
            rest.len() <= sorted.len(),
            rest@ == sorted.skip(sorted.len() - rest.len()),
            res@ == dedup_names(sorted.take(sorted.len() - rest.len())),
        decreases rest.len(),
    {
        let ghost done = sorted.len() - rest.len();
        let a = rest.remove(0);
        assert(a == sorted[done]);
        assert(sorted.take(done + 1).drop_last() =~= sorted.take(done));
        assert(rest@ =~= sorted.skip(done + 1));
        let n = res.len();
        if n > 0 && res[n - 1].name == a.name {
        } else {
            res.push(a);
        }
    }
    assert(sorted.take(sorted.len() as int) =~= sorted);
    res
}

// ───────────────────────────── data directories ─────────────────────────────

/// Scans `s` into the pieces finished so far and the piece being read.
pub open spec fn split_scan(s: Seq<char>, sep: char) -> (Seq<Seq<char>>, Seq<char>)
    decreases s.len(),
{
    if s.len() == 0 {
        (seq![], seq![])
    } else {
        let p = split_scan(s.drop_last(), sep);
        if s.last() == sep {
            (p.0.push(p.1), seq![])
        } else {
            (p.0, p.1.push(s.last()))
        }
    }
}

/// The pieces of `s` between the separators, as `str::split` gives them
/// (empty pieces included, so there is always one more piece than separators).
pub open spec fn split_on(s: Seq<char>, sep: char) -> Seq<Seq<char>> {
    let p = split_scan(s, sep);
    p.0.push(p.1)
}

/// The directories searched for desktop entries: those listed in
/// `XDG_DATA_DIRS`, or `/usr/share` and `/run/current-system/sw/share` when
/// it is not set.
pub open spec fn data_dirs_of(var: Option<Seq<char>>) -> Seq<Seq<char>> {
    split_on(
        match var {
            Some(v) => v,
            None => "/usr/share:/run/current-system/sw/share"@,
        },
        ':',
    )
}

/// The data directories, given the value of `XDG_DATA_DIRS` if it is set.
pub fn data_dirs(var: Option<&str>) -> (r: Vec<String>)
    ensures
        r@.len() == data_dirs_of(
            match var {
                Some(v) => Some(v@),
                None => None,
            },
        ).len(),
        forall|k: int|
            0 <= k < r@.len() ==> #[trigger] r@[k]@ == data_dirs_of(
                match var {
                    Some(v) => Some(v@),
                    None => None,
                },
            )[k],
{
    let v = match var {
        Some(x) => chars_of(x),
        None => chars_of("/usr/share:/run/current-system/sw/share"),
    };
    let mut out: Vec<String> = Vec::new();
    let mut cur = String::new();
    let mut i: usize = 0;
    while i < v.len()
        invariant
            i <= v.len(),
            cur@ == split_scan(v@.take(i as int), ':').1,
            out@.len() == split_scan(v@.take(i as int), ':').0.len(),
            forall|k: int|
                0 <= k < out@.len() ==> #[trigger] out@[k]@ == split_scan(v@.take(i as int), ':').0[k],
        decreases v.len() - i,
    {
        let c = v[i];
        assert(v@.take(i + 1).drop_last() =~= v@.take(i as int));
        assert(v@.take(i + 1).last() == c);
        if c == ':' {
            out.push(cur);
            cur = String::new();
        } else {
            push_char(&mut cur, c);
        }
        i += 1;
    }
    assert(v@.take(v.len() as int) =~= v@);
    out.push(cur);
    out
}

// ───────────────────────────── exec lines ─────────────────────────────

/// Scans `s` into the words finished so far and the word being read.
pub open spec fn word_scan(s: Seq<char>) -> (Seq<Seq<char>>, Seq<char>)
    decreases s.len(),
{
    if s.len() == 0 {
        (seq![], seq![])
    } else {
        let p = word_scan(s.drop_last());
        let c = s.last();
        if is_space(c) {
            if p.1.len() > 0 {
                (p.0.push(p.1), seq![])
            } else {
                (p.0, seq![])
            }
        } else {
            (p.0, p.1.push(c))
        }
    }
}

/// The words of `s` as `str::split_whitespace` gives them.
pub open spec fn words(s: Seq<char>) -> Seq<Seq<char>> {
    let p = word_scan(s);
    if p.1.len() > 0 {
        p.0.push(p.1)
    } else {
        p.0
    }
}

/// A word that `clean_exec` drops: a field code such as `%U`.
pub open spec fn is_field_code(w: Seq<char>) -> bool {
    w.len() > 0 && w[0] == '%'
}

/// The words that are not field codes, in order.
pub open spec fn kept_words(ws: Seq<Seq<char>>) -> Seq<Seq<char>>
    decreases ws.len(),
{
    if ws.len() == 0 {
        ws
    } else if is_field_code(ws.last()) {
        kept_words(ws.drop_last())
    } else {
        kept_words(ws.drop_last()).push(ws.last())
    }
}

/// The words joined by single spaces.
pub open spec fn joined(ws: Seq<Seq<char>>) -> Seq<char>
    decreases ws.len(),
{
    if ws.len() == 0 {
        seq![]
    } else if ws.len() == 1 {
        ws[0]
    } else {
        joined(ws.drop_last()) + seq![' '] + ws.last()
    }
}

/// An `Exec=` value without its field codes, its words joined by single spaces.
pub open spec fn cleaned_exec(s: Seq<char>) -> Seq<char> {
    joined(kept_words(words(s)))
}

/// Adds word `w` to the text `out` that joins the kept words so far.
fn emit_word(out: &mut String, any: &mut bool, w: &Vec<char>, Ghost(ws): Ghost<Seq<Seq<char>>>)
    requires
        w@.len() > 0,
        old(out)@ == joined(kept_words(ws)),
        *old(any) == (kept_words(ws).len() > 0),
    ensures
        final(out)@ == joined(kept_words(ws.push(w@))),
        *final(any) == (kept_words(ws.push(w@)).len() > 0),
{
    assert(ws.push(w@).drop_last() == ws);
    if w[0] == '%' {
        return;
    }
    let ghost kw = kept_words(ws);
    assert(kw.push(w@).drop_last() == kw);
    if *any {
        push_char(out, ' ');
    }
    let mut i: usize = 0;
    let ghost start = out@;
    while i < w.len()
        invariant
            i <= w.len(),
            out@ == start + w@.take(i as int),
        decreases w.len() - i,
    {
        push_char(out, w[i]);
        i += 1;
        assert(w@.take(i as int) == w@.take(i - 1).push(w@[i - 1]));
    }
    assert(w@.take(w.len() as int) == w@);
    if !*any {
        assert(kw.len() == 0);
        assert(start =~= Seq::<char>::empty());
    }
    *any = true;
}

/// An `Exec=` command line with its field codes (`%f`, `%U`, ...) removed
/// and its words joined by single spaces.
pub fn clean_exec(line: &str) -> (r: String)
    ensures
        r@ == cleaned_exec(line@),
{
    let v = chars_of(line);
    let mut out = String::new();
    let mut any = false;
    let mut cur: Vec<char> = Vec::new();
    let mut i: usize = 0;
    while i < v.len()
        invariant
            i <= v.len(),
            v@ == line@,
            cur@ == word_scan(v@.take(i as int)).1,
            out@ == joined(kept_words(word_scan(v@.take(i as int)).0)),
            any == (kept_words(word_scan(v@.take(i as int)).0).len() > 0),
        decreases v.len() - i,
    {
        let c = v[i];
        let ghost pre = word_scan(v@.take(i as int));
        assert(v@.take(i + 1).drop_last() =~= v@.take(i as int));
        assert(v@.take(i + 1).last() == c);
        if is_space_char(c) {
            if cur.len() > 0 {
                emit_word(&mut out, &mut any, &cur, Ghost(pre.0));
                cur = Vec::new();
            }
        } else {
            cur.push(c);
        }
        i += 1;
    }
    assert(v@.take(v.len() as int) =~= v@);
    if cur.len() > 0 {
        emit_word(&mut out, &mut any, &cur, Ghost(word_scan(v@).0));
    }
    out
}

// ───────────────────────────── desktop entries ─────────────────────────────

/// Scans `s` into the lines finished so far and the line being read.
pub open spec fn line_scan(s: Seq<char>) -> (Seq<Seq<char>>, Seq<char>)
    decreases s.len(),
{
    if s.len() == 0 {
        (seq![], seq![])
    } else {
        let p = line_scan(s.drop_last());
        if s.last() == '\n' {
            (p.0.push(strip_cr(p.1)), seq![])
        } else {
            (p.0, p.1.push(s.last()))
        }
    }
}

/// A line without the `\r` of a `\r\n` ending.
pub open spec fn strip_cr(l: Seq<char>) -> Seq<char> {
    if l.len() > 0 && l.last() == '\r' {
        l.drop_last()
    } else {
        l
    }
}

/// The lines of `s` as `str::lines` gives them: split at `\n`, the `\r` of a
/// `\r\n` dropped, and no empty line after a final line ending.
pub open spec fn lines(s: Seq<char>) -> Seq<Seq<char>> {
    let p = line_scan(s);
    if p.1.len() > 0 {
        p.0.push(p.1)
    } else {
        p.0
    }
}

/// The lines of a text, as `str::lines` gives them.
pub fn text_lines(v: &Vec<char>) -> (r: Vec<Vec<char>>)
    ensures
        r@.len() == lines(v@).len(),
        forall|k: int| 0 <= k < r@.len() ==> #[trigger] r@[k]@ == lines(v@)[k],
{
    let mut out: Vec<Vec<char>> = Vec::new();
    let mut cur: Vec<char> = Vec::new();
    let mut i: usize = 0;
    while i < v.len()
        invariant
            i <= v.len(),
            cur@ == line_scan(v@.take(i as int)).1,
            out@.len() == line_scan(v@.take(i as int)).0.len(),
            forall|k: int|
                0 <= k < out@.len() ==> #[trigger] out@[k]@ == line_scan(v@.take(i as int)).0[k],
        decreases v.len() - i,
    {
        let c = v[i];
        assert(v@.take(i + 1).drop_last() =~= v@.take(i as int));
        assert(v@.take(i + 1).last() == c);
        if c == '\n' {
            let n = cur.len();
            if n > 0 && cur[n - 1] == '\r' {
                cur.pop();
            }
            out.push(cur);
            cur = Vec::new();
        } else {
            cur.push(c);
        }
        i += 1;
    }
    assert(v@.take(v.len() as int) =~= v@);
    if cur.len() > 0 {
        out.push(cur);
    }
    out
}

/// What the reading of a desktop file has found after some of its lines.
pub struct EntryScan {
    pub name: Option<Seq<char>>,
    pub command: Option<Seq<char>>,
    pub hidden: bool,
    pub in_entry: bool,
}

pub open spec fn has_prefix(s: Seq<char>, p: Seq<char>) -> bool {
    p.len() <= s.len() && s.take(p.len() as int) == p
}

/// One line of a desktop file: only the `[Desktop Entry]` section counts;
/// the first `Name=` and the first `Exec=` in it win; `NoDisplay=true` or
/// `Type=Directory` hides the entry.
pub open spec fn scan_line(st: EntryScan, line: Seq<char>) -> EntryScan {
    if line == "[Desktop Entry]"@ {
        EntryScan { in_entry: true, ..st }
    } else if line.len() > 0 && line[0] == '[' {
        EntryScan { in_entry: false, ..st }
    } else if !st.in_entry {
        st
    } else if has_prefix(line, "Name="@) {
        EntryScan {
            name: if st.name is None {
                Some(line.skip(5))
            } else {
                st.name
            },
            ..st
        }
    } else if has_prefix(line, "Exec="@) {
        EntryScan {
            command: if st.command is None {
                Some(cleaned_exec(line.skip(5)))
            } else {
                st.command
            },
            ..st
        }
    } else if line == "NoDisplay=true"@ || line == "Type=Directory"@ {
        EntryScan { hidden: true, ..st }
    } else {
        st
    }
}

pub open spec fn scan_lines(ls: Seq<Seq<char>>) -> EntryScan
    decreases ls.len(),
{
    if ls.len() == 0 {
        EntryScan { name: None, command: None, hidden: false, in_entry: false }
    } else {
        scan_line(scan_lines(ls.drop_last()), ls.last())
    }
}

/// The name and command line that a desktop file declares, or `None` when it
/// is hidden or lacks either.
pub open spec fn desktop_entry(content: Seq<char>) -> Option<(Seq<char>, Seq<char>)> {
    entry_of_lines(lines(content))
}

/// The name and command line that the lines of a desktop file declare, or
/// `None` when they hide the entry or lack either.
pub open spec fn entry_of_lines(ls: Seq<Seq<char>>) -> Option<(Seq<char>, Seq<char>)> {
    let st = scan_lines(ls);
    if st.hidden {
        None
    } else {
        match (st.name, st.command) {
            (Some(n), Some(e)) => Some((n, e)),
            _ => None,
        }
    }
}

/// Whether the characters of `s` from 0 equal those of `p`.
fn starts_with_chars(s: &Vec<char>, p: &str) -> (r: bool)
    ensures
        r == has_prefix(s@, p@),
{
    let pv = chars_of(p);
    if pv.len() > s.len() {
        return false;
    }
    let mut i: usize = 0;
    while i < pv.len()
        invariant
            pv@ == p@,
            pv.len() <= s.len(),
            i <= pv.len(),
            forall|k: int| 0 <= k < i ==> s@[k] == pv@[k],
        decreases pv.len() - i,
    {
        if s[i] != pv[i] {
            assert(s@.take(pv.len() as int)[i as int] != pv@[i as int]);
            return false;
        }
        i += 1;
    }
    assert(s@.take(pv.len() as int) =~= pv@);
    true
}

fn equals_chars(s: &Vec<char>, p: &str) -> (r: bool)
    ensures
        r == (s@ == p@),
{
    let pv = chars_of(p);
    if pv.len() != s.len() {
        return false;
    }
    let b = starts_with_chars(s, p);
    assert(s@.take(p@.len() as int) =~= s@);
    b
}

fn string_from(v: &Vec<char>, from: usize) -> (r: String)
    requires
        from <= v.len(),
    ensures
        r@ == v@.skip(from as int),
{
    let mut out = String::new();
    let mut i = from;
    while i < v.len()
        invariant
            from <= i <= v.len(),
            out@ == v@.subrange(from as int, i as int),
        decreases v.len() - i,
    {
        push_char(&mut out, v[i]);
        i += 1;
        assert(v@.subrange(from as int, i as int) == v@.subrange(from as int, i - 1).push(
            v@[i - 1],
        ));
    }
    out
}

/// Reads the text of a desktop file: the app it describes, if it is shown
/// and names both its name and its command line.
pub fn parse_desktop_file(content: &str) -> (r: Option<DesktopApp>)
    ensures
        match r {
            Some(a) => desktop_entry(content@) == Some((a.name@, a.command@)),
            None => desktop_entry(content@) is None,
        },
{
    let v = chars_of(content);
    let ls = text_lines(&v);
    let ghost lv = lines(content@);
    let mut name: Option<String> = None;
    let mut command: Option<String> = None;
    let mut hidden = false;
    let mut in_entry = false;
    let mut i: usize = 0;
    while i < ls.len()
        invariant
            i <= ls.len(),
            ls@.len() == lv.len(),
            forall|k: int| 0 <= k < ls@.len() ==> #[trigger] ls@[k]@ == lv[k],
            ({
                let st = scan_lines(lv.take(i as int));
                &&& st.hidden == hidden
                &&& st.in_entry == in_entry
                &&& match name {
                    Some(n) => st.name == Some(n@),
                    None => st.name is None,
                }
                &&& match command {
                    Some(e) => st.command == Some(e@),
                    None => st.command is None,
                }
            }),
        decreases ls.len() - i,
    {
        let line = &ls[i];
        assert(lv.take(i + 1).drop_last() =~= lv.take(i as int));
        assert(lv.take(i + 1).last() == line@);
        if equals_chars(line, "[Desktop Entry]") {
            in_entry = true;
        } else if line.len() > 0 && line[0] == '[' {
            in_entry = false;
        } else if !in_entry {
        } else if starts_with_chars(line, "Name=") {
            if name.is_none() {
                proof {
                    reveal_strlit("Name=");
                }
                name = Some(string_from(line, 5));
            }
        } else if starts_with_chars(line, "Exec=") {
            if command.is_none() {
                proof {
                    reveal_strlit("Exec=");
                }
                let raw = string_from(line, 5);
                command = Some(clean_exec(raw.as_str()));
            }
        } else if equals_chars(line, "NoDisplay=true") || equals_chars(line, "Type=Directory") {
            hidden = true;
        }
        i += 1;
    }
    assert(lv.take(ls.len() as int) =~= lv);
    if hidden {
        return None;
    }
    match (name, command) {
        (Some(n), Some(e)) => Some(DesktopApp { name: n, command: e }),
        _ => None,
    }
}

// ───────────────────────────── hyprland windows ─────────────────────────────

/// A client as `hyprctl clients -j` describes it.
pub struct HyprClient {
    pub address: String,
    pub class: String,
    pub title: String,
    pub workspace_id: i64,
}

/// A window that the switcher lists.
#[derive(Clone, Debug)]
pub struct WindowInfo {
    pub title: String,
    pub class: String,
    pub address: String,
    pub workspace_id: i64,
}

/// The clients that are listed: those with a title that are not this program.
pub open spec fn listed(c: HyprClient) -> bool {
    c.title@.len() > 0 && c.class@ != "hyprmwh"@
}

pub open spec fn window_of(c: HyprClient) -> WindowInfo {
    WindowInfo {
        title: c.title,
        class: c.class,
        address: c.address,
        workspace_id: c.workspace_id,
    }
}

/// The listed clients as windows, in the order given.
pub open spec fn listed_windows(cs: Seq<HyprClient>) -> Seq<WindowInfo>
    decreases cs.len(),
{
    if cs.len() == 0 {
        seq![]
    } else if listed(cs.last()) {
        listed_windows(cs.drop_last()).push(window_of(cs.last()))
    } else {
        listed_windows(cs.drop_last())
    }
}

/// Windows in order of workspace.
pub open spec fn workspace_order() -> spec_fn(WindowInfo, WindowInfo) -> bool {
    |a: WindowInfo, b: WindowInfo| a.workspace_id <= b.workspace_id
}

/// The window list: the listed clients, stably sorted by workspace.
pub open spec fn windows_of(cs: Seq<HyprClient>) -> Seq<WindowInfo> {
    stable_sort(listed_windows(cs), workspace_order())
}

/// Turns the clients that `hyprctl` reported into the window list: untitled
/// clients and this program's own surfaces are left out, and the rest are
/// stably sorted by workspace id.
pub fn windows_from_clients(clients: Vec<HyprClient>) -> (r: Vec<WindowInfo>)
    ensures
        r@ == windows_of(clients@),
{
    let ghost orig = clients@;
    let mut src = clients;
    let mut picked: Vec<WindowInfo> = Vec::new();
    while src.len() > 0
        invariant
            src.len() <= orig.len(),
            src@ == orig.skip(orig.len() - src.len()),
            picked@ == listed_windows(orig.take(orig.len() - src.len())),
        decreases src.len(),
    {
        let ghost done = orig.len() - src.len();
        let c = src.remove(0);
        assert(c == orig[done]);
        assert(orig.take(done + 1).drop_last() =~= orig.take(done));
        assert(src@ =~= orig.skip(done + 1));
        if !c.title.as_str().is_empty() && !same_text(c.class.as_str(), "hyprmwh") {
            picked.push(
                WindowInfo {
                    title: c.title,
                    class: c.class,
                    address: c.address,
                    workspace_id: c.workspace_id,
                },
            );
        }
    }
    assert(orig.take(orig.len() as int) =~= orig);
    sort_by_workspace(picked)
}

/// Stable sort by workspace id.
pub fn sort_by_workspace(v: Vec<WindowInfo>) -> (r: Vec<WindowInfo>)
    ensures
        r@ == stable_sort(v@, workspace_order()),
{
    let ghost orig = v@;
    let mut src = v;
    let mut out: Vec<WindowInfo> = Vec::new();
    while src.len() > 0
        invariant
            orig.len() == out.len() + src.len(),
            src@ == orig.skip(out.len() as int),
            out@ == stable_sort(orig.take(out.len() as int), workspace_order()),
        decreases src.len(),
    {
        let ghost done = out.len() as int;
        let ghost before = out@;
        let x = src.remove(0);
        assert(x == orig[done]);
        let mut p = out.len();
        while p > 0 && !(out[p - 1].workspace_id <= x.workspace_id)
            invariant
                p <= out.len(),
                out@ == before,
                forall|k: int| p <= k < out.len() ==> !(workspace_order())(#[trigger] out@[k], x),
            decreases p,
        {
            p -= 1;
        }
        proof {
            lemma_insert_at(before, x, workspace_order(), p as int);
            assert(orig.take(done + 1).drop_last() =~= orig.take(done));
            assert(orig.take(done + 1).last() == x);
            assert(src@ =~= orig.skip(done + 1));
        }
        out.insert(p, x);
    }
    assert(orig.take(orig.len() as int) =~= orig);
    out
}

// ───────────────────────────── active workspace ─────────────────────────────

/// What `serde_json` reads as the integer field `key` of the JSON object in
/// `bytes`: `None` when the bytes are not JSON, hold no such field, or the
/// field is not an integer in the range of `i64`.
pub uninterp spec fn json_int_field(bytes: Seq<u8>, key: Seq<char>) -> Option<i64>;

/// `serde_json::from_slice::<Value>`, then `Value::get(key)` and `Value::as_i64`.
/// The result is named `json_int_field` of the bytes and the key; nothing
/// more is stated.
#[verifier::external_body]
fn read_json_int_field(bytes: &[u8], key: &str) -> (r: Option<i64>)
    ensures
        r == json_int_field(bytes@, key@),
{
    let val: serde_json::Value = serde_json::from_slice(bytes).ok()?;
    val.get(key)?.as_i64()
}

/// The id of the active workspace from the output of `hyprctl activeworkspace -j`:
/// its integer field `id`.
pub fn hyprctl_active_workspace_id(output: &[u8]) -> (r: Option<i64>)
    ensures
        r == json_int_field(output@, "id"@),
{
    read_json_int_field(output, "id")
}

} // verus!
