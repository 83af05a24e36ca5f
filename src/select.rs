//! Which windows the bar shows: those on the current desktop, with the
//! active one marked focused.
use vstd::prelude::*;

use crate::{Desktop, DesktopView, Error, Window, WindowDesktop, WindowId, WindowView};
use crate::{desktop_result_matches, window_from_fields, window_result_matches};
use crate::parser::{desktop_fields, window_fields};

verus! {

/// Index of the first `'\n'` at or after `i`, or the text's length if none.
pub open spec fn find_newline(s: Seq<char>, i: int) -> int
    decreases s.len() - i,
{
    if i < 0 || i >= s.len() {
        s.len() as int
    } else if s[i] == '\n' {
        i
    } else {
        find_newline(s, i + 1)
    }
}

/// Where the line that runs from `i` to the newline at `k` ends: before a
/// `'\r'` that stands just ahead of the newline.
pub open spec fn line_end(s: Seq<char>, i: int, k: int) -> int {
    if i < k && s[k - 1] == '\r' {
        k - 1
    } else {
        k
    }
}

/// The lines of `s` from `i` on, split at each `'\n'` or `"\r\n"`; a final
/// line ending ends the last line and opens no new one, and a `'\r'` not
/// followed by `'\n'` stays in its line.
pub open spec fn lines_from(s: Seq<char>, i: int) -> Seq<Seq<char>>
    decreases s.len() - i,
    via lines_from_decreases
{
    if i < 0 || i >= s.len() {
        seq![]
    } else {
        let k = find_newline(s, i);
        if k >= s.len() {
            seq![s.subrange(i, s.len() as int)]
        } else {
            seq![s.subrange(i, line_end(s, i, k))] + lines_from(s, k + 1)
        }
    }
}

#[via_fn]
proof fn lines_from_decreases(s: Seq<char>, i: int) {
    if 0 <= i < s.len() {
        lemma_find_newline_at_least(s, i);
    }
}

proof fn lemma_find_newline_at_least(s: Seq<char>, i: int)
    requires
        0 <= i,
    ensures
        i <= find_newline(s, i) <= s.len() || i > s.len(),
    decreases s.len() - i,
{
    if i < s.len() && s[i] != '\n' {
        lemma_find_newline_at_least(s, i + 1);
    }
}

pub open spec fn lines_of(s: Seq<char>) -> Seq<Seq<char>> {
    lines_from(s, 0)
}

fn find_newline_exec(s: &str, len: usize, i: usize) -> (r: usize)
    requires
        len == s@.len(),
        i <= len,
    ensures
        r == find_newline(s@, i as int),
        i <= r <= len,
{
    let mut j = i;
    while j < len
        invariant
            len == s@.len(),
            i <= j <= len,
            find_newline(s@, i as int) == find_newline(s@, j as int),
        decreases len - j,
    {
        if s.get_char(j) == '\n' {
            return j;
        }
        j = j + 1;
    }
    j
}

/// Splits a text into its lines.
pub fn lines(s: &str) -> (r: Vec<String>)
    ensures
        r@.map_values(|l: String| l@) == lines_of(s@),
{
    let len = s.unicode_len();
    let mut out: Vec<String> = Vec::new();
    let mut i: usize = 0;
    while i < len
        invariant
            len == s@.len(),
            i <= len,
            out@.map_values(|l: String| l@) + lines_from(s@, i as int) == lines_of(s@),
        decreases len - i,
    {
        let k = find_newline_exec(s, len, i);
        let end = if k < len && i < k && s.get_char(k - 1) == '\r' {
            k - 1
        } else {
            k
        };
        let line = crate::scan::slice(s, i, end);
        let ghost before = out@.map_values(|l: String| l@);
        out.push(line);
        proof {
            assert(out@.map_values(|l: String| l@) =~= before.push(line@));
        }
        if k >= len {
            proof {
                assert(lines_from(s@, len as int) =~= Seq::<Seq<char>>::empty());
                assert(before.push(line@) + lines_from(s@, len as int) =~= before
                    + lines_from(s@, i as int));
            }
            i = len;
        } else {
            proof {
                assert(before.push(line@) + lines_from(s@, k + 1) =~= before + lines_from(
                    s@,
                    i as int,
                ));
            }
            i = k + 1;
        }
    }
    proof {
        assert(out@.map_values(|l: String| l@) + lines_from(s@, i as int) =~= out@.map_values(
            |l: String| l@,
        ));
    }
    out
}

/// The window that a window-list line describes, if it describes one.
pub open spec fn window_of_line(l: Seq<char>) -> Option<WindowView> {
    match window_fields(l) {
        None => None,
        Some(t) => match window_from_fields(t) {
            Ok(w) => Some(w),
            Err(_) => None,
        },
    }
}

/// The desktop that a desktop-list line describes, if it describes one.
pub open spec fn desktop_of_line(l: Seq<char>) -> Option<DesktopView> {
    match desktop_fields(l) {
        None => None,
        Some(t) => match crate::desktop_list_number(t.number) {
            None => None,
            Some(n) => Some(DesktopView { number: n, is_current: t.marker == seq!['*'], name: t.name }),
        },
    }
}

proof fn lemma_window_line(l: Seq<char>, r: Result<Window, Error>)
    requires
        match window_fields(l) {
            None => r == Err::<Window, Error>(Error::Syntax),
            Some(t) => window_result_matches(t, r),
        },
    ensures
        r is Ok <==> window_of_line(l) is Some,
        r is Ok ==> r->Ok_0@ == window_of_line(l)->0,
{
}

/// Reads every line of a window list; fails when any line is not a window.
pub fn parse_windows(output: &str) -> (r: Result<Vec<Window>, Error>)
    ensures
        r is Ok <==> forall|i: int|
            0 <= i < lines_of(output@).len() ==> (#[trigger] window_of_line(lines_of(output@)[i])) is Some,
        r is Ok ==> r->Ok_0@.len() == lines_of(output@).len() && forall|i: int|
            0 <= i < r->Ok_0@.len() ==> (#[trigger] r->Ok_0@[i])@ == window_of_line(lines_of(output@)[i])->0,
{
    let ls = lines(output);
    let ghost ln = lines_of(output@);
    assert(ls@.len() == ln.len());
    let mut out: Vec<Window> = Vec::new();
    let mut i: usize = 0;
    while i < ls.len()
        invariant
            ls@.map_values(|l: String| l@) == ln,
            ln == lines_of(output@),
            i <= ls@.len(),
            out@.len() == i,
            forall|j: int| 0 <= j < i ==> (#[trigger] window_of_line(ln[j])) is Some,
            forall|j: int| 0 <= j < i ==> (#[trigger] out@[j])@ == window_of_line(ln[j])->0,
        decreases ls@.len() - i,
    {
        assert(ln[i as int] == ls@[i as int]@);
        let w = Window::from_string(ls[i].as_str());
        proof {
            lemma_window_line(ls@[i as int]@, w);
        }
        match w {
            Ok(w) => {
                out.push(w);
            },
            Err(e) => {
                assert(window_of_line(ln[i as int]) is None);
                return Err(e);
            },
        }
        i = i + 1;
    }
    Ok(out)
}

proof fn lemma_desktop_line(l: Seq<char>, r: Result<Desktop, Error>)
    requires
        match desktop_fields(l) {
            None => r == Err::<Desktop, Error>(Error::Syntax),
            Some(t) => desktop_result_matches(t, r),
        },
    ensures
        r is Ok <==> desktop_of_line(l) is Some,
        r is Ok ==> r->Ok_0@ == desktop_of_line(l)->0,
{
}

/// Reads every line of a desktop list; fails when any line is not a desktop.
pub fn parse_desktops(output: &str) -> (r: Result<Vec<Desktop>, Error>)
    ensures
        r is Ok <==> forall|i: int|
            0 <= i < lines_of(output@).len() ==> (#[trigger] desktop_of_line(lines_of(output@)[i])) is Some,
        r is Ok ==> r->Ok_0@.len() == lines_of(output@).len() && forall|i: int|
            0 <= i < r->Ok_0@.len() ==> (#[trigger] r->Ok_0@[i])@ == desktop_of_line(lines_of(output@)[i])->0,
{
    let ls = lines(output);
    let ghost ln = lines_of(output@);
    assert(ls@.len() == ln.len());
    let mut out: Vec<Desktop> = Vec::new();
    let mut i: usize = 0;
    while i < ls.len()
        invariant
            ls@.map_values(|l: String| l@) == ln,
            ln == lines_of(output@),
            i <= ls@.len(),
            out@.len() == i,
            forall|j: int| 0 <= j < i ==> (#[trigger] desktop_of_line(ln[j])) is Some,
            forall|j: int| 0 <= j < i ==> (#[trigger] out@[j])@ == desktop_of_line(ln[j])->0,
        decreases ls@.len() - i,
    {
        assert(ln[i as int] == ls@[i as int]@);
        let d = Desktop::from_string(ls[i].as_str());
        proof {
            lemma_desktop_line(ls@[i as int]@, d);
        }
        match d {
            Ok(d) => {
                out.push(d);
            },
            Err(e) => {
                assert(desktop_of_line(ln[i as int]) is None);
                return Err(e);
            },
        }
        i = i + 1;
    }
    Ok(out)
}

/// Index of the first desktop from `i` on that is marked current, or the
/// list's length if none is.
pub open spec fn first_current_from(ds: Seq<DesktopView>, i: int) -> int
    decreases ds.len() - i,
{
    if i < 0 || i >= ds.len() {
        ds.len() as int
    } else if ds[i].is_current {
        i
    } else {
        first_current_from(ds, i + 1)
    }
}

pub open spec fn desktops_view(ds: Seq<Desktop>) -> Seq<DesktopView> {
    ds.map_values(|d: Desktop| d@)
}

/// The desktop that is marked current, the first such if several are.
pub fn current_desktop(desktops: &Vec<Desktop>) -> (r: Result<Desktop, Error>)
    ensures
        ({
            let ds = desktops_view(desktops@);
            let k = first_current_from(ds, 0);
            if k < ds.len() {
                r is Ok && r->Ok_0@ == ds[k]
            } else {
                r == Err::<Desktop, Error>(Error::NoCurrentDesktop)
            }
        }),
{
    let ghost ds = desktops_view(desktops@);
    let mut i: usize = 0;
    while i < desktops.len()
        invariant
            ds == desktops_view(desktops@),
            i <= desktops@.len(),
            first_current_from(ds, 0) == first_current_from(ds, i as int),
        decreases desktops@.len() - i,
    {
        let d = &desktops[i];
        if d.is_current {
            return Ok(Desktop { number: d.number, is_current: d.is_current, name: d.name.clone() });
        }
        i = i + 1;
    }
    Err(Error::NoCurrentDesktop)
}

/// `w` as shown on the bar when `active` is the focused window.
pub open spec fn with_focus(w: WindowView, active: u64) -> WindowView {
    WindowView {
        identity: w.identity,
        desktop: w.desktop,
        machine_name: w.machine_name,
        title: w.title,
        is_focused: w.identity == active,
    }
}

/// The windows of `ws` that are on the numbered desktop `desktop`, in their
/// order, each focused exactly when its id is `active`.
pub open spec fn visible_windows(ws: Seq<WindowView>, active: u64, desktop: u32) -> Seq<WindowView>
    decreases ws.len(),
{
    if ws.len() == 0 {
        seq![]
    } else {
        let rest = visible_windows(ws.drop_last(), active, desktop);
        if ws.last().desktop == WindowDesktop::Id(desktop) {
            rest.push(with_focus(ws.last(), active))
        } else {
            rest
        }
    }
}

pub open spec fn windows_view(ws: Seq<Window>) -> Seq<WindowView> {
    ws.map_values(|w: Window| w@)
}

/// Keeps the windows on desktop `desktop_id`, marking the one whose id is
/// `window_id` focused.
pub fn with_active_window(windows: &Vec<Window>, window_id: u64, desktop_id: u32) -> (r: Vec<Window>)
    ensures
        windows_view(r@) == visible_windows(windows_view(windows@), window_id, desktop_id),
{
    let ghost ws = windows_view(windows@);
    let mut out: Vec<Window> = Vec::new();
    let mut i: usize = 0;
    while i < windows.len()
        invariant
            ws == windows_view(windows@),
            i <= windows@.len(),
            windows_view(out@) == visible_windows(ws.subrange(0, i as int), window_id, desktop_id),
        decreases windows@.len() - i,
    {
        let w = &windows[i];
        proof {
            assert(ws.subrange(0, i + 1).drop_last() =~= ws.subrange(0, i as int));
            assert(ws.subrange(0, i + 1).last() == w@);
        }
        if w.desktop == WindowDesktop::Id(desktop_id) {
            let ghost before = windows_view(out@);
            out.push(
                Window {
                    identity: WindowId(w.identity.0),
                    desktop: w.desktop,
                    machine_name: w.machine_name.clone(),
                    title: w.title.clone(),
                    is_focused: w.identity.0 == window_id,
                },
            );
            proof {
                assert(windows_view(out@) =~= before.push(with_focus(w@, window_id)));
            }
        }
        i = i + 1;
    }
    proof {
        assert(ws.subrange(0, i as int) =~= ws);
    }
    out
}

/// One full pass over the three upstream texts: the active-window line, the
/// desktop list and the window list give the windows that the bar shows.
pub fn figure_out_windows(xprop: &str, desktop_list: &str, window_list: &str) -> (r: Result<
    Vec<Window>,
    Error,
>)
    ensures
        r is Ok <==> (crate::parser::active_window_field(xprop@) is Some && crate::hex_id(
            crate::parser::active_window_field(xprop@)->0,
        ) is Some && (forall|i: int|
            0 <= i < lines_of(desktop_list@).len() ==> (#[trigger] desktop_of_line(
                lines_of(desktop_list@)[i],
            )) is Some) && first_current_from(
            lines_of(desktop_list@).map_values(|l: Seq<char>| desktop_of_line(l)->0),
            0,
        ) < lines_of(desktop_list@).len() && (forall|i: int|
            0 <= i < lines_of(window_list@).len() ==> (#[trigger] window_of_line(
                lines_of(window_list@)[i],
            )) is Some)),
        r is Ok ==> ({
            let ds = lines_of(desktop_list@).map_values(|l: Seq<char>| desktop_of_line(l)->0);
            let ws = lines_of(window_list@).map_values(|l: Seq<char>| window_of_line(l)->0);
            let active = crate::hex_id(crate::parser::active_window_field(xprop@)->0)->0;
            windows_view(r->Ok_0@) == visible_windows(ws, active, ds[first_current_from(ds, 0)].number)
        }),
        crate::parser::active_window_field(xprop@) is None ==> r == Err::<Vec<Window>, Error>(
            Error::Syntax,
        ),
        (crate::parser::active_window_field(xprop@) is Some && crate::hex_id(
            crate::parser::active_window_field(xprop@)->0,
        ) is Some && (forall|i: int|
            0 <= i < lines_of(desktop_list@).len() ==> (#[trigger] desktop_of_line(
                lines_of(desktop_list@)[i],
            )) is Some) && first_current_from(
            lines_of(desktop_list@).map_values(|l: Seq<char>| desktop_of_line(l)->0),
            0,
        ) >= lines_of(desktop_list@).len()) ==> r == Err::<Vec<Window>, Error>(
            Error::NoCurrentDesktop,
        ),
{
    let window_id = WindowId::from_xprop_string(xprop)?;
    let desktops = parse_desktops(desktop_list);
    let desktops = match desktops {
        Ok(d) => d,
        Err(e) => return Err(e),
    };
    proof {
        assert(desktops_view(desktops@) =~= lines_of(desktop_list@).map_values(
            |l: Seq<char>| desktop_of_line(l)->0,
        ));
    }
    let current = current_desktop(&desktops)?;
    let windows = parse_windows(window_list);
    let windows = match windows {
        Ok(w) => w,
        Err(e) => return Err(e),
    };
    proof {
        assert(windows_view(windows@) =~= lines_of(window_list@).map_values(
            |l: Seq<char>| window_of_line(l)->0,
        ));
    }
    Ok(with_active_window(&windows, window_id.0, current.number))
}

/// The shown windows are exactly those of `ws` on desktop `desktop`, in their
/// order: each is on that desktop, focused exactly when its id is `active`,
/// and each window of `ws` on that desktop is shown.
pub proof fn lemma_visible_windows(ws: Seq<WindowView>, active: u64, desktop: u32)
    ensures
        forall|i: int|
            0 <= i < visible_windows(ws, active, desktop).len() ==> {
                let v = #[trigger] visible_windows(ws, active, desktop)[i];
                &&& v.desktop == WindowDesktop::Id(desktop)
                &&& v.is_focused == (v.identity == active)
                &&& exists|j: int| 0 <= j < ws.len() && v == with_focus(ws[j], active)
            },
        forall|j: int|
            0 <= j < ws.len() && (#[trigger] ws[j]).desktop == WindowDesktop::Id(desktop)
                ==> visible_windows(ws, active, desktop).contains(with_focus(ws[j], active)),
        visible_windows(ws, active, desktop).len() <= ws.len(),
    decreases ws.len(),
{
    if ws.len() > 0 {
        let init = ws.drop_last();
        lemma_visible_windows(init, active, desktop);
        let rest = visible_windows(init, active, desktop);
        let r = visible_windows(ws, active, desktop);
        assert forall|i: int| 0 <= i < r.len() implies {
            let v = #[trigger] r[i];
            &&& v.desktop == WindowDesktop::Id(desktop)
            &&& v.is_focused == (v.identity == active)
            &&& exists|j: int| 0 <= j < ws.len() && v == with_focus(ws[j], active)
        } by {
            if i < rest.len() {
                assert(r[i] == rest[i]);
                let v = rest[i];
                let j = choose|j: int| 0 <= j < init.len() && v == with_focus(init[j], active);
                assert(ws[j] == init[j]);
            } else {
                assert(r[i] == with_focus(ws.last(), active));
                assert(ws[ws.len() - 1] == ws.last());
            }
        }
        assert forall|j: int|
            0 <= j < ws.len() && (#[trigger] ws[j]).desktop == WindowDesktop::Id(
                desktop,
            ) implies r.contains(with_focus(ws[j], active)) by {
            if j < init.len() {
                assert(init[j] == ws[j]);
                assert(rest.contains(with_focus(init[j], active)));
                let k = choose|k: int| 0 <= k < rest.len() && rest[k] == with_focus(init[j], active);
                assert(r[k] == rest[k]);
            } else {
                assert(r[r.len() - 1] == with_focus(ws.last(), active));
            }
        }
    }
}

/// When exactly one desktop is marked current, that one is the current desktop.
pub proof fn lemma_single_current_desktop(ds: Seq<DesktopView>, k: int)
    requires
        0 <= k < ds.len(),
        ds[k].is_current,
        forall|j: int| 0 <= j < ds.len() && j != k ==> !(#[trigger] ds[j]).is_current,
    ensures
        first_current_from(ds, 0) == k,
{
    lemma_first_current_skips(ds, 0, k);
}

proof fn lemma_first_current_skips(ds: Seq<DesktopView>, i: int, k: int)
    requires
        0 <= i <= k < ds.len(),
        ds[k].is_current,
        forall|j: int| i <= j < k ==> !(#[trigger] ds[j]).is_current,
    ensures
        first_current_from(ds, i) == k,
    decreases k - i,
{
    if i < k {
        lemma_first_current_skips(ds, i + 1, k);
    }
}

/// When no desktop is marked current, there is no current desktop.
pub proof fn lemma_no_current_desktop(ds: Seq<DesktopView>, i: int)
    requires
        0 <= i <= ds.len(),
        forall|j: int| 0 <= j < ds.len() ==> !(#[trigger] ds[j]).is_current,
    ensures
        first_current_from(ds, i) == ds.len(),
    decreases ds.len() - i,
{
    if i < ds.len() {
        lemma_no_current_desktop(ds, i + 1);
    }
}

} // verus!
