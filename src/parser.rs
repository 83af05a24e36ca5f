//! Line grammars of the three upstream text formats: the window list, the
//! desktop list and the active-window property dump.
use vstd::prelude::*;

use crate::scan::{
    is_blank, is_digit, lemma_find_space_at, lemma_skip_blanks_at, lemma_skip_digits_at,
    find_space, find_space_exec, has_at, has_at_exec, skip_blanks, skip_blanks_exec, skip_digits,
    skip_digits_exec, skip_markers, skip_markers_exec, slice,
};
use crate::Error;

verus! {

broadcast use vstd::string::group_string_axioms;

/// The four fields of a window-list line, as text.
#[derive(Debug, PartialEq, Eq)]
pub struct WindowToken {
    pub identity: String,
    pub desktop: String,
    pub machine_name: String,
    pub title: String,
}

pub struct WindowTokenView {
    pub identity: Seq<char>,
    pub desktop: Seq<char>,
    pub machine_name: Seq<char>,
    pub title: Seq<char>,
}

impl View for WindowToken {
    type V = WindowTokenView;

    open spec fn view(&self) -> WindowTokenView {
        WindowTokenView {
            identity: self.identity@,
            desktop: self.desktop@,
            machine_name: self.machine_name@,
            title: self.title@,
        }
    }
}

/// The fields of a desktop-list line, as text (see `man wmctrl`).
#[derive(Debug, PartialEq, Eq)]
pub struct DesktopToken {
    /// Desktop number
    pub number: String,
    /// Desktop marker: `*` for current, `-` for everything else
    pub marker: String,
    /// DG - Desktop Geometry
    pub desktop_geometry: String,
    /// VP - Viewport Position
    pub viewport_position: String,
    /// WA - Workarea geometry
    pub workarea: String,
    /// Name of a desktop
    pub name: String,
}

pub struct DesktopTokenView {
    pub number: Seq<char>,
    pub marker: Seq<char>,
    pub desktop_geometry: Seq<char>,
    pub viewport_position: Seq<char>,
    pub workarea: Seq<char>,
    pub name: Seq<char>,
}

impl View for DesktopToken {
    type V = DesktopTokenView;

    open spec fn view(&self) -> DesktopTokenView {
        DesktopTokenView {
            number: self.number@,
            marker: self.marker@,
            desktop_geometry: self.desktop_geometry@,
            viewport_position: self.viewport_position@,
            workarea: self.workarea@,
            name: self.name@,
        }
    }
}

/// The window-list grammar:
/// `<id> <blanks><digits> <blanks><machine-name> <blanks><title>`, where the id
/// and the machine name run up to the next space and the title is the rest of
/// the line. `None` when the line does not have that shape.
pub open spec fn window_fields(s: Seq<char>) -> Option<WindowTokenView> {
    let a = find_space(s, 0);
    let b = skip_blanks(s, a);
    let c = skip_digits(s, b);
    let d = skip_blanks(s, c);
    let e = find_space(s, d);
    let f = skip_blanks(s, e);
    if 0 < a < s.len() && b < c < d < e < s.len() {
        Some(
            WindowTokenView {
                identity: s.subrange(0, a),
                desktop: s.subrange(b, c),
                machine_name: s.subrange(d, e),
                title: s.subrange(f, s.len() as int),
            },
        )
    } else {
        None
    }
}

pub open spec fn dg_label() -> Seq<char> {
    seq!['D', 'G', ':']
}

pub open spec fn vp_label() -> Seq<char> {
    seq!['V', 'P', ':']
}

pub open spec fn wa_label() -> Seq<char> {
    seq!['W', 'A', ':']
}

/// Where a labelled field `<label> <blanks><value>` that starts at `i` has its
/// value: `(start, end)` of the value, or `None` when the label is missing or
/// the value is empty or not followed by a space.
pub open spec fn labelled_value(s: Seq<char>, i: int, label: Seq<char>) -> Option<(int, int)> {
    let v = skip_blanks(s, i + label.len());
    let e = find_space(s, v);
    if has_at(s, i, label) && i + label.len() < v < e < s.len() {
        Some((v, e))
    } else {
        None
    }
}

/// The desktop-list grammar:
/// `<number> <blanks><markers> <blanks>DG: <geometry> VP: <viewport> WA: <workarea> <name>`,
/// with blanks between all parts, markers a run of `*` and `-`, and the name
/// the rest of the line. `None` when the line does not have that shape.
pub open spec fn desktop_fields(s: Seq<char>) -> Option<DesktopTokenView> {
    let a = find_space(s, 0);
    let b = skip_blanks(s, a);
    let c = skip_markers(s, b);
    let d = skip_blanks(s, c);
    if 0 < a < s.len() && b < c < d {
        match labelled_value(s, d, dg_label()) {
            None => None,
            Some(dg) => match labelled_value(s, skip_blanks(s, dg.1), vp_label()) {
                None => None,
                Some(vp) => match labelled_value(s, skip_blanks(s, vp.1), wa_label()) {
                    None => None,
                    Some(wa) => Some(
                        DesktopTokenView {
                            number: s.subrange(0, a),
                            marker: s.subrange(b, c),
                            desktop_geometry: s.subrange(dg.0, dg.1),
                            viewport_position: s.subrange(vp.0, vp.1),
                            workarea: s.subrange(wa.0, wa.1),
                            name: s.subrange(skip_blanks(s, wa.1), s.len() as int),
                        },
                    ),
                },
            },
        }
    } else {
        None
    }
}

pub open spec fn active_window_label() -> Seq<char> {
    seq![
        '_', 'N', 'E', 'T', '_', 'A', 'C', 'T', 'I', 'V', 'E', '_', 'W', 'I', 'N', 'D', 'O', 'W',
        '(', 'W', 'I', 'N', 'D', 'O', 'W', ')', ':',
    ]
}

pub open spec fn window_word() -> Seq<char> {
    seq!['w', 'i', 'n', 'd', 'o', 'w']
}

pub open spec fn id_word() -> Seq<char> {
    seq!['i', 'd']
}

pub open spec fn hash_word() -> Seq<char> {
    seq!['#']
}

/// Matches `word` at `i` followed by at least one blank; gives the index after
/// the blanks.
pub open spec fn word_then_blanks(s: Seq<char>, i: int, word: Seq<char>) -> Option<int> {
    let e = skip_blanks(s, i + word.len());
    if has_at(s, i, word) && i + word.len() < e {
        Some(e)
    } else {
        None
    }
}

/// The active-window grammar:
/// `_NET_ACTIVE_WINDOW(WINDOW): <blanks>window <blanks>id <blanks># <blanks><id>`,
/// giving the rest of the line after the last blanks.
pub open spec fn active_window_field(s: Seq<char>) -> Option<Seq<char>> {
    match word_then_blanks(s, 0, active_window_label()) {
        None => None,
        Some(a) => match word_then_blanks(s, a, window_word()) {
            None => None,
            Some(b) => match word_then_blanks(s, b, id_word()) {
                None => None,
                Some(c) => match word_then_blanks(s, c, hash_word()) {
                    None => None,
                    Some(d) => Some(s.subrange(d, s.len() as int)),
                },
            },
        },
    }
}

/// Splits a window-list line into its fields.
pub fn window_line(input: &str) -> (r: Result<WindowToken, Error>)
    ensures
        match window_fields(input@) {
            Some(t) => r is Ok && r->Ok_0@ == t,
            None => r == Err::<WindowToken, Error>(Error::Syntax),
        },
{
    let len = input.unicode_len();
    let a = find_space_exec(input, len, 0);
    let b = skip_blanks_exec(input, len, a);
    let c = skip_digits_exec(input, len, b);
    let d = skip_blanks_exec(input, len, c);
    let e = find_space_exec(input, len, d);
    let f = skip_blanks_exec(input, len, e);
    if 0 < a && a < len && b < c && c < d && d < e && e < len {
        Ok(
            WindowToken {
                identity: slice(input, 0, a),
                desktop: slice(input, b, c),
                machine_name: slice(input, d, e),
                title: slice(input, f, len),
            },
        )
    } else {
        Err(Error::Syntax)
    }
}

fn labelled_value_exec(s: &str, len: usize, i: usize, label: &str) -> (r: Option<(usize, usize)>)
    requires
        len == s@.len(),
        i <= len,
    ensures
        match labelled_value(s@, i as int, label@) {
            Some(p) => r == Some((p.0 as usize, p.1 as usize)) && p.1 < len,
            None => r is None,
        },
{
    if !has_at_exec(s, len, i, label) {
        return None;
    }
    let n = label.unicode_len();
    let v = skip_blanks_exec(s, len, i + n);
    let e = find_space_exec(s, len, v);
    if i + n < v && v < e && e < len {
        Some((v, e))
    } else {
        None
    }
}

/// Splits a desktop-list line into its fields.
pub fn desktop_line(input: &str) -> (r: Result<DesktopToken, Error>)
    ensures
        match desktop_fields(input@) {
            Some(t) => r is Ok && r->Ok_0@ == t,
            None => r == Err::<DesktopToken, Error>(Error::Syntax),
        },
{
    proof {
        reveal_strlit("DG:");
        reveal_strlit("VP:");
        reveal_strlit("WA:");
        assert("DG:"@ =~= dg_label());
        assert("VP:"@ =~= vp_label());
        assert("WA:"@ =~= wa_label());
    }
    let len = input.unicode_len();
    let a = find_space_exec(input, len, 0);
    let b = skip_blanks_exec(input, len, a);
    let c = skip_markers_exec(input, len, b);
    let d = skip_blanks_exec(input, len, c);
    if !(0 < a && a < len && b < c && c < d) {
        return Err(Error::Syntax);
    }
    let dg = match labelled_value_exec(input, len, d, "DG:") {
        Some(p) => p,
        None => return Err(Error::Syntax),
    };
    let vp_at = skip_blanks_exec(input, len, dg.1);
    let vp = match labelled_value_exec(input, len, vp_at, "VP:") {
        Some(p) => p,
        None => return Err(Error::Syntax),
    };
    let wa_at = skip_blanks_exec(input, len, vp.1);
    let wa = match labelled_value_exec(input, len, wa_at, "WA:") {
        Some(p) => p,
        None => return Err(Error::Syntax),
    };
    let name_at = skip_blanks_exec(input, len, wa.1);
    Ok(
        DesktopToken {
            number: slice(input, 0, a),
            marker: slice(input, b, c),
            desktop_geometry: slice(input, dg.0, dg.1),
            viewport_position: slice(input, vp.0, vp.1),
            workarea: slice(input, wa.0, wa.1),
            name: slice(input, name_at, len),
        },
    )
}

fn word_then_blanks_exec(s: &str, len: usize, i: usize, word: &str) -> (r: Option<usize>)
    requires
        len == s@.len(),
        i <= len,
    ensures
        match word_then_blanks(s@, i as int, word@) {
            Some(e) => r == Some(e as usize) && e <= len,
            None => r is None,
        },
{
    if !has_at_exec(s, len, i, word) {
        return None;
    }
    let n = word.unicode_len();
    let e = skip_blanks_exec(s, len, i + n);
    if i + n < e {
        Some(e)
    } else {
        None
    }
}

/// Takes the window id text out of an active-window line.
pub fn xprop_line(input: &str) -> (r: Result<String, Error>)
    ensures
        match active_window_field(input@) {
            Some(t) => r is Ok && r->Ok_0@ == t,
            None => r == Err::<String, Error>(Error::Syntax),
        },
{
    proof {
        reveal_strlit("_NET_ACTIVE_WINDOW(WINDOW):");
        reveal_strlit("window");
        reveal_strlit("id");
        reveal_strlit("#");
        assert("_NET_ACTIVE_WINDOW(WINDOW):"@ =~= active_window_label());
        assert("window"@ =~= window_word());
        assert("id"@ =~= id_word());
        assert("#"@ =~= hash_word());
    }
    let len = input.unicode_len();
    let a = match word_then_blanks_exec(input, len, 0, "_NET_ACTIVE_WINDOW(WINDOW):") {
        Some(e) => e,
        None => return Err(Error::Syntax),
    };
    let b = match word_then_blanks_exec(input, len, a, "window") {
        Some(e) => e,
        None => return Err(Error::Syntax),
    };
    let c = match word_then_blanks_exec(input, len, b, "id") {
        Some(e) => e,
        None => return Err(Error::Syntax),
    };
    let d = match word_then_blanks_exec(input, len, c, "#") {
        Some(e) => e,
        None => return Err(Error::Syntax),
    };
    Ok(slice(input, d, len))
}

/// Blanks that separate two fields: a space, then any spaces and tabs.
pub open spec fn is_separator(w: Seq<char>) -> bool {
    w.len() > 0 && w[0] == ' ' && forall|j: int| 0 <= j < w.len() ==> is_blank(#[trigger] w[j])
}

/// Fields that a window-list line can carry and give back unchanged: an id and
/// a machine name without spaces, the machine name not starting with a tab, a
/// desktop of decimal digits, and a title that does not start with a blank.
pub open spec fn is_window_line_fields(t: WindowTokenView) -> bool {
    &&& t.identity.len() > 0
    &&& forall|j: int| 0 <= j < t.identity.len() ==> #[trigger] t.identity[j] != ' '
    &&& t.desktop.len() > 0
    &&& forall|j: int| 0 <= j < t.desktop.len() ==> is_digit(#[trigger] t.desktop[j])
    &&& t.machine_name.len() > 0 && !is_blank(t.machine_name[0])
    &&& forall|j: int| 0 <= j < t.machine_name.len() ==> #[trigger] t.machine_name[j] != ' '
    &&& t.title.len() == 0 || !is_blank(t.title[0])
}

/// The window-list line that writes the fields `t` with the separators `w1`,
/// `w2` and `w3` between them.
pub open spec fn window_line_text(
    t: WindowTokenView,
    w1: Seq<char>,
    w2: Seq<char>,
    w3: Seq<char>,
) -> Seq<char> {
    t.identity + w1 + t.desktop + w2 + t.machine_name + w3 + t.title
}

/// Reading a window-list line gives back, verbatim, the fields it was written
/// from, whatever blanks separate them.
pub proof fn lemma_window_line_round_trip(
    t: WindowTokenView,
    w1: Seq<char>,
    w2: Seq<char>,
    w3: Seq<char>,
)
    requires
        is_window_line_fields(t),
        is_separator(w1),
        w2.len() > 0 && forall|j: int| 0 <= j < w2.len() ==> is_blank(#[trigger] w2[j]),
        is_separator(w3),
    ensures
        window_fields(window_line_text(t, w1, w2, w3)) == Some(t),
{
    let s = window_line_text(t, w1, w2, w3);
    let a = t.identity.len() as int;
    let b = a + w1.len();
    let c = b + t.desktop.len();
    let d = c + w2.len();
    let e = d + t.machine_name.len();
    let f = e + w3.len();
    assert(s.len() == f + t.title.len());
    assert forall|j: int| 0 <= j < a implies s[j] == t.identity[j] by {}
    assert forall|j: int| a <= j < b implies s[j] == w1[j - a] by {}
    assert forall|j: int| b <= j < c implies s[j] == t.desktop[j - b] by {}
    assert forall|j: int| c <= j < d implies s[j] == w2[j - c] by {}
    assert forall|j: int| d <= j < e implies s[j] == t.machine_name[j - d] by {}
    assert forall|j: int| e <= j < f implies s[j] == w3[j - e] by {}
    assert forall|j: int| f <= j < s.len() implies s[j] == t.title[j - f] by {}
    lemma_find_space_at(s, 0, a);
    lemma_skip_blanks_at(s, a, b);
    lemma_skip_digits_at(s, b, c);
    lemma_skip_blanks_at(s, c, d);
    lemma_find_space_at(s, d, e);
    lemma_skip_blanks_at(s, e, f);
    assert(s.subrange(0, a) =~= t.identity);
    assert(s.subrange(b, c) =~= t.desktop);
    assert(s.subrange(d, e) =~= t.machine_name);
    assert(s.subrange(f, s.len() as int) =~= t.title);
}

} // verus!
