//! The status-bar line: one fixed-width segment per window.
use vstd::prelude::*;
use vstd::string::StringExecFns;

use crate::Window;
use crate::WindowView;
use crate::select::windows_view;

verus! {

/// Markup that opens the segment of the focused window.
pub open spec fn focused_open() -> Seq<char> {
    "%{F#FFFFFF}%{B#4C5056} "@
}

/// Markup that opens the segment of any other window.
pub open spec fn unfocused_open() -> Seq<char> {
    "%{F#777777}%{B#282A2E} "@
}

/// Markup that closes every segment.
pub open spec fn segment_close() -> Seq<char> {
    " %{F-}%{B-}"@
}

pub open spec fn spaces(n: nat) -> Seq<char> {
    Seq::new(n, |i: int| ' ')
}

/// The first `n` characters of `t`, filled up with spaces to `n` when `t` is shorter.
pub open spec fn fit(t: Seq<char>, n: nat) -> Seq<char> {
    if t.len() >= n {
        t.take(n as int)
    } else {
        t + spaces((n - t.len()) as nat)
    }
}

pub open spec fn segment(w: WindowView, n: nat) -> Seq<char> {
    (if w.is_focused {
        focused_open()
    } else {
        unfocused_open()
    }) + fit(w.title, n) + segment_close()
}

/// The segments of `ws`, each with `n` characters of title, one after the other.
pub open spec fn line_of(ws: Seq<WindowView>, n: nat) -> Seq<char>
    decreases ws.len(),
{
    if ws.len() == 0 {
        seq![]
    } else {
        line_of(ws.drop_last(), n) + segment(ws.last(), n)
    }
}

/// The first `max_width` characters of `s`.
pub fn cut_to_width(s: &str, max_width: usize) -> (r: String)
    ensures
        r@ == s@.take(if max_width < s@.len() { max_width as int } else { s@.len() as int }),
{
    let len = s.unicode_len();
    let n = if max_width < len {
        max_width
    } else {
        len
    };
    let r = crate::scan::slice(s, 0, n);
    proof {
        assert(r@ =~= s@.take(n as int));
    }
    r
}

/// `title` cut or filled with spaces to exactly `n` characters.
pub fn fit_title(title: &str, n: usize) -> (r: String)
    ensures
        r@ == fit(title@, n as nat),
{
    let mut r = cut_to_width(title, n);
    let len = r.as_str().unicode_len();
    let mut k: usize = len;
    while k < n
        invariant
            len == r@.len() - (k - len),
            len <= k <= n,
            len == if n < title@.len() { n as int } else { title@.len() as int },
            r@ == title@.take(len as int) + spaces((k - len) as nat),
        decreases n - k,
    {
        r.append(" ");
        proof {
            reveal_strlit(" ");
            assert(r@ =~= title@.take(len as int) + spaces((k + 1 - len) as nat));
        }
        k = k + 1;
    }
    proof {
        if title@.len() >= n {
            assert(r@ =~= title@.take(n as int));
        } else {
            assert(title@.take(len as int) =~= title@);
        }
    }
    r
}

/// The bar line for `windows` in `width_limit` characters: each window gets a
/// segment whose title part is `width_limit / windows.len() - 2` characters
/// wide; no windows give an empty line.
pub fn windows_into_line(windows: &Vec<Window>, width_limit: usize) -> (r: String)
    requires
        windows@.len() == 0 || width_limit as int / windows@.len() as int >= 2,
    ensures
        windows@.len() == 0 ==> r@.len() == 0,
        windows@.len() > 0 ==> r@ == line_of(
            windows_view(windows@),
            (width_limit as int / windows@.len() as int - 2) as nat,
        ),
{
    let total = windows.len();
    if total == 0 {
        return String::new();
    }
    let char_limit = width_limit / total - 2;
    let ghost ws = windows_view(windows@);
    let mut line = String::new();
    let mut i: usize = 0;
    while i < total
        invariant
            total == windows@.len(),
            ws == windows_view(windows@),
            i <= total,
            line@ == line_of(ws.subrange(0, i as int), char_limit as nat),
        decreases total - i,
    {
        let w = &windows[i];
        let internal = fit_title(w.title.as_str(), char_limit);
        let ghost before = line@;
        if w.is_focused {
            line.append("%{F#FFFFFF}%{B#4C5056} ");
        } else {
            line.append("%{F#777777}%{B#282A2E} ");
        }
        line.append(internal.as_str());
        line.append(" %{F-}%{B-}");
        proof {
            assert(ws.subrange(0, i + 1).drop_last() =~= ws.subrange(0, i as int));
            assert(ws.subrange(0, i + 1).last() == w@);
            assert(line@ =~= before + segment(w@, char_limit as nat));
        }
        i = i + 1;
    }
    proof {
        assert(ws.subrange(0, total as int) =~= ws);
    }
    line
}

/// Every segment of the line holds exactly `n` characters of title, and the
/// title part is the title itself when it fits.
pub proof fn lemma_segment_width(w: WindowView, n: nat)
    ensures
        fit(w.title, n).len() == n,
        w.title.len() <= n ==> fit(w.title, n).take(w.title.len() as int) == w.title,
        w.title.len() >= n ==> fit(w.title, n) == w.title.take(n as int),
{
    if w.title.len() <= n {
        assert(fit(w.title, n).take(w.title.len() as int) =~= w.title);
    }
}

} // verus!
