//! Reads the window manager's window list, desktop list and active-window
//! property, picks the windows of the current desktop, and renders them as a
//! status-bar line. Each line grammar, the selection, the renderer and the
//! refresh loop's debounce rule carry contracts that Verus proves.
use vstd::prelude::*;

pub mod number;
pub mod parser;
pub mod refresh;
pub mod render;
pub mod scan;
pub mod select;

use crate::number::{parse_unsigned, unsigned_value};
use crate::parser::{
    desktop_line, window_line, xprop_line, DesktopToken, DesktopTokenView, WindowToken,
    WindowTokenView,
};
use crate::scan::{has_at, has_at_exec};

verus! {

broadcast use vstd::string::group_string_axioms;

/// What can go wrong while reading the window manager's state.
#[derive(Debug, PartialEq, Eq)]
pub enum Error {
    /// Running an upstream command failed.
    StdIo(String),
    /// An upstream command wrote text that is not UTF-8.
    Utf8(String),
    /// A desktop number is not a decimal integer in range.
    ParseDesktopId(String),
    /// A window id is not a hexadecimal integer in range.
    ParseWindowId(String),
    /// A window's desktop is negative and not the sticky marker `-1`.
    InvalidDesktopId(i32),
    /// A line does not have the shape of its format.
    Syntax,
    /// No desktop in the desktop list is marked current.
    NoCurrentDesktop,
}

/// An X window id.
#[derive(Clone, Copy, Debug, PartialEq, Eq, Structural, Hash, PartialOrd, Ord)]
pub struct WindowId(pub u64);

/// The text of a window id once an optional leading `0x` is taken off.
pub open spec fn hex_payload(s: Seq<char>) -> Seq<char> {
    if has_at(s, 0, seq!['0', 'x']) {
        s.subrange(2, s.len() as int)
    } else {
        s
    }
}

/// The id that a hexadecimal text writes, if it writes one that fits 64 bits.
pub open spec fn hex_id(s: Seq<char>) -> Option<u64> {
    match unsigned_value(hex_payload(s), 16) {
        Some(v) => if v <= u64::MAX {
            Some(v as u64)
        } else {
            None
        },
        None => None,
    }
}

impl WindowId {
    /// Reads a hexadecimal window id, with or without a leading `0x`.
    pub fn from_hex(s: &str) -> (r: Result<Self, Error>)
        ensures
            match hex_id(s@) {
                Some(v) => r == Ok::<WindowId, Error>(WindowId(v)),
                None => r is Err && r->Err_0 is ParseWindowId,
            },
    {
        proof {
            reveal_strlit("0x");
            assert("0x"@ =~= seq!['0', 'x']);
        }
        let len = s.unicode_len();
        let from: usize = if has_at_exec(s, len, 0, "0x") {
            2
        } else {
            0
        };
        proof {
            assert(s@.subrange(from as int, len as int) =~= hex_payload(s@));
        }
        match parse_unsigned(s, from, 16, u64::MAX) {
            Ok(v) => Ok(WindowId(v)),
            Err(e) => Err(Error::ParseWindowId(e.message())),
        }
    }

    /// Reads the active window's id out of an active-window line.
    pub fn from_xprop_string(input: &str) -> (r: Result<Self, Error>)
        ensures
            match crate::parser::active_window_field(input@) {
                None => r == Err::<WindowId, Error>(Error::Syntax),
                Some(t) => match hex_id(t) {
                    Some(v) => r == Ok::<WindowId, Error>(WindowId(v)),
                    None => r is Err && r->Err_0 is ParseWindowId,
                },
            },
    {
        let token = xprop_line(input)?;
        Self::from_hex(token.as_str())
    }
}

/// The desktop that a window is on.
#[derive(Clone, Copy, Debug, PartialEq, Eq, Structural)]
pub enum WindowDesktop {
    /// A numbered desktop, 0 and higher.
    Id(u32),
    /// Shown on every desktop; written `-1` upstream.
    StickyWindow,
}

/// A number's digits once an optional leading `+` is taken off.
pub open spec fn without_plus(s: Seq<char>) -> Seq<char> {
    if s.len() > 0 && s[0] == '+' {
        s.subrange(1, s.len() as int)
    } else {
        s
    }
}

/// The signed decimal integer that a text writes, if any: digits after an
/// optional `+` or `-`.
pub open spec fn signed_value(s: Seq<char>) -> Option<int> {
    if s.len() > 0 && s[0] == '-' {
        match unsigned_value(s.subrange(1, s.len() as int), 10) {
            Some(v) => Some(-v),
            None => None,
        }
    } else {
        unsigned_value(without_plus(s), 10)
    }
}

/// Index of the first digit of a number: past a leading `+`, if there is one.
fn digits_start(s: &str) -> (r: usize)
    ensures
        r <= s@.len(),
        s@.subrange(r as int, s@.len() as int) == without_plus(s@),
{
    let len = s.unicode_len();
    if len > 0 && s.get_char(0) == '+' {
        1
    } else {
        proof {
            assert(s@.subrange(0, len as int) =~= s@);
        }
        0
    }
}

/// The desktop number of a window-list line as a 32-bit signed integer, if it is one.
pub open spec fn desktop_number(s: Seq<char>) -> Option<int> {
    match signed_value(s) {
        Some(v) => if i32::MIN <= v <= i32::MAX {
            Some(v)
        } else {
            None
        },
        None => None,
    }
}

/// The desktop that a window's desktop number stands for, for numbers from -1 up.
pub open spec fn desktop_of(v: int) -> WindowDesktop {
    if v >= 0 {
        WindowDesktop::Id(v as u32)
    } else {
        WindowDesktop::StickyWindow
    }
}

fn parse_desktop_number(s: &str) -> (r: Result<i32, Error>)
    ensures
        match desktop_number(s@) {
            Some(v) => r == Ok::<i32, Error>(v as i32),
            None => r is Err && r->Err_0 is ParseDesktopId,
        },
{
    let len = s.unicode_len();
    if len > 0 && s.get_char(0) == '-' {
        match parse_unsigned(s, 1, 10, 2147483648) {
            Ok(v) => Ok((0 - (v as i64)) as i32),
            Err(e) => Err(Error::ParseDesktopId(e.message())),
        }
    } else {
        let from = digits_start(s);
        match parse_unsigned(s, from, 10, 2147483647) {
            Ok(v) => Ok(v as i32),
            Err(e) => Err(Error::ParseDesktopId(e.message())),
        }
    }
}

/// A window and the fields of the window list that describe it.
#[derive(Clone, Debug, PartialEq)]
pub struct Window {
    pub identity: WindowId,
    pub desktop: WindowDesktop,
    pub machine_name: String,
    pub title: String,
    pub is_focused: bool,
}

pub struct WindowView {
    pub identity: u64,
    pub desktop: WindowDesktop,
    pub machine_name: Seq<char>,
    pub title: Seq<char>,
    pub is_focused: bool,
}

impl View for Window {
    type V = WindowView;

    open spec fn view(&self) -> WindowView {
        WindowView {
            identity: self.identity.0,
            desktop: self.desktop,
            machine_name: self.machine_name@,
            title: self.title@,
            is_focused: self.is_focused,
        }
    }
}

/// How a window token becomes a window: `Ok` carries the window's view, and
/// `Err` the error of the first field that is wrong (`None` for an error
/// whose text is not fixed).
pub open spec fn window_from_fields(t: WindowTokenView) -> Result<WindowView, Option<Error>> {
    match desktop_number(t.desktop) {
        None => Err(None),
        Some(v) => if v < -1 {
            Err(Some(Error::InvalidDesktopId(v as i32)))
        } else {
            match hex_id(t.identity) {
                None => Err(None),
                Some(id) => Ok(
                    WindowView {
                        identity: id,
                        desktop: desktop_of(v),
                        machine_name: t.machine_name,
                        title: t.title,
                        is_focused: false,
                    },
                ),
            }
        },
    }
}

/// `r` is what `window_from_fields(t)` describes.
pub open spec fn window_result_matches(t: WindowTokenView, r: Result<Window, Error>) -> bool {
    match window_from_fields(t) {
        Ok(w) => r is Ok && r->Ok_0@ == w,
        Err(Some(e)) => r == Err::<Window, Error>(e),
        Err(None) => r is Err && (match desktop_number(t.desktop) {
            None => r->Err_0 is ParseDesktopId,
            Some(_) => r->Err_0 is ParseWindowId,
        }),
    }
}

impl Window {
    /// Reads a window out of a window-list line.
    pub fn from_string(input: &str) -> (r: Result<Self, Error>)
        ensures
            match crate::parser::window_fields(input@) {
                None => r == Err::<Window, Error>(Error::Syntax),
                Some(t) => window_result_matches(t, r),
            },
    {
        let token = window_line(input)?;
        Self::from_token(token)
    }

    /// Makes a window of the fields of a window-list line: the desktop number
    /// `-1` is the sticky desktop, any other negative number an error.
    pub fn from_token(token: WindowToken) -> (r: Result<Self, Error>)
        ensures
            window_result_matches(token@, r),
    {
        let desktop_dec = parse_desktop_number(token.desktop.as_str())?;
        let desktop = if desktop_dec >= 0 {
            WindowDesktop::Id(desktop_dec as u32)
        } else if desktop_dec == -1 {
            WindowDesktop::StickyWindow
        } else {
            return Err(Error::InvalidDesktopId(desktop_dec));
        };
        let identity = WindowId::from_hex(token.identity.as_str())?;
        Ok(
            Window {
                identity,
                desktop,
                machine_name: token.machine_name,
                title: token.title,
                is_focused: false,
            },
        )
    }
}

/// A virtual desktop of the window manager.
#[derive(Clone, Debug, PartialEq)]
pub struct Desktop {
    pub number: u32,
    pub is_current: bool,
    pub name: String,
}

pub struct DesktopView {
    pub number: u32,
    pub is_current: bool,
    pub name: Seq<char>,
}

impl View for Desktop {
    type V = DesktopView;

    open spec fn view(&self) -> DesktopView {
        DesktopView { number: self.number, is_current: self.is_current, name: self.name@ }
    }
}

/// The desktop number of a desktop-list line, if it is an unsigned 32-bit
/// integer: digits after an optional `+`.
pub open spec fn desktop_list_number(s: Seq<char>) -> Option<u32> {
    match unsigned_value(without_plus(s), 10) {
        Some(v) => if v <= u32::MAX {
            Some(v as u32)
        } else {
            None
        },
        None => None,
    }
}

/// `r` is the desktop that the fields `t` of a desktop-list line describe: the
/// marker `*` alone makes it current.
pub open spec fn desktop_result_matches(t: DesktopTokenView, r: Result<Desktop, Error>) -> bool {
    match desktop_list_number(t.number) {
        None => r is Err && r->Err_0 is ParseDesktopId,
        Some(n) => r is Ok && r->Ok_0@ == (DesktopView {
            number: n,
            is_current: t.marker == seq!['*'],
            name: t.name,
        }),
    }
}

impl Desktop {
    /// Reads a desktop out of a desktop-list line.
    pub fn from_string(input: &str) -> (r: Result<Self, Error>)
        ensures
            match crate::parser::desktop_fields(input@) {
                None => r == Err::<Desktop, Error>(Error::Syntax),
                Some(t) => desktop_result_matches(t, r),
            },
    {
        let token = desktop_line(input)?;
        Self::from_token(token)
    }

    /// Makes a desktop of the fields of a desktop-list line.
    pub fn from_token(token: DesktopToken) -> (r: Result<Self, Error>)
        ensures
            desktop_result_matches(token@, r),
    {
        proof {
            reveal_strlit("*");
            assert("*"@ =~= seq!['*']);
        }
        let from = digits_start(token.number.as_str());
        let number = match parse_unsigned(token.number.as_str(), from, 10, 4294967295) {
            Ok(v) => v as u32,
            Err(e) => return Err(Error::ParseDesktopId(e.message())),
        };
        let is_current = has_at_exec(token.marker.as_str(), token.marker.unicode_len(), 0, "*")
            && token.marker.unicode_len() == 1;
        proof {
            if token.marker@.len() == 1 {
                assert(token.marker@.subrange(0, 1) =~= token.marker@);
            }
            if token.marker@ == seq!['*'] {
                assert(token.marker@.subrange(0, 1) =~= token.marker@);
            }
        }
        Ok(Desktop { number, is_current, name: token.name })
    }
}

/// The windows of one refresh, sorted by where they are shown.
pub struct State {
    pub current_desktop: i32,
    pub all_windows: Vec<Window>,
    pub this_desktop_windows: Vec<Window>,
    pub sticky_windows: Vec<Window>,
}

} // verus!
