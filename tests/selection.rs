use wm_tools::refresh::{Phase, RefreshLoop};
use wm_tools::render::{cut_to_width, fit_title, windows_into_line};
use wm_tools::select::{
    current_desktop, figure_out_windows, lines, parse_desktops, parse_windows, with_active_window,
};
use wm_tools::{Desktop, Error, Window, WindowDesktop, WindowId};

const DESKTOPS: &str = "0  - DG: N/A  VP: N/A  WA: N/A  1\n1  * DG: N/A  VP: N/A  WA: N/A  2\n2  - DG: N/A  VP: N/A  WA: N/A  3";
const WINDOWS: &str = "0x0a  1 host first\n0x0b  0 host other\n0x0c  2 host elsewhere\n0x0d  1 host second";

fn window(id: u64, desktop: WindowDesktop, title: &str, focused: bool) -> Window {
    Window {
        identity: WindowId(id),
        desktop,
        machine_name: "host".into(),
        title: title.into(),
        is_focused: focused,
    }
}

#[test]
fn lines_split_at_newlines() {
    assert_eq!(lines("a\nb c\n\nd"), vec!["a", "b c", "", "d"]);
    assert_eq!(lines("a\n"), vec!["a"]);
    assert!(lines("").is_empty());
    assert_eq!(lines("a\r\nb\r\n"), vec!["a", "b"]);
    assert_eq!(lines("a\rb\nc\r"), vec!["a\rb", "c\r"]);
    assert_eq!(lines("\r\n"), vec![""]);
}

#[test]
fn current_desktop_is_first_marked() {
    let desktops = parse_desktops(DESKTOPS).unwrap();
    assert_eq!(
        current_desktop(&desktops),
        Ok(Desktop { number: 1, is_current: true, name: "2".into() })
    );
    let two = vec![
        Desktop { number: 4, is_current: true, name: "a".into() },
        Desktop { number: 5, is_current: true, name: "b".into() },
    ];
    assert_eq!(current_desktop(&two).unwrap().number, 4);
}

#[test]
fn no_current_desktop_fails() {
    let desktops = vec![
        Desktop { number: 0, is_current: false, name: "a".into() },
        Desktop { number: 1, is_current: false, name: "b".into() },
    ];
    assert_eq!(current_desktop(&desktops), Err(Error::NoCurrentDesktop));
    assert_eq!(current_desktop(&Vec::new()), Err(Error::NoCurrentDesktop));
}

#[test]
fn selection_keeps_current_desktop_in_order() {
    let windows = parse_windows(WINDOWS).unwrap();
    let shown = with_active_window(&windows, 0x0d, 1);
    assert_eq!(
        shown,
        vec![
            window(0x0a, WindowDesktop::Id(1), "first", false),
            window(0x0d, WindowDesktop::Id(1), "second", true),
        ]
    );
    let none_focused = with_active_window(&windows, 0x0b, 1);
    assert!(none_focused.iter().all(|w| !w.is_focused));
    assert_eq!(none_focused.len(), 2);
}

#[test]
fn parse_windows_fails_on_bad_line() {
    assert_eq!(parse_windows("0x0a  1 host first\nbroken"), Err(Error::Syntax));
    assert_eq!(parse_windows("0x0a  -3 host first"), Err(Error::Syntax));
}

#[test]
fn full_pass_over_three_texts() {
    let xprop = "_NET_ACTIVE_WINDOW(WINDOW): window id # 0x0a";
    let shown = figure_out_windows(xprop, DESKTOPS, WINDOWS).unwrap();
    assert_eq!(
        shown,
        vec![
            window(0x0a, WindowDesktop::Id(1), "first", true),
            window(0x0d, WindowDesktop::Id(1), "second", false),
        ]
    );
    let no_current = "0  - DG: N/A  VP: N/A  WA: N/A  1";
    assert_eq!(figure_out_windows(xprop, no_current, WINDOWS), Err(Error::NoCurrentDesktop));
    assert_eq!(figure_out_windows("garbage", DESKTOPS, WINDOWS), Err(Error::Syntax));
    let crlf = "0  - DG: N/A  VP: N/A  WA: N/A  1\r\n1  * DG: N/A  VP: N/A  WA: N/A  2\r\n";
    let shown = figure_out_windows(xprop, crlf, "0x0a  1 host first\r\n").unwrap();
    assert_eq!(shown, vec![window(0x0a, WindowDesktop::Id(1), "first", true)]);
}

#[test]
fn renderer_empty_list_gives_empty_line() {
    assert_eq!(windows_into_line(&Vec::new(), 80), "");
}

#[test]
fn renderer_cuts_and_pads_titles() {
    let windows = vec![
        window(1, WindowDesktop::Id(0), "abcdefghijk", true),
        window(2, WindowDesktop::Id(0), "xy", false),
    ];
    let line = windows_into_line(&windows, 21);
    assert_eq!(
        line,
        "%{F#FFFFFF}%{B#4C5056} abcdefgh %{F-}%{B-}%{F#777777}%{B#282A2E} xy       %{F-}%{B-}"
    );
}

#[test]
fn fit_and_cut_helpers() {
    assert_eq!(cut_to_width("héllo wörld", 5), "héllo");
    assert_eq!(cut_to_width("ab", 5), "ab");
    assert_eq!(fit_title("ab", 4), "ab  ");
    assert_eq!(fit_title("abcdef", 4), "abcd");
    assert_eq!(fit_title("", 0), "");
}

#[test]
fn burst_signals_run_one_cycle() {
    let mut r = RefreshLoop::start();
    assert_eq!(r.phase, Phase::Computing);
    assert_eq!(r.last_cycle_ms, 0);
    r.on_cycle_done(100);
    assert!(!r.on_signal(110));
    assert!(r.on_signal(116));
    r.on_cycle_done(117);
    assert!(!r.on_signal(125));
    assert_eq!(r.phase, Phase::Idle);
}

#[test]
fn spaced_signals_each_run_a_cycle() {
    let mut r = RefreshLoop::start();
    r.on_cycle_done(0);
    assert!(r.on_signal(16));
    r.on_cycle_done(16);
    assert!(r.on_signal(32));
    r.on_cycle_done(32);
    assert!(r.on_signal(1000));
}
