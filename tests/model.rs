use wm_tools::parser::{desktop_line, window_line, xprop_line, DesktopToken, WindowToken};
use wm_tools::{Desktop, Error, Window, WindowDesktop, WindowId};

fn token(identity: &str, desktop: &str) -> WindowToken {
    WindowToken {
        identity: identity.into(),
        desktop: desktop.into(),
        machine_name: "host".into(),
        title: "a title".into(),
    }
}

#[test]
fn hex_id_with_and_without_prefix() {
    assert_eq!(WindowId::from_hex("0x010000ba"), Ok(WindowId(0x010000ba)));
    assert_eq!(WindowId::from_hex("1e00003"), Ok(WindowId(0x1e00003)));
    assert_eq!(WindowId::from_hex("0xFFffFFffFFffFFff"), Ok(WindowId(u64::MAX)));
}

#[test]
fn hex_id_rejects_non_hex() {
    assert!(matches!(WindowId::from_hex("0xzz"), Err(Error::ParseWindowId(_))));
    assert!(matches!(WindowId::from_hex("0x"), Err(Error::ParseWindowId(_))));
    assert!(matches!(WindowId::from_hex(""), Err(Error::ParseWindowId(_))));
    assert!(matches!(
        WindowId::from_hex("0x10000000000000000"),
        Err(Error::ParseWindowId(_))
    ));
}

#[test]
fn desktop_digit_zero_and_large() {
    assert_eq!(Window::from_token(token("0x1", "0")).unwrap().desktop, WindowDesktop::Id(0));
    assert_eq!(Window::from_token(token("0x1", "7")).unwrap().desktop, WindowDesktop::Id(7));
    assert_eq!(
        Window::from_token(token("0x1", "2147483647")).unwrap().desktop,
        WindowDesktop::Id(2147483647)
    );
}

#[test]
fn desktop_digit_errors() {
    assert!(matches!(
        Window::from_token(token("0x1", "2147483648")),
        Err(Error::ParseDesktopId(_))
    ));
    assert!(matches!(Window::from_token(token("0x1", "x")), Err(Error::ParseDesktopId(_))));
    assert!(matches!(Window::from_token(token("0x1", "")), Err(Error::ParseDesktopId(_))));
    assert_eq!(
        Window::from_token(token("0x1", "-2147483648")),
        Err(Error::InvalidDesktopId(-2147483648))
    );
}

#[test]
fn window_with_bad_id_is_rejected() {
    assert!(matches!(Window::from_token(token("0xgg", "1")), Err(Error::ParseWindowId(_))));
}

#[test]
fn window_line_with_too_few_fields_is_syntax_error() {
    assert_eq!(window_line("0x01 1 host"), Err(Error::Syntax));
    assert_eq!(window_line("0x01 x host title"), Err(Error::Syntax));
    assert_eq!(window_line(""), Err(Error::Syntax));
    assert_eq!(Window::from_string("0x01"), Err(Error::Syntax));
}

#[test]
fn window_title_kept_verbatim() {
    let t = window_line("0xab 3\thost \t trailing  spaces  ").unwrap();
    assert_eq!(t.identity, "0xab");
    assert_eq!(t.desktop, "3");
    assert_eq!(t.machine_name, "host");
    assert_eq!(t.title, "trailing  spaces  ");
}

#[test]
fn desktop_marker_sets_current() {
    let current = Desktop::from_string("1  * DG: 1x1  VP: 0,0  WA: 0,0  main").unwrap();
    assert!(current.is_current);
    let other = Desktop::from_string("1  - DG: 1x1  VP: 0,0  WA: 0,0  main").unwrap();
    assert!(!other.is_current);
    let odd = Desktop::from_string("1  ** DG: 1x1  VP: 0,0  WA: 0,0  main").unwrap();
    assert!(!odd.is_current);
}

#[test]
fn desktop_name_keeps_spaces() {
    let t = desktop_line("10 - DG: 1920x1080 VP: 0,0 WA: 0,24,1920x1056 web and mail").unwrap();
    assert_eq!(
        t,
        DesktopToken {
            number: "10".into(),
            marker: "-".into(),
            desktop_geometry: "1920x1080".into(),
            viewport_position: "0,0".into(),
            workarea: "0,24,1920x1056".into(),
            name: "web and mail".into(),
        }
    );
}

#[test]
fn desktop_line_errors() {
    assert_eq!(desktop_line("2  * VP: N/A  DG: N/A  WA: N/A  3"), Err(Error::Syntax));
    assert_eq!(desktop_line("2  + DG: N/A  VP: N/A  WA: N/A  3"), Err(Error::Syntax));
    assert_eq!(desktop_line("2  * DG: N/A  VP: N/A  WA: N/A"), Err(Error::Syntax));
    assert!(matches!(
        Desktop::from_string("x  * DG: N/A  VP: N/A  WA: N/A  3"),
        Err(Error::ParseDesktopId(_))
    ));
}

#[test]
fn xprop_line_errors() {
    assert_eq!(xprop_line("_NET_ACTIVE_WINDOW(WINDOW): id window # 0x1"), Err(Error::Syntax));
    assert_eq!(xprop_line("_NET_ACTIVE_WINDOW(WINDOW): window id 0x1"), Err(Error::Syntax));
    assert_eq!(xprop_line("_NET_WM_NAME(WINDOW): window id # 0x1"), Err(Error::Syntax));
    assert!(matches!(
        WindowId::from_xprop_string("_NET_ACTIVE_WINDOW(WINDOW): window id # nothex"),
        Err(Error::ParseWindowId(_))
    ));
}

#[test]
fn desktop_digit_with_plus_sign() {
    assert_eq!(Window::from_token(token("0x1", "+5")).unwrap().desktop, WindowDesktop::Id(5));
    assert!(matches!(Window::from_token(token("0x1", "+")), Err(Error::ParseDesktopId(_))));
    assert!(matches!(Window::from_token(token("0x1", "-")), Err(Error::ParseDesktopId(_))));
    assert!(matches!(Window::from_token(token("0x1", "+-1")), Err(Error::ParseDesktopId(_))));
}

#[test]
fn desktop_number_with_plus_sign() {
    let d = Desktop::from_string("+2  * DG: N/A  VP: N/A  WA: N/A  3").unwrap();
    assert_eq!(d.number, 2);
    assert!(matches!(
        Desktop::from_string("+  * DG: N/A  VP: N/A  WA: N/A  3"),
        Err(Error::ParseDesktopId(_))
    ));
    assert!(matches!(
        Desktop::from_string("-2  * DG: N/A  VP: N/A  WA: N/A  3"),
        Err(Error::ParseDesktopId(_))
    ));
}

#[test]
fn hex_id_rejects_plus_sign() {
    assert!(matches!(WindowId::from_hex("+ba"), Err(Error::ParseWindowId(_))));
}
