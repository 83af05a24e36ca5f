use wm_tools::parser::{desktop_line, window_line, xprop_line, DesktopToken, WindowToken};
use wm_tools::{Desktop, Error, Window, WindowDesktop, WindowId};

#[test]
fn parse_window_end_to_end() {
    let input =
        "0x010000ba  1    user@machine-name    Pattern Syntax - The Rust Programming Language — Mozilla Firefox";

    let actual = Window::from_string(input).unwrap();

    let expected = Window {
        identity: WindowId::from_hex("0x010000ba").unwrap(),
        desktop: WindowDesktop::Id(1),
        machine_name: "user@machine-name".into(),
        title: "Pattern Syntax - The Rust Programming Language — Mozilla Firefox".into(),
        is_focused: false,
    };

    assert_eq!(actual, expected);
}

#[test]
fn parse_desktop_end_to_end() {
    let input = "2  * DG: N/A  VP: N/A  WA: N/A  3";

    let actual = Desktop::from_string(input).unwrap();

    let expected = Desktop {
        number: 2,
        is_current: true,
        name: "3".into(),
    };

    assert_eq!(actual, expected);
}

#[test]
fn parse_xprop_end_to_end() {
    let input = "_NET_ACTIVE_WINDOW(WINDOW): window id # 0x1e00003";

    let actual = WindowId::from_xprop_string(input).unwrap();
    println!("{:?}", actual);
    let expected = WindowId::from_hex("0x1e00003").unwrap();

    assert_eq!(actual, expected);
}

#[test]
fn desktop_parse_line_1() {
    let input = "0  - DG: N/A  VP: N/A  WA: N/A  1";

    let actual = desktop_line(input).unwrap();
    let expected = DesktopToken {
        number: "0".into(),
        marker: "-".into(),
        desktop_geometry: "N/A".into(),
        viewport_position: "N/A".into(),
        workarea: "N/A".into(),
        name: "1".into(),
    };

    assert_eq!(actual, expected)
}

#[test]
fn desktop_parse_line_2() {
    let input = "2  * DG: N/A  VP: N/A  WA: N/A  3";

    let actual = desktop_line(input).unwrap();
    let expected = DesktopToken {
        number: "2".into(),
        marker: "*".into(),
        desktop_geometry: "N/A".into(),
        viewport_position: "N/A".into(),
        workarea: "N/A".into(),
        name: "3".into(),
    };

    assert_eq!(actual, expected)
}

#[test]
fn window_parse_line_1() {
    let input =
        "0x010000ba  1 machine-name nom - crates.io: Rust Package Registry — Mozilla Firefox";

    let actual = window_line(input).unwrap();
    let expected = WindowToken {
        identity: "0x010000ba".into(),
        desktop: "1".into(),
        machine_name: "machine-name".into(),
        title: "nom - crates.io: Rust Package Registry — Mozilla Firefox".into(),
    };

    assert_eq!(actual, expected)
}

#[test]
fn window_parse_line_2() {
    let input =
        "0x010000ba  1    user@machine-name    Pattern Syntax - The Rust Programming Language — Mozilla Firefox";

    let actual = window_line(input).unwrap();
    let expected = WindowToken {
        identity: "0x010000ba".into(),
        desktop: "1".into(),
        machine_name: "user@machine-name".into(),
        title: "Pattern Syntax - The Rust Programming Language — Mozilla Firefox".into(),
    };

    assert_eq!(actual, expected)
}

#[test]
fn parse_token_positive_desktop() {
    let input = WindowToken {
        identity: "0x010000ba".into(),
        desktop: "1".into(),
        machine_name: "machine-name".into(),
        title: "nom - crates.io: Rust Package Registry — Mozilla Firefox".into(),
    };

    let actual = Window::from_token(input).unwrap();

    let id = u64::from_str_radix("010000ba", 16).unwrap();
    let expected = Window {
        identity: WindowId(id),
        desktop: WindowDesktop::Id(1),
        machine_name: "machine-name".into(),
        title: "nom - crates.io: Rust Package Registry — Mozilla Firefox".into(),
        is_focused: false,
    };

    assert_eq!(actual, expected);
}

#[test]
fn parse_token_desktop_is_minus_1() {
    let input = WindowToken {
        identity: "0x010000ba".into(),
        desktop: "-1".into(),
        machine_name: "machine-name".into(),
        title: "nom - crates.io: Rust Package Registry — Mozilla Firefox".into(),
    };

    let actual = Window::from_token(input).unwrap();

    let id = u64::from_str_radix("010000ba", 16).unwrap();
    let expected = Window {
        identity: WindowId(id),
        desktop: WindowDesktop::StickyWindow,
        machine_name: "machine-name".into(),
        title: "nom - crates.io: Rust Package Registry — Mozilla Firefox".into(),
        is_focused: false,
    };

    assert_eq!(actual, expected);
}

#[test]
fn parse_token_desktop_less_than_minus_1() {
    let input = WindowToken {
        identity: "0x010000ba".into(),
        desktop: "-9".into(),
        machine_name: "machine-name".into(),
        title: "nom - crates.io: Rust Package Registry — Mozilla Firefox".into(),
    };

    let actual = Window::from_token(input).err().unwrap();
    let expected = Error::InvalidDesktopId(-9);

    assert_eq!(actual, expected);
}

#[test]
fn parse_line() {
    let input = "_NET_ACTIVE_WINDOW(WINDOW): window id # 0x1e00003";

    let actual = xprop_line(input).unwrap();
    let expected = String::from("0x1e00003");

    assert_eq!(actual, expected)
}
