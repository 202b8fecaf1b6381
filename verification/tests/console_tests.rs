use sintet::console::{is_whitespace, parse_command, Console, ConsoleCommand};
use sintet::text::{chars_of, decimal_string, parse_usize};

#[test]
fn not_a_command() {
    assert!(matches!(parse_command(""), ConsoleCommand::Ignored));
    assert!(matches!(parse_command("hello"), ConsoleCommand::Ignored));
    assert!(matches!(parse_command(" /tp 1 2"), ConsoleCommand::Ignored));
}

#[test]
fn teleport_and_resize() {
    match parse_command("/tp 1.5 -2") {
        ConsoleCommand::Teleport(x, y) => {
            assert_eq!(x, "1.5");
            assert_eq!(y, "-2");
        }
        other => panic!("{:?}", other),
    }
    match parse_command("/tp\t3   4 extra") {
        ConsoleCommand::Teleport(x, y) => assert_eq!((x.as_str(), y.as_str()), ("3", "4")),
        other => panic!("{:?}", other),
    }
    assert!(matches!(parse_command("/tp 1"), ConsoleCommand::Incomplete));
    match parse_command("/size 2") {
        ConsoleCommand::Resize(s) => assert_eq!(s, "2"),
        other => panic!("{:?}", other),
    }
    assert!(matches!(parse_command("/size"), ConsoleCommand::Incomplete));
}

#[test]
fn get_ammo() {
    assert!(matches!(parse_command("/get ammo 30"), ConsoleCommand::GiveAmmo(30)));
    assert!(matches!(parse_command("/get ammo +7"), ConsoleCommand::GiveAmmo(7)));
    assert!(matches!(parse_command("/get ammo x"), ConsoleCommand::Incomplete));
    assert!(matches!(parse_command("/get ammo -1"), ConsoleCommand::Incomplete));
    assert!(matches!(parse_command("/get ammo"), ConsoleCommand::Incomplete));
    assert!(matches!(parse_command("/get gun 3"), ConsoleCommand::Unknown));
    assert!(matches!(parse_command("/get ammo 999999999999999999999999"), ConsoleCommand::Incomplete));
    assert!(matches!(parse_command("/fly"), ConsoleCommand::Unknown));
    assert!(matches!(parse_command("/ tp 1 2"), ConsoleCommand::Unknown));
}

#[test]
fn parse_agrees_with_std() {
    let samples = [
        "0", "7", "+7", "+", "", "-0", "007", "12a", "18446744073709551615", "18446744073709551616",
        "4294967295", "4294967296", "99999999999999999999", "+0", "1 2",
    ];
    for s in samples {
        let chars = chars_of(s);
        assert_eq!(parse_usize(&chars, 0, chars.len()), s.parse::<usize>().ok(), "{:?}", s);
    }
}

#[test]
fn whitespace_agrees_with_std() {
    for u in 0u32..0x11000 {
        if let Some(c) = char::from_u32(u) {
            assert_eq!(is_whitespace(c), c.is_whitespace(), "{:#x}", u);
        }
    }
}

#[test]
fn law_decimal_reads_back_examples() {
    for n in [0usize, 9, 10, 99, 100, 12345, usize::MAX] {
        let text = decimal_string(n);
        assert_eq!(text, n.to_string());
        let chars = chars_of(&text);
        assert_eq!(parse_usize(&chars, 0, chars.len()), Some(n));
    }
}

#[test]
fn console_history() {
    let mut c = Console::new();
    assert_eq!(c.submit(), None);
    c.set_line("/tp 1 2".to_string());
    assert_eq!(c.submit().as_deref(), Some("/tp 1 2"));
    assert_eq!(c.line_input(), "");
    c.set_line("/size 3".to_string());
    assert_eq!(c.submit().as_deref(), Some("/size 3"));
    c.history_up();
    assert_eq!(c.line_input(), "/size 3");
    c.history_up();
    assert_eq!(c.line_input(), "/size 3");
    c.history_down();
    assert_eq!(c.line_input(), "/tp 1 2");
    c.history_down();
    assert_eq!(c.line_input(), "/tp 1 2");
    c.close();
    assert_eq!(c.line_input(), "");
    let d = Console::default();
    assert_eq!(d.line_input(), "");
}
