use teatui::is_shift;
use teatui::KeyCodeParser;
use teatui::KeyName;

fn parser_with(bytes: &[u8]) -> KeyCodeParser {
    let mut p = KeyCodeParser::default();
    p.feed(&bytes.to_vec());
    p
}

#[test]
fn empty_queue_yields_none() {
    let mut p = KeyCodeParser::default();
    assert!(p.parse_keycode().is_none());
}

#[test]
fn printable_uppercase_sets_shift() {
    let mut p = parser_with(b"A");
    let kc = p.parse_keycode().expect("one event");
    assert!(matches!(kc.key, KeyName::NONE));
    assert_eq!(kc.code, b"A".to_vec());
    assert!(kc.shift);
    assert!(!kc.ctrl);
    assert!(!kc.alt);
    assert!(p.parse_keycode().is_none());
}

#[test]
fn printable_lowercase_and_digit_unshifted() {
    let mut p = parser_with(b"a5");
    let kc = p.parse_keycode().expect("one event");
    assert!(!kc.shift);
    assert_eq!(kc.code, b"a".to_vec());
    let kc2 = p.parse_keycode().expect("second event");
    assert!(!kc2.shift);
    assert_eq!(kc2.code, b"5".to_vec());
}

#[test]
fn shift_classification_over_letter_and_digit_ranges() {
    for ch in b'A'..=b'Z' {
        assert!(is_shift(ch), "{ch} should be shifted");
    }
    for ch in b'a'..=b'z' {
        assert!(!is_shift(ch), "{ch} should not be shifted");
    }
    for ch in b'0'..=b'9' {
        assert!(!is_shift(ch), "{ch} should not be shifted");
    }
}

#[test]
fn shift_classification_of_symbols() {
    for ch in *b"!\"#$%&'():<>?@^_{|}~" {
        assert!(is_shift(ch), "{ch} should be shifted");
    }
    for ch in *b" *+,-./;=[]\\`" {
        assert!(!is_shift(ch), "{ch} should not be shifted");
    }
}

#[test]
fn named_control_bytes() {
    let cases: [(u8, KeyName); 8] = [
        (0x07, KeyName::BEL),
        (0x08, KeyName::BS),
        (0x09, KeyName::HT),
        (0x0a, KeyName::LF),
        (0x0b, KeyName::VT),
        (0x0c, KeyName::FF),
        (0x0d, KeyName::CR),
        (0x7f, KeyName::DEL),
    ];
    for (byte, name) in cases {
        let mut p = parser_with(&[byte]);
        let kc = p.parse_keycode().expect("one event");
        assert_eq!(kc.key, name);
        assert_eq!(kc.code, vec![byte]);
        assert!(kc.ctrl);
        assert!(!kc.shift);
    }
}

#[test]
fn unnamed_control_byte_is_generic_ctrl_event() {
    let mut p = parser_with(b"\x03");
    let kc = p.parse_keycode().expect("one event");
    assert!(matches!(kc.key, KeyName::NONE));
    assert!(kc.ctrl);
    assert_eq!(kc.code, vec![0x03]);
}

#[test]
fn high_byte_is_generic_ctrl_event() {
    let mut p = parser_with(&[0x80, 0xff]);
    let kc = p.parse_keycode().expect("first event");
    assert!(matches!(kc.key, KeyName::NONE));
    assert!(kc.ctrl);
    assert_eq!(kc.code, vec![0x80]);
    let kc2 = p.parse_keycode().expect("second event");
    assert_eq!(kc2.code, vec![0xff]);
}

#[test]
fn csi_round_trip() {
    let mut p = parser_with(b"\x1b[12;34R");
    let kc = p.parse_keycode().expect("exactly one event");
    assert!(matches!(kc.key, KeyName::NONE));
    assert_eq!(kc.code, b"\x1b[12;34R".to_vec());
    assert!(!kc.shift);
    assert!(!kc.ctrl);
    assert!(p.parse_keycode().is_none());
}

#[test]
fn partial_csi_rolls_back_and_resumes() {
    let mut p = parser_with(b"\x1b[12");
    assert!(p.parse_keycode().is_none());
    assert!(p.parse_keycode().is_none());
    p.feed(&b";34R".to_vec());
    let kc = p.parse_keycode().expect("completed event");
    assert_eq!(kc.code, b"\x1b[12;34R".to_vec());
}

#[test]
fn csi_with_empty_digit_runs() {
    let mut p = parser_with(b"\x1b[;R");
    let kc = p.parse_keycode().expect("event");
    assert_eq!(kc.code, b"\x1b[;R".to_vec());
}

#[test]
fn malformed_csi_stays_pending() {
    let mut p = parser_with(b"\x1bxAB");
    assert!(p.parse_keycode().is_none());
    assert!(p.parse_keycode().is_none());
}

#[test]
fn events_queue_in_order() {
    let mut p = parser_with(b"hi\r");
    assert_eq!(p.parse_keycode().unwrap().code, b"h".to_vec());
    assert_eq!(p.parse_keycode().unwrap().code, b"i".to_vec());
    let cr = p.parse_keycode().unwrap();
    assert_eq!(cr.key, KeyName::CR);
    assert!(p.parse_keycode().is_none());
}
