use teatui::ansi::cpr_request;
use teatui::verify_handle_type;
use teatui::ConfigurationOption;
use teatui::HandleType;
use teatui::IHandle;
use teatui::ansi::cursor_home_escape;
use teatui::ansi::format_decimal;
use teatui::ansi::parse_cursor_report;
use teatui::ConvertBuf;
use teatui::Errno;
use teatui::Loop;
use teatui::Message;
use teatui::MessageType;
use teatui::Mode;
use teatui::OpenOptionSet;
use teatui::TUIError;
use teatui::WriteRequest;
use teatui::request::APPEND;
use teatui::request::CREAT;
use teatui::request::TRUNC;

#[test]
fn cpr_request_bytes() {
    assert_eq!(cpr_request(), b"\x1b[6n".to_vec());
}

#[test]
fn format_decimal_values() {
    assert_eq!(format_decimal(0), b"0".to_vec());
    assert_eq!(format_decimal(7), b"7".to_vec());
    assert_eq!(format_decimal(12345), b"12345".to_vec());
    assert_eq!(format_decimal(u64::MAX), b"18446744073709551615".to_vec());
}

#[test]
fn cursor_home_escape_bytes() {
    assert_eq!(cursor_home_escape((12, 34)), b"\x1b[12;34H".to_vec());
    assert_eq!(cursor_home_escape((1, 1)), b"\x1b[1;1H".to_vec());
}

#[test]
fn parse_cursor_report_values() {
    assert_eq!(parse_cursor_report(&b"\x1b[12;34R".to_vec()), Some((12, 34)));
    assert_eq!(parse_cursor_report(&b"\x1b[1;1Rtail".to_vec()), Some((1, 1)));
    assert_eq!(parse_cursor_report(&b"\x1b[;R".to_vec()), Some((0, 0)));
    assert_eq!(parse_cursor_report(&b"\x1b[12;34".to_vec()), None);
    assert_eq!(parse_cursor_report(&b"12;34R".to_vec()), None);
    assert_eq!(parse_cursor_report(&b"".to_vec()), None);
    assert_eq!(
        parse_cursor_report(&b"\x1b[99999999999999999999;1R".to_vec()),
        None,
        "a row beyond u64 is rejected"
    );
}

#[test]
fn message_kinds_are_total() {
    assert_eq!(Message::Terminate.kind(), MessageType::Terminate);
    assert_eq!(Message::Interrupt.kind(), MessageType::Interrupt);
    let err = Message::Error(TUIError::InternalUVError(Errno::EIO));
    assert_eq!(err.kind(), MessageType::Error);
}

#[test]
fn error_conversions() {
    assert_eq!(TUIError::from(Errno::EOF), TUIError::InternalUVError(Errno::EOF));
}

#[test]
fn open_option_set_bits() {
    let mut set = OpenOptionSet::new();
    assert!(!set.has(CREAT));
    set.set(CREAT);
    set.set(APPEND);
    assert!(set.has(CREAT));
    assert!(set.has(APPEND));
    assert!(!set.has(TRUNC));
    set.unset(CREAT);
    assert!(!set.has(CREAT));
    assert!(set.has(APPEND));
}

#[test]
fn fresh_event_loop_state() {
    let mut l = Loop::new().expect("a reactor");
    assert!(l.alive());
    l.stop();
    assert!(l.alive());
}

#[test]
fn loop_clock_converts_through_chrono() {
    let mut l = Loop::default();
    l.update_time(947_638_923_004);
    let at = l.now().expect("within range");
    let expect = chrono::DateTime::from_timestamp_millis(947_638_923_004)
        .expect("valid")
        .naive_utc();
    assert_eq!(at, expect);
    l.update_time(u64::MAX);
    assert!(l.now().is_none());
}

#[test]
fn check_handle_stop_is_idempotent() {
    let l = Loop::default();
    let mut check = l.new_check().expect("check handle");
    assert!(!check.is_started());
    check.start().expect("start");
    assert!(check.is_started());
    check.stop();
    assert!(!check.is_started());
    check.stop();
    assert!(!check.is_started());
}

#[test]
fn tty_read_stop_is_idempotent() {
    let l = Loop::default();
    let mut tty = l.new_tty(0).expect("tty");
    assert!(!tty.is_reading());
    tty.read_start().expect("read start");
    assert!(tty.is_reading());
    tty.read_stop();
    tty.read_stop();
    assert!(!tty.is_reading());
}

#[test]
fn tty_mode_changes() {
    let l = Loop::default();
    let mut tty = l.new_tty(0).expect("tty");
    tty.set_mode(Mode::RAW).expect("raw");
    tty.reset_mode().expect("normal");
    let written = tty.take_output();
    assert!(written.is_empty());
}

#[test]
fn tty_write_records_joined_contents() {
    let l = Loop::default();
    let mut tty = l.new_tty(1).expect("tty");
    let bufs = vec![b"he".to_vec().to_buf(), b"llo".to_vec().to_buf()];
    tty.write(WriteRequest::new(), &bufs).expect("write");
    let written = tty.take_output();
    assert_eq!(written, vec![b"hello".to_vec()]);
    assert!(tty.take_output().is_empty());
}

#[test]
fn handles_present_their_state() {
    let l = Loop::default();
    let mut check = l.new_check().expect("check");
    check.start().expect("start");
    let h = check.into_handle();
    assert_eq!(h.get_type(), HandleType::CHECK);
    assert!(h.active());
    assert!(!h.closing());
    let tty = l.new_tty(0).expect("tty");
    let h2 = tty.into_handle();
    assert_eq!(h2.get_type(), HandleType::TTY);
    assert!(!h2.active());
}

#[test]
fn loop_configure_accepts_options() {
    let mut l = Loop::default();
    assert!(l.configure(ConfigurationOption::METRICS_IDLE_TIME).is_ok());
    assert!(l.configure(ConfigurationOption::BLOCK_SIGNAL).is_ok());
}

#[test]
fn verify_handle_type_gates_non_terminals() {
    assert!(verify_handle_type(HandleType::TTY, HandleType::TTY).is_ok());
    assert_eq!(
        verify_handle_type(HandleType::TTY, HandleType::FILE),
        Err(TUIError::InvalidHandleType(HandleType::TTY, HandleType::FILE))
    );
}
