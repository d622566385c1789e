use teatui::Buf;
use teatui::ConvertBuf;
use teatui::KeyCodeParser;

#[test]
fn new_buf_is_uninitialized() {
    let b = Buf::new();
    assert_eq!(b.len(), 0);
    assert!(!b.is_initialized());
    assert_eq!(b.as_bytes(), b"");
}

#[test]
fn new_with_len_zero_fills() {
    let b = Buf::new_with_len(3);
    assert_eq!(b.len(), 3);
    assert!(b.is_initialized());
    assert_eq!(b.as_bytes(), &[0, 0, 0]);
    assert_eq!(b.content(), Vec::<u8>::new());
}

#[test]
fn to_buf_appends_terminator() {
    let b = b"hi".to_vec().to_buf();
    assert_eq!(b.as_bytes(), b"hi\0");
    assert_eq!(b.len(), 3);
    assert_eq!(b.content(), b"hi".to_vec());
}

#[test]
fn append_joins_contents() {
    let mut a = b"ab".to_vec().to_buf();
    let b = b"cd".to_vec().to_buf();
    a.append(&b);
    assert_eq!(a.as_bytes(), b"abcd\0");
    assert_eq!(a.content(), b"abcd".to_vec());
}

#[test]
fn content_stops_at_first_zero() {
    let b = vec![b'x', 0, b'y'].to_buf();
    assert_eq!(b.content(), b"x".to_vec());
}

#[test]
fn resize_keeps_prefix_and_zero_fills() {
    let mut b = b"abc".to_vec().to_buf();
    b.resize(2);
    assert_eq!(b.as_bytes(), b"ab");
    b.resize(4);
    assert_eq!(b.as_bytes(), b"ab\0\0");
}

#[test]
fn join_concatenates_contents() {
    let bufs = vec![b"ab".to_vec().to_buf(), Buf::new(), b"c".to_vec().to_buf()];
    let joined = Buf::join(&bufs);
    assert_eq!(joined.as_bytes(), b"abc\0");
}

#[test]
fn parser_buffer_takes_buf_content() {
    let mut p = KeyCodeParser::default();
    let b = b"A".to_vec().to_buf();
    p.buffer(&b);
    let kc = p.parse_keycode().expect("event");
    assert_eq!(kc.code, b"A".to_vec());
    assert!(p.parse_keycode().is_none());
}
