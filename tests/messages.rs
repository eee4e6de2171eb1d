use rust_byte_record::{Message, MsgType, CONTENT_SIZE, MSG_SIZE, TYPE_SIZE};

#[test]
fn message_content_bytes_round_trip() {
    let mut m = Message::new(32);
    m.set_content_bytes(&[1, 2, 3, 4]);
    assert_eq!(m.get_content_size(), 4);
    assert_eq!(m.get_content_bytes(), &[1, 2, 3, 4]);
    assert_eq!(m.get_field(1, 8), &[0, 0, 0, 0, 0, 0, 0, 4]);
    assert_eq!(m.len(), 32);
}

#[test]
fn message_content_str_round_trip() {
    let mut m = Message::new(TYPE_SIZE + CONTENT_SIZE + 5);
    m.set_content_str("hello");
    assert_eq!(m.get_content_str(), Ok("hello"));
    assert_eq!(m.get_content_size(), 5);
    let mut big = Message::new(MSG_SIZE);
    big.set_content_str("a longer piece of text");
    assert_eq!(big.get_content_str(), Ok("a longer piece of text"));
}

#[test]
fn message_content_truncated() {
    let mut m = Message::new(11);
    m.set_content_bytes(&[1, 2, 3, 4]);
    assert_eq!(m.get_content_size(), 4);
    assert_eq!(m.get_field(9, 2), &[1, 2]);
}

#[test]
fn message_init_zeroes() {
    let mut m = Message::new(20);
    m.set_type(MsgType::QUIT);
    m.set_content_bytes(&[9, 9, 9]);
    m.init();
    assert_eq!(m.len(), 20);
    assert_eq!(m.array(), &[0; 20]);
}

#[test]
fn message_type_tag_isolation() {
    let mut m = Message::new(32);
    m.set_type(MsgType::TEXT);
    assert_eq!(m.get_type(), 1);
    m.set_content_str("hi there");
    m.set_content_bytes(&[7; 30]);
    assert_eq!(m.get_type(), 1);
    m.set_type(MsgType::END);
    assert_eq!(m.get_type(), 4);
}

#[test]
fn message_type_tags() {
    assert_eq!(MsgType::DEFAULT.tag(), 0);
    assert_eq!(MsgType::TEXT.tag(), 1);
    assert_eq!(MsgType::REPLY.tag(), 2);
    assert_eq!(MsgType::END.tag(), 4);
    assert_eq!(MsgType::QUIT.tag(), 8);
}

#[test]
fn message_fields_and_sizes() {
    let mut m = Message::new(16);
    m.set_content_size(258);
    assert_eq!(m.get_content_size(), 258);
    assert_eq!(m.get_field(1, 8), &[0, 0, 0, 0, 0, 0, 1, 2]);
    m.set_str(12, "abcdef");
    assert_eq!(m.get_str(12, 4), Ok("abcd"));
    m.set_field(15, &[0xFF]);
    assert!(m.get_str(15, 1).is_err());
    assert!(!m.is_empty());
    let e = Message::default();
    assert!(e.is_empty());
    assert_eq!(e.len(), 0);
}

#[test]
fn message_invalid_content_text() {
    let mut m = Message::new(12);
    m.set_content_bytes(&[0xFF, 0xFE]);
    assert!(m.get_content_str().is_err());
}
