use word_guess::binary_message::{BinaryMessage, CodecError, MessageType};
use word_guess::message::Message;

#[test]
fn round_trip_message() {
    let m = BinaryMessage::new_message(String::from("hello"));
    let bytes = m.serialize();
    let d = BinaryMessage::deserialize(&bytes);
    assert!(matches!(d.get_type(), MessageType::Message));
    assert_eq!(d.get_message(), m.get_message());
}

#[test]
fn round_trip_command() {
    let m = BinaryMessage::new_command(String::from("HEARTBEAT"));
    let bytes = m.serialize();
    let d = BinaryMessage::deserialize(&bytes);
    assert!(matches!(d.get_type(), MessageType::Command));
    assert_eq!(d.get_message().as_slice(), b"HEARTBEAT");
}

#[test]
fn round_trip_empty_payload() {
    let m = BinaryMessage::new_command(String::new());
    let bytes = m.serialize();
    assert_eq!(bytes, vec![0, 0, 1]);
    let d = BinaryMessage::deserialize(&bytes);
    assert!(matches!(d.get_type(), MessageType::Command));
    assert!(d.get_message().is_empty());
}

#[test]
fn round_trip_unknown_type() {
    let m = BinaryMessage::new_raw(MessageType::Unknown, vec![1, 2, 3]);
    let d = BinaryMessage::deserialize(&m.serialize());
    assert!(matches!(d.get_type(), MessageType::Unknown));
    assert_eq!(d.get_message().as_slice(), &[1, 2, 3]);
}

#[test]
fn round_trip_largest_payload() {
    let payload = vec![7u8; 65535];
    let m = BinaryMessage::new_raw(MessageType::Message, payload.clone());
    let d = BinaryMessage::deserialize(&m.serialize());
    assert!(matches!(d.get_type(), MessageType::Message));
    assert_eq!(d.get_message(), &payload);
}

#[test]
fn serialize_layout() {
    let m = BinaryMessage::new_message(String::from("hello"));
    assert_eq!(m.serialize(), vec![0, 5, 2, b'h', b'e', b'l', b'l', b'o']);
}

#[test]
fn deserialize_short_buffer() {
    let d = BinaryMessage::deserialize(&[0, 5]);
    assert!(matches!(d.get_type(), MessageType::Unknown));
    assert!(d.get_message().is_empty());
}

#[test]
fn deserialize_adversarial_length() {
    // A length prefix past the end of the buffer must be rejected, not read.
    let d = BinaryMessage::deserialize(&[0xFF, 0xFF, 1, b'x']);
    assert!(matches!(d.get_type(), MessageType::Unknown));
    assert!(d.get_message().is_empty());
}

#[test]
fn deserialize_padded_buffer() {
    // A read buffer is normally larger than the frame it holds.
    let mut buffer = vec![0u8; 4096];
    buffer[0] = 0;
    buffer[1] = 2;
    buffer[2] = 2;
    buffer[3] = b'h';
    buffer[4] = b'i';
    let d = BinaryMessage::deserialize(&buffer);
    assert!(matches!(d.get_type(), MessageType::Message));
    assert_eq!(d.get_message().as_slice(), b"hi");
}

#[test]
fn split_with_arguments() {
    let m = BinaryMessage::new_command(String::from("DM 2 hello"));
    let (command, args) = m.split().unwrap();
    assert_eq!(command, "DM");
    assert_eq!(args.as_slice(), b"2 hello");
}

#[test]
fn split_without_space() {
    let m = BinaryMessage::new_command(String::from("HEARTBEAT"));
    let (command, args) = m.split().unwrap();
    assert_eq!(command, "HEARTBEAT");
    assert!(args.is_empty());
}

#[test]
fn split_space_at_end() {
    let m = BinaryMessage::new_command(String::from("DROP "));
    let (command, args) = m.split().unwrap();
    assert_eq!(command, "DROP");
    assert!(args.is_empty());
}

#[test]
fn split_multibyte_command() {
    let m = BinaryMessage::new_command(String::from("héllo x"));
    let (command, args) = m.split().unwrap();
    assert_eq!(command, "héllo");
    assert_eq!(args.as_slice(), b"x");
}

#[test]
fn split_invalid_utf8() {
    let m = BinaryMessage::new_raw(MessageType::Command, vec![0xFF, 32, b'a']);
    assert!(matches!(m.split(), Err(CodecError::InvalidUtf8)));
}

#[test]
fn default_frame_is_empty_unknown() {
    let m = BinaryMessage::default();
    assert!(matches!(m.get_type(), MessageType::Unknown));
    assert!(m.get_message().is_empty());
}

#[test]
fn message_to_bytes_layout() {
    let m = Message::new("hey");
    assert_eq!(m.to_bytes(), vec![0, 3, 1, b'h', b'e', b'y']);
}

#[test]
fn message_from_bytes_reads_u32_length() {
    let bytes = [0u8, 0, 0, 2, b'o', b'k', 0, 0];
    let m = Message::from_bytes(&bytes).unwrap();
    assert_eq!(m.args, "ok");
}

#[test]
fn message_from_bytes_short_buffer() {
    assert!(Message::from_bytes(&[0, 0, 0]).is_none());
    assert!(Message::from_bytes(&[0, 0, 0, 9, b'x']).is_none());
}

#[test]
fn message_from_bytes_invalid_utf8() {
    assert!(Message::from_bytes(&[0, 0, 0, 1, 0xFF]).is_none());
}
