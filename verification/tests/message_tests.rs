use chat::codec::{decode, DecodeResult};
use chat::{Message, MessageError, MessageType};

#[test]
fn test_message_text() {
    let msg = Message {
        nickname: "slava".to_string(),
        message: MessageType::Text("Hello".to_string()),
    };
    assert_eq!(msg.nickname, "slava");
    match msg.message {
        MessageType::Text(ref text) => assert_eq!(text, "Hello"),
        _ => panic!("Expected MessageType::Text"),
    }
}

#[test]
fn test_message_image() {
    let image_data = vec![1, 2, 3, 4];
    let msg = Message {
        nickname: "slava".to_string(),
        message: MessageType::Image(image_data.clone()),
    };
    assert_eq!(msg.nickname, "slava");
    match msg.message {
        MessageType::Image(ref data) => assert_eq!(data, &image_data),
        _ => panic!("Expected MessageType::Image"),
    }
}

#[test]
fn test_message_file() {
    let file_name = "file.txt".to_string();
    let file_content = vec![0u8; 5];
    let msg = Message {
        nickname: "slava".to_string(),
        message: MessageType::File {
            name: file_name.clone(),
            content: file_content.clone(),
        },
    };
    assert_eq!(msg.nickname, "slava");
    match msg.message {
        MessageType::File {
            ref name,
            ref content,
        } => {
            assert_eq!(name, &file_name);
            assert_eq!(content, &file_content);
        }
        _ => panic!("Expected MessageType::File"),
    }
}

#[test]
fn test_message_serialization() {
    let msg = Message {
        nickname: "slava.".to_string(),
        message: MessageType::Text("Hello".to_string()),
    };
    let serialized = msg.serialized_message().unwrap();
    let deserialized: Message = Message::deserialized_message(&serialized).unwrap();
    assert_eq!(msg, deserialized);
}

#[test]
fn test_serialized_message_exact_bytes() {
    let msg = Message {
        nickname: "user".to_string(),
        message: MessageType::Text("Hello".to_string()),
    };
    let serialized = msg.serialized_message().unwrap();
    let expected: Vec<u8> = vec![
        4, 0, 0, 0, 0, 0, 0, 0, 117, 115, 101, 114, 0, 0, 0, 0, 5, 0, 0, 0, 0, 0, 0, 0, 72, 101,
        108, 108, 111,
    ];
    assert_eq!(serialized, expected);
}

#[test]
fn test_encode_prepends_big_endian_length() {
    let msg = Message::from("user", MessageType::text("Hello"));
    let frame = msg.encode().unwrap();
    let body = msg.serialized_message().unwrap();
    assert_eq!(frame.len(), body.len() + 4);
    assert_eq!(&frame[0..4], &[0u8, 0, 0, body.len() as u8]);
    assert_eq!(&frame[4..], &body[..]);
}

fn round_trip(msg: &Message) {
    let frame = msg.encode().unwrap();
    match decode(&frame, false) {
        DecodeResult::Frame { message, consumed } => {
            assert_eq!(&message, msg);
            assert_eq!(consumed, frame.len());
        }
        _ => panic!("expected a decoded frame"),
    }
}

#[test]
fn test_round_trip_text() {
    round_trip(&Message::from("alice", MessageType::text("hello there")));
}

#[test]
fn test_round_trip_unicode_text() {
    round_trip(&Message::from(" álíc€", MessageType::text("héllo wörld \u{1f980}")));
}

#[test]
fn test_round_trip_image() {
    round_trip(&Message::from("bob", MessageType::image(&[0, 1, 2, 255, 254])));
}

#[test]
fn test_round_trip_file() {
    round_trip(&Message::from(
        "carol",
        MessageType::file("notes.txt", &[9, 8, 7]),
    ));
}

#[test]
fn test_round_trip_empty_nickname_and_payloads() {
    round_trip(&Message::from("", MessageType::text("")));
    round_trip(&Message::from("", MessageType::image(&[])));
    round_trip(&Message::from("", MessageType::file("", &[])));
}

#[test]
fn test_decode_graceful_disconnect_on_short_length() {
    assert!(matches!(
        decode(&[], true),
        DecodeResult::Failed(MessageError::GracefulDisconnect)
    ));
    assert!(matches!(
        decode(&[0, 0, 0], true),
        DecodeResult::Failed(MessageError::GracefulDisconnect)
    ));
    assert!(matches!(decode(&[], false), DecodeResult::NeedMore));
    assert!(matches!(decode(&[0, 0, 0], false), DecodeResult::NeedMore));
}

#[test]
fn test_decode_transport_error_on_short_body() {
    let buf = [0u8, 0, 0, 5, 1, 2];
    assert!(matches!(
        decode(&buf, true),
        DecodeResult::Failed(MessageError::TransportError)
    ));
    assert!(matches!(decode(&buf, false), DecodeResult::NeedMore));
}

#[test]
fn test_decode_protocol_error_on_corrupt_body() {
    let buf = [0u8, 0, 0, 3, 255, 255, 255];
    assert!(matches!(
        decode(&buf, false),
        DecodeResult::Failed(MessageError::ProtocolError)
    ));
    assert!(matches!(
        decode(&buf, true),
        DecodeResult::Failed(MessageError::ProtocolError)
    ));
}

#[test]
fn test_deserialized_message_rejects_trailing_bytes() {
    let msg = Message::from("user", MessageType::text("hi"));
    let mut body = msg.serialized_message().unwrap();
    body.push(0);
    assert!(matches!(
        Message::deserialized_message(&body),
        Err(MessageError::ProtocolError)
    ));
}

#[test]
fn test_deserialized_message_rejects_bad_utf8() {
    // A nickname field of one byte that is not valid UTF-8.
    let body = [1u8, 0, 0, 0, 0, 0, 0, 0, 0xff];
    assert!(matches!(
        Message::deserialized_message(&body),
        Err(MessageError::ProtocolError)
    ));
}

#[test]
fn test_get_type_and_message() {
    let text = MessageType::Text("Hello".to_string());
    let (kind, content) = text.get_type_and_message();
    assert_eq!(kind, "Text");
    assert_eq!(content, "Hello".to_string());
    let image = MessageType::Image(vec![1, 2]);
    let (kind, content) = image.get_type_and_message();
    assert_eq!(kind, "Image");
    assert_eq!(content, "");
    let file = MessageType::File {
        name: "a.txt".to_string(),
        content: vec![1],
    };
    let (kind, content) = file.get_type_and_message();
    assert_eq!(kind, "File");
    assert_eq!(content, "a.txt");
}

#[test]
fn test_message_duplicate() {
    let msg = Message::from("dave", MessageType::file("a.bin", &[1, 2, 3]));
    let copy = msg.duplicate();
    assert_eq!(copy, msg);
}
