use tickoattwo::packet::{CodecError, Event, Packet};

#[test]
fn test_encode_raw_nickname() {
    let packet = Packet {
        event: Event::Nickname(String::from("alice")),
    };
    assert_eq!(packet.encode_raw(), "nickname:YWxpY2U=");
}

#[test]
fn test_encode_raw_empty_payload() {
    let packet = Packet {
        event: Event::Nickname(String::new()),
    };
    assert_eq!(packet.encode_raw(), "nickname:");
}

#[test]
fn test_decode_raw_nickname() {
    let packet = Packet::decode_raw("nickname:YWxpY2U=").unwrap();
    assert_eq!(packet.event, Event::Nickname(String::from("alice")));
}

#[test]
fn test_decode_raw_round_trip() {
    let names = ["alice", "", "bob", "\u{00e9}l\u{00e8}ve", "with spaces"];
    for name in names {
        let packet = Packet {
            event: Event::Nickname(String::from(name)),
        };
        let decoded = Packet::decode_raw(&packet.encode_raw()).unwrap();
        assert_eq!(decoded.event, Event::Nickname(String::from(name)));
    }
}

#[test]
fn test_encode_then_decode() {
    let packet = Packet {
        event: Event::Nickname(String::from("carol")),
    };
    let decoded = packet.encode_then_decode().unwrap();
    assert_eq!(decoded.event, packet.event);
}

#[test]
fn test_decode_raw_rejects_missing_separator() {
    assert_eq!(
        Packet::decode_raw("nickname").unwrap_err(),
        CodecError::MalformedPacket
    );
    assert_eq!(Packet::decode_raw("").unwrap_err(), CodecError::MalformedPacket);
}

#[test]
fn test_decode_raw_rejects_extra_separator() {
    assert_eq!(
        Packet::decode_raw("nickname:YWxpY2U=:extra").unwrap_err(),
        CodecError::MalformedPacket
    );
    assert_eq!(Packet::decode_raw("::").unwrap_err(), CodecError::MalformedPacket);
}

#[test]
fn test_decode_raw_rejects_bad_base64() {
    assert_eq!(
        Packet::decode_raw("nickname:!!!").unwrap_err(),
        CodecError::MalformedPayload
    );
}

#[test]
fn test_decode_raw_rejects_non_utf8_payload() {
    // "/w==" is the base64 encoding of the single byte 0xff, which is not
    // valid UTF-8.
    assert_eq!(
        Packet::decode_raw("nickname:/w==").unwrap_err(),
        CodecError::MalformedPayload
    );
}

#[test]
fn test_decode_raw_rejects_unknown_event() {
    assert_eq!(
        Packet::decode_raw("renamed:YWxpY2U=").unwrap_err(),
        CodecError::UnknownEvent
    );
    assert_eq!(Packet::decode_raw(":").unwrap_err(), CodecError::UnknownEvent);
}

#[test]
fn test_encode_message_is_text_frame() {
    let packet = Packet {
        event: Event::Nickname(String::from("alice")),
    };
    assert_eq!(
        packet.encode_message(),
        tungstenite::Message::Text(String::from("nickname:YWxpY2U="))
    );
}

#[test]
fn test_decode_message_text_frame() {
    let message = tungstenite::Message::Text(String::from("nickname:YWxpY2U="));
    let packet = Packet::decode_message(&message).unwrap();
    assert_eq!(packet.event, Event::Nickname(String::from("alice")));
}

#[test]
fn test_decode_message_rejects_frame_without_text() {
    let message = tungstenite::Message::Binary(vec![0xff, 0xfe]);
    assert_eq!(
        Packet::decode_message(&message).unwrap_err(),
        CodecError::InvalidMessage
    );
}

#[test]
fn test_codec_error_messages() {
    assert_eq!(CodecError::InvalidMessage.message(), "invalid message");
    assert_eq!(CodecError::MalformedPacket.message(), "invalid packet parts");
    assert_eq!(
        CodecError::MalformedPayload.message(),
        "failed to decode payload"
    );
    assert_eq!(CodecError::UnknownEvent.message(), "unknown event type");
}
