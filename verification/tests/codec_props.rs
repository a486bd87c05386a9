use coap_codec::error::MessageError;
use coap_codec::packet::{
    CoapOption, MessageClass, MessageType, OptionPair, Packet, RequestType,
};

#[test]
fn round_trip_of_constructed_message() {
    let options = &[
        OptionPair { num: CoapOption::UriPath.into(), value: b"sensors" },
        OptionPair { num: CoapOption::UriPath.into(), value: b"temp" },
        OptionPair { num: CoapOption::UriQuery.into(), value: b"unit=c" },
    ];
    let packet = Packet::new(
        MessageType::Confirmable,
        MessageClass::Request(RequestType::Post),
        /* version= */ 1,
        /* message_id= */ 4242,
        /* token= */ &[0x01, 0x02, 0x03],
        /* options= */ &mut options.to_vec(),
        /* payload= */ b"22.5",
    );
    let bytes = packet.to_bytes().unwrap();
    let decoded = Packet::from_bytes(&bytes).unwrap();
    assert_eq!(packet.get_version(), decoded.get_version());
    assert_eq!(packet.get_type(), decoded.get_type());
    assert_eq!(packet.get_token_length(), decoded.get_token_length());
    assert_eq!(packet.get_code(), decoded.get_code());
    assert_eq!(packet.get_message_id(), decoded.get_message_id());
    assert_eq!(packet.get_token(), decoded.get_token());
    assert_eq!(packet.get_payload(), decoded.get_payload());
    assert_eq!(packet.options().len(), decoded.options().len());
    for (a, b) in packet.options().iter().zip(decoded.options().iter()) {
        assert_eq!(a.num, b.num);
        assert_eq!(a.value, b.value);
    }
}

#[test]
fn option_ordering_stable() {
    let options = &[
        OptionPair { num: 11, value: b"b" },
        OptionPair { num: 11, value: b"a" },
        OptionPair { num: 7, value: b"x" },
    ];
    let packet = Packet::new(
        MessageType::Confirmable,
        MessageClass::Request(RequestType::Get),
        /* version= */ 1,
        /* message_id= */ 1,
        /* token= */ &[],
        /* options= */ &mut options.to_vec(),
        /* payload= */ &[],
    );
    let sorted = packet.options();
    assert_eq!(3, sorted.len());
    assert_eq!((7, b"x".as_slice()), (sorted[0].num, sorted[0].value));
    assert_eq!((11, b"b".as_slice()), (sorted[1].num, sorted[1].value));
    assert_eq!((11, b"a".as_slice()), (sorted[2].num, sorted[2].value));
}

#[test]
fn token_length_exceeds_available_bytes() {
    // The header declares a four-byte token but only one byte follows.
    let buf = [0x44, 0x01, 0x84, 0x9e, 0x51];
    let p = Packet::from_bytes(&buf);
    assert_eq!(MessageError::InvalidTokenLength, p.unwrap_err());
}

#[test]
fn token_length_nibble_too_large() {
    // Token length nibbles 9 to 15 are reserved and rejected.
    let buf = [0x49, 0x01, 0x00, 0x00, 1, 2, 3, 4, 5, 6, 7, 8, 9];
    let p = Packet::from_bytes(&buf);
    assert_eq!(MessageError::InvalidTokenLength, p.unwrap_err());
}

#[test]
fn payload_marker_absent_and_trailing_agree() {
    let without_marker = [0x64, 0x45, 0x13, 0xFD, 0xD0, 0xE2, 0x4D, 0xAC];
    let p = Packet::from_bytes(&without_marker).unwrap();
    assert_eq!(p.get_payload(), &[] as &[u8]);

    let trailing_marker = [0x64, 0x45, 0x13, 0xFD, 0xD0, 0xE2, 0x4D, 0xAC, 0xFF];
    let p = Packet::from_bytes(&trailing_marker).unwrap();
    assert_eq!(p.get_payload(), &[] as &[u8]);
}

#[test]
fn invalid_option_delta_nibble() {
    let buf = [0x40, 0x01, 0x00, 0x00, 0xF0];
    let p = Packet::from_bytes(&buf);
    assert_eq!(MessageError::InvalidOptionDelta, p.unwrap_err());
}

#[test]
fn invalid_option_length_nibble() {
    let buf = [0x40, 0x01, 0x00, 0x00, 0x0F];
    let p = Packet::from_bytes(&buf);
    assert_eq!(MessageError::InvalidOptionLength, p.unwrap_err());
}

#[test]
fn missing_delta_extension_byte() {
    let buf = [0x40, 0x01, 0x00, 0x00, 0xD0];
    let p = Packet::from_bytes(&buf);
    assert_eq!(MessageError::InvalidOptionLength, p.unwrap_err());
}

#[test]
fn option_value_overruns_buffer() {
    let buf = [0x40, 0x01, 0x00, 0x00, 0x03, 0x61];
    let p = Packet::from_bytes(&buf);
    assert_eq!(MessageError::InvalidOptionLength, p.unwrap_err());
}

#[test]
fn one_byte_delta_extension_encodes_exactly() {
    let options = &[OptionPair { num: 13, value: &[] }];
    let packet = Packet::new(
        MessageType::Confirmable,
        MessageClass::Request(RequestType::Get),
        /* version= */ 1,
        /* message_id= */ 1,
        /* token= */ &[],
        /* options= */ &mut options.to_vec(),
        /* payload= */ &[],
    );
    assert_eq!(packet.to_bytes().unwrap(), &[0x40, 0x01, 0x00, 0x01, 0xD0, 0x00]);
}

#[test]
fn two_byte_delta_extension_round_trips() {
    let long_value = [0x5A; 300];
    let options = &[OptionPair { num: 1000, value: &long_value }];
    let packet = Packet::new(
        MessageType::Confirmable,
        MessageClass::Request(RequestType::Get),
        /* version= */ 1,
        /* message_id= */ 7,
        /* token= */ &[],
        /* options= */ &mut options.to_vec(),
        /* payload= */ &[],
    );
    let bytes = packet.to_bytes().unwrap();
    // Delta 1000 and length 300 both need the two-byte extension form.
    assert_eq!(bytes[4], 0xEE);
    assert_eq!(&bytes[5..7], &[0x02, 0xDB]);
    assert_eq!(&bytes[7..9], &[0x00, 0x1F]);
    let decoded = Packet::from_bytes(&bytes).unwrap();
    assert_eq!(1, decoded.options().len());
    assert_eq!(1000, decoded.options()[0].num);
    assert_eq!(&long_value, decoded.options()[0].value);
}

#[test]
fn encode_rejects_oversized_packet() {
    let payload = [0u8; 3001];
    let packet = Packet::new(
        MessageType::Confirmable,
        MessageClass::Request(RequestType::Get),
        /* version= */ 1,
        /* message_id= */ 1,
        /* token= */ &[],
        /* options= */ &mut Vec::new(),
        /* payload= */ &payload,
    );
    assert_eq!(MessageError::InvalidPacketLength, packet.to_bytes().unwrap_err());
}

#[test]
fn empty_class_never_emits_payload() {
    let packet = Packet::new(
        MessageType::Confirmable,
        MessageClass::Empty,
        /* version= */ 1,
        /* message_id= */ 1,
        /* token= */ &[],
        /* options= */ &mut Vec::new(),
        /* payload= */ b"Hi",
    );
    assert_eq!(packet.to_bytes().unwrap(), &[0x40, 0x00, 0x00, 0x01]);
}

#[test]
fn content_format_value_too_wide_is_absent() {
    let options = &[OptionPair { num: CoapOption::ContentFormat.into(), value: &[1, 2, 3] }];
    let packet = Packet::new(
        MessageType::Confirmable,
        MessageClass::Request(RequestType::Get),
        /* version= */ 1,
        /* message_id= */ 1,
        /* token= */ &[],
        /* options= */ &mut options.to_vec(),
        /* payload= */ &[],
    );
    assert_eq!(None, packet.get_content_format_value());
}

#[test]
fn observe_value_too_wide_is_absent() {
    let options = &[OptionPair { num: CoapOption::Observe.into(), value: &[1, 2, 3, 4, 5] }];
    let packet = Packet::new(
        MessageType::Confirmable,
        MessageClass::Request(RequestType::Get),
        /* version= */ 1,
        /* message_id= */ 1,
        /* token= */ &[],
        /* options= */ &mut options.to_vec(),
        /* payload= */ &[],
    );
    assert_eq!(None, packet.get_observe_value());
}

#[test]
fn get_first_option_picks_first_match() {
    let options = &[
        OptionPair { num: CoapOption::UriPath.into(), value: b"first" },
        OptionPair { num: CoapOption::UriPath.into(), value: b"second" },
    ];
    let packet = Packet::new(
        MessageType::Confirmable,
        MessageClass::Request(RequestType::Get),
        /* version= */ 1,
        /* message_id= */ 1,
        /* token= */ &[],
        /* options= */ &mut options.to_vec(),
        /* payload= */ &[],
    );
    let first = packet.get_first_option(CoapOption::UriPath);
    assert_eq!(b"first".as_slice(), first.unwrap().value);
    assert!(packet.get_first_option(CoapOption::UriHost).is_none());
}

#[test]
fn message_class_survives_wire_round_trip() {
    for n in 0..=255u8 {
        let class = MessageClass::from(n);
        assert_eq!(n, u8::from(class));
    }
}
