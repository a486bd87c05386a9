use coap_codec::error::MessageError;
use coap_codec::packet::{
    CoapOption, ContentFormat, MessageClass, MessageType, ObserveOption, OptionPair, Packet,
    RequestType, ResponseType,
};

#[test]
fn test_header_codes() {
    for code in 0..255 {
        let p = Packet::new(
            MessageType::Confirmable,
            code.into(),
            /* version= */ 1,
            /* message_id= */ 1,
            /* token= */ &[],
            /* options= */ &mut Vec::new(),
            /* payload= */ &[],
        );
        let class: MessageClass = code.into();
        // valid items
        if !matches!(class, MessageClass::Reserved(_)) {
            assert_eq!(u8::from(class), code);
            assert_eq!(class, p.get_code());
        }
    }
}

#[test]
fn from_bytes_fail() {
    let b: &[u8] = &[1, 2, 3];
    let p = Packet::from_bytes(b);
    assert_eq!(MessageError::InvalidPacketLength, p.unwrap_err());
}

#[test]
fn types() {
    let p_acked = Packet::new(
        MessageType::Acknowledgement,
        MessageClass::Request(RequestType::Get),
        /* version= */ 1,
        /* message_id= */ 1,
        /* token= */ &[],
        /* options= */ &mut Vec::new(),
        /* payload= */ &[],
    );
    assert_eq!(MessageType::Acknowledgement, p_acked.get_type());
    let p_confirmed = Packet::new(
        MessageType::Confirmable,
        MessageClass::Request(RequestType::Get),
        /* version= */ 1,
        /* message_id= */ 1,
        /* token= */ &[],
        /* options= */ &mut Vec::new(),
        /* payload= */ &[],
    );
    assert_eq!(MessageType::Confirmable, p_confirmed.get_type());
    let p_notconfirmed = Packet::new(
        MessageType::NonConfirmable,
        MessageClass::Request(RequestType::Get),
        /* version= */ 1,
        /* message_id= */ 1,
        /* token= */ &[],
        /* options= */ &mut Vec::new(),
        /* payload= */ &[],
    );
    assert_eq!(MessageType::NonConfirmable, p_notconfirmed.get_type());
    let p_reset = Packet::new(
        MessageType::Reset,
        MessageClass::Request(RequestType::Get),
        /* version= */ 1,
        /* message_id= */ 1,
        /* token= */ &[],
        /* options= */ &mut Vec::new(),
        /* payload= */ &[],
    );
    assert_eq!(MessageType::Reset, p_reset.get_type());
}

#[test]
fn test_decode_packet_with_options() {
    let buf = [
        0x44, 0x01, 0x84, 0x9e, 0x51, 0x55, 0x77, 0xe8, 0xb2, 0x48, 0x69, 0x04, 0x54, 0x65, 0x73,
        0x74, 0x43, 0x61, 0x3d, 0x31,
    ];
    let packet = Packet::from_bytes(&buf);
    assert!(packet.is_ok());
    let packet = packet.unwrap();
    assert_eq!(packet.get_version(), 1);
    assert_eq!(packet.get_type(), MessageType::Confirmable);
    assert_eq!(packet.get_token_length(), 4);
    assert_eq!(packet.get_code(), MessageClass::Request(RequestType::Get));
    assert_eq!(packet.get_message_id(), 33950);
    assert_eq!(packet.get_token(), &[0x51, 0x55, 0x77, 0xE8]);
    assert_eq!(packet.options.len(), 3);

    let uri_path = packet.get_options(CoapOption::UriPath);
    let mut uri_path_iter = uri_path.iter();
    let patch_part1 = uri_path_iter.next();
    assert!(patch_part1.is_some());
    assert_eq!(patch_part1.unwrap().value, "Hi".as_bytes());
    let patch_part2 = uri_path_iter.next();
    assert!(patch_part2.is_some());
    assert_eq!(patch_part2.unwrap().value, "Test".as_bytes());
    assert!(uri_path_iter.next().is_none());

    let uri_query = packet.get_options(CoapOption::UriQuery);
    let mut uri_query_iter = uri_query.iter();
    let uri_query_item = uri_query_iter.next();
    assert!(uri_query_item.is_some());
    assert_eq!(uri_query_item.unwrap().value, "a=1".as_bytes());
    assert!(uri_query_iter.next().is_none());
}

#[test]
fn test_decode_packet_with_payload() {
    let buf = [
        0x64, 0x45, 0x13, 0xFD, 0xD0, 0xE2, 0x4D, 0xAC, 0xFF, 0x48, 0x65, 0x6C, 0x6C, 0x6F,
    ];
    let packet = Packet::from_bytes(&buf);
    assert!(packet.is_ok());
    let packet = packet.unwrap();
    assert_eq!(packet.get_version(), 1);
    assert_eq!(packet.get_type(), MessageType::Acknowledgement);
    assert_eq!(packet.get_token_length(), 4);
    assert_eq!(packet.get_code(), MessageClass::Response(ResponseType::Content));
    assert_eq!(packet.get_message_id(), 5117);
    assert_eq!(packet.get_token(), &[0xD0, 0xE2, 0x4D, 0xAC]);
    assert_eq!(packet.payload, "Hello".as_bytes().to_vec());
}

#[test]
fn test_encode_packet_with_options() {
    let options = &[
        OptionPair { num: CoapOption::UriPath.into(), value: "Hi".as_bytes() },
        OptionPair { num: CoapOption::UriPath.into(), value: "Test".as_bytes() },
        OptionPair { num: CoapOption::UriQuery.into(), value: "a=1".as_bytes() },
    ];
    let packet = Packet::new(
        MessageType::Confirmable,
        MessageClass::Request(RequestType::Get),
        /* version= */ 1,
        /* message_id= */ 33950,
        /* token= */ &[0x51, 0x55, 0x77, 0xE8],
        /* options= */ &mut options.to_vec(),
        /* payload= */ &[],
    );
    assert_eq!(
        packet.to_bytes().unwrap(),
        &[
            0x44, 0x01, 0x84, 0x9e, 0x51, 0x55, 0x77, 0xe8, 0xb2, 0x48, 0x69, 0x04, 0x54, 0x65,
            0x73, 0x74, 0x43, 0x61, 0x3d, 0x31
        ]
    );
}

#[test]
fn test_encode_packet_with_payload() {
    let packet = Packet::new(
        MessageType::Acknowledgement,
        MessageClass::Response(ResponseType::Content),
        /* version= */ 1,
        /* message_id= */ 5117,
        /* token= */ &[0xD0, 0xE2, 0x4D, 0xAC],
        /* options= */ &mut Vec::new(),
        /* payload= */ "Hello".as_bytes(),
    );
    assert_eq!(
        packet.to_bytes().unwrap(),
        &[0x64, 0x45, 0x13, 0xFD, 0xD0, 0xE2, 0x4D, 0xAC, 0xFF, 0x48, 0x65, 0x6C, 0x6C, 0x6F]
    );
}

#[test]
fn test_encode_decode_content_format() {
    let cf_bytes = u16::try_from(usize::from(ContentFormat::TextPlain)).unwrap().to_be_bytes();
    let options = &[OptionPair { num: CoapOption::ContentFormat.into(), value: &cf_bytes }];
    let packet = Packet::new(
        MessageType::NonConfirmable,
        MessageClass::Request(RequestType::Get),
        /* version= */ 1,
        /* message_id= */ 5117,
        /* token= */ &[0xD0, 0xE2, 0x4D, 0xAC],
        /* options= */ &mut options.to_vec(),
        /* payload= */ "Hello".as_bytes(),
    );
    assert_eq!(
        ContentFormat::TextPlain,
        ContentFormat::try_from(packet.get_content_format_value().unwrap() as usize)
            .ok()
            .unwrap()
    );
}

#[test]
fn test_encode_decode_content_format_without_msb() {
    let cf_bytes =
        u16::try_from(usize::from(ContentFormat::ApplicationJSON)).unwrap().to_be_bytes();
    let options = &[OptionPair { num: CoapOption::ContentFormat.into(), value: &cf_bytes }];
    let packet = Packet::new(
        MessageType::NonConfirmable,
        MessageClass::Request(RequestType::Get),
        /* version= */ 1,
        /* message_id= */ 5117,
        /* token= */ &[0xD0, 0xE2, 0x4D, 0xAC],
        /* options= */ &mut options.to_vec(),
        /* payload= */ "Hello".as_bytes(),
    );
    assert_eq!(
        ContentFormat::ApplicationJSON,
        ContentFormat::try_from(packet.get_content_format_value().unwrap() as usize)
            .ok()
            .unwrap()
    );
}

#[test]
fn test_encode_decode_content_format_with_msb() {
    let cf_bytes =
        u16::try_from(usize::from(ContentFormat::ApplicationSensmlXML)).unwrap().to_be_bytes();
    let options = &[OptionPair { num: CoapOption::ContentFormat.into(), value: &cf_bytes }];
    let packet = Packet::new(
        MessageType::NonConfirmable,
        MessageClass::Request(RequestType::Get),
        /* version= */ 1,
        /* message_id= */ 5117,
        /* token= */ &[0xD0, 0xE2, 0x4D, 0xAC],
        /* options= */ &mut options.to_vec(),
        /* payload= */ "Hello".as_bytes(),
    );
    assert_eq!(
        ContentFormat::ApplicationSensmlXML,
        ContentFormat::try_from(packet.get_content_format_value().unwrap() as usize)
            .ok()
            .unwrap()
    );
}

#[test]
fn test_decode_empty_content_format() {
    let packet = Packet::new(
        MessageType::NonConfirmable,
        MessageClass::Request(RequestType::Get),
        /* version= */ 1,
        /* message_id= */ 5117,
        /* token= */ &[0xD0, 0xE2, 0x4D, 0xAC],
        /* options= */ &mut Vec::new(),
        /* payload= */ "Hello".as_bytes(),
    );
    assert!(packet.get_content_format_value().is_none());
}

#[test]
fn option() {
    for i in 0..512 {
        assert_eq!(i, CoapOption::from(i).into());
    }
}

#[test]
fn content_format() {
    for i in 0..512 {
        if let Ok(o) = ContentFormat::try_from(i) {
            assert_eq!(i, o.into());
        }
    }
}

#[test]
fn observe_option() {
    for i in 0..8 {
        if let Ok(o) = ObserveOption::try_from(i) {
            assert_eq!(i, o.into());
        }
    }
}

#[test]
fn options() {
    let options = &[
        OptionPair { num: CoapOption::UriHost.into(), value: &[0] },
        OptionPair { num: CoapOption::UriPath.into(), value: &[1] },
        OptionPair { num: CoapOption::ETag.into(), value: &[2] },
    ];
    let packet = Packet::new(
        MessageType::NonConfirmable,
        MessageClass::Request(RequestType::Get),
        /* version= */ 1,
        /* message_id= */ 5117,
        /* token= */ &[0xD0, 0xE2, 0x4D, 0xAC],
        /* options= */ &mut options.to_vec(),
        /* payload= */ "Hello".as_bytes(),
    );
    assert_eq!(3, packet.options().len());

    let bytes = packet.to_bytes().unwrap();
    let pp = Packet::from_bytes(&bytes).unwrap();
    assert_eq!(3, pp.options().len());
}

#[test]
fn observe_none() {
    let packet = Packet::new(
        MessageType::NonConfirmable,
        MessageClass::Request(RequestType::Get),
        /* version= */ 1,
        /* message_id= */ 5117,
        /* token= */ &[0xD0, 0xE2, 0x4D, 0xAC],
        /* options= */ &mut Vec::new(),
        /* payload= */ "Hello".as_bytes(),
    );
    assert_eq!(None, packet.get_observe_value());
}

#[test]
fn observe_some() {
    let options = &[OptionPair { num: CoapOption::Observe.into(), value: &[10] }];
    let packet = Packet::new(
        MessageType::NonConfirmable,
        MessageClass::Request(RequestType::Get),
        /* version= */ 1,
        /* message_id= */ 5117,
        /* token= */ &[0xD0, 0xE2, 0x4D, 0xAC],
        /* options= */ &mut options.to_vec(),
        /* payload= */ "Hello".as_bytes(),
    );
    assert_eq!(Some(10), packet.get_observe_value());
}

#[test]
fn options_limit_exceeded() {
    let buf = [
        0x40, 0x01, 0x00, 0x00, 0x61, 0x31, 0x01, 0x32, 0x01, 0x33, 0x01, 0x34, 0x01, 0x35, 0x01,
        0x36, 0x01, 0x37, 0x01, 0x38, 0x01, 0x39, 0x02, 0x31, 0x30, 0x02, 0x31, 0x31, 0x02, 0x31,
        0x32, 0x02, 0x31, 0x33, 0x02, 0x31, 0x34, 0x02, 0x31, 0x35, 0x02, 0x31, 0x36, 0x02, 0x31,
        0x37, 0x02, 0x31, 0x38, 0x02, 0x31, 0x39, 0x02, 0x32, 0x30, 0x02, 0x32, 0x31, 0x02, 0x32,
        0x32, 0x02, 0x32, 0x33, 0x02, 0x32, 0x34, 0x02, 0x32, 0x35, 0x02, 0x32, 0x36, 0x02, 0x32,
        0x37, 0x02, 0x32, 0x38, 0x02, 0x32, 0x39, 0x02, 0x33, 0x30, 0x02, 0x33, 0x31, 0x02, 0x33,
        0x32, 0x02, 0x33, 0x33,
    ];
    let p = Packet::from_bytes(&buf);
    assert_eq!(MessageError::OptionsLimitExceeded, p.unwrap_err());
}
