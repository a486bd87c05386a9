use coap_codec::error::MessageError;
use coap_codec::packet::{
    CoapOption, MessageClass, MessageType, OptionPair, Packet, RequestType, ResponseType,
};
use coap_codec::request::CoapRequest;
use coap_codec::response::CoapResponse;

struct Endpoint(());

#[test]
fn test_request_create() {
    let options = &[OptionPair { num: CoapOption::UriPath.into(), value: b"test-interface" }];
    let packet = Packet::new(
        MessageType::Confirmable,
        MessageClass::Request(RequestType::Get),
        /* version= */ 2,
        /* message_id= */ 42,
        /* token= */ &[0x17, 0x38],
        /* options= */ &mut options.to_vec(),
        /* payload= */ "Hello".as_bytes(),
    );
    let request = CoapRequest::from_packet(&packet, Endpoint(()));

    assert!(request.source.is_some())
}

#[test]
fn path_length_exceeded() {
    let buf = [
        0x40, 0x01, 0x00, 0x00, 0xbd, 0x77, 0x2f, 0x73, 0x6f, 0x6d, 0x65, 0x2d, 0x73, 0x75, 0x70,
        0x65, 0x72, 0x2d, 0x6c, 0x6f, 0x6e, 0x67, 0x2d, 0x70, 0x61, 0x74, 0x68, 0x31, 0x2f, 0x73,
        0x6f, 0x6d, 0x65, 0x2d, 0x73, 0x75, 0x70, 0x65, 0x72, 0x2d, 0x6c, 0x6f, 0x6e, 0x67, 0x2d,
        0x70, 0x61, 0x74, 0x68, 0x32, 0x2f, 0x73, 0x6f, 0x6d, 0x65, 0x2d, 0x73, 0x75, 0x70, 0x65,
        0x72, 0x2d, 0x6c, 0x6f, 0x6e, 0x67, 0x2d, 0x70, 0x61, 0x74, 0x68, 0x33, 0x2f, 0x73, 0x6f,
        0x6d, 0x65, 0x2d, 0x73, 0x75, 0x70, 0x65, 0x72, 0x2d, 0x6c, 0x6f, 0x6e, 0x67, 0x2d, 0x70,
        0x61, 0x74, 0x68, 0x34, 0x2f, 0x73, 0x6f, 0x6d, 0x65, 0x2d, 0x73, 0x75, 0x70, 0x65, 0x72,
        0x2d, 0x6c, 0x6f, 0x6e, 0x67, 0x2d, 0x70, 0x61, 0x74, 0x68, 0x35, 0x2f, 0x73, 0x6f, 0x6d,
        0x65, 0x2d, 0x73, 0x75, 0x70, 0x65, 0x72, 0x2d, 0x6c, 0x6f, 0x6e, 0x67, 0x2d, 0x70, 0x61,
        0x74, 0x68, 0x36,
    ];
    let p = Packet::from_bytes(&buf).unwrap();
    let request = CoapRequest::from_packet(&p, Endpoint(()));
    assert_eq!(MessageError::PathLengthExceeded, request.get_path().unwrap_err());
}

#[test]
fn get_path_concatenates_segments() {
    let buf = [
        0x44, 0x01, 0x84, 0x9e, 0x51, 0x55, 0x77, 0xe8, 0xb2, 0x48, 0x69, 0x04, 0x54, 0x65, 0x73,
        0x74, 0x43, 0x61, 0x3d, 0x31,
    ];
    let p = Packet::from_bytes(&buf).unwrap();
    let request = CoapRequest::from_packet(&p, Endpoint(()));
    assert_eq!("HiTest", request.get_path().unwrap());
}

#[test]
fn get_path_rejects_invalid_utf8() {
    let options = &[OptionPair { num: CoapOption::UriPath.into(), value: &[0xFF, 0xFE] }];
    let packet = Packet::new(
        MessageType::Confirmable,
        MessageClass::Request(RequestType::Get),
        /* version= */ 1,
        /* message_id= */ 1,
        /* token= */ &[],
        /* options= */ &mut options.to_vec(),
        /* payload= */ &[],
    );
    let request = CoapRequest::from_packet(&packet, Endpoint(()));
    assert_eq!(MessageError::InvalidOption, request.get_path().unwrap_err());
}

#[test]
fn get_method_of_request_and_other_classes() {
    let p_get = Packet::new(
        MessageType::Confirmable,
        MessageClass::Request(RequestType::Get),
        /* version= */ 1,
        /* message_id= */ 1,
        /* token= */ &[],
        /* options= */ &mut Vec::new(),
        /* payload= */ &[],
    );
    let request = CoapRequest::from_packet(&p_get, Endpoint(()));
    assert_eq!(RequestType::Get, request.get_method());

    let p_resp = Packet::new(
        MessageType::Acknowledgement,
        MessageClass::Response(ResponseType::Content),
        /* version= */ 1,
        /* message_id= */ 1,
        /* token= */ &[],
        /* options= */ &mut Vec::new(),
        /* payload= */ &[],
    );
    let request = CoapRequest::from_packet(&p_resp, Endpoint(()));
    assert_eq!(RequestType::UnKnown, request.get_method());
}

#[test]
fn get_observe_flag_maps_values() {
    let register = [OptionPair { num: CoapOption::Observe.into(), value: &[] }];
    let p = Packet::new(
        MessageType::Confirmable,
        MessageClass::Request(RequestType::Get),
        /* version= */ 1,
        /* message_id= */ 1,
        /* token= */ &[],
        /* options= */ &mut register.to_vec(),
        /* payload= */ &[],
    );
    let request = CoapRequest::from_packet(&p, Endpoint(()));
    assert_eq!(
        Some(Ok(coap_codec::packet::ObserveOption::Register)),
        request.get_observe_flag()
    );

    let deregister = [OptionPair { num: CoapOption::Observe.into(), value: &[1] }];
    let p = Packet::new(
        MessageType::Confirmable,
        MessageClass::Request(RequestType::Get),
        /* version= */ 1,
        /* message_id= */ 1,
        /* token= */ &[],
        /* options= */ &mut deregister.to_vec(),
        /* payload= */ &[],
    );
    let request = CoapRequest::from_packet(&p, Endpoint(()));
    assert_eq!(
        Some(Ok(coap_codec::packet::ObserveOption::Deregister)),
        request.get_observe_flag()
    );

    let invalid = [OptionPair { num: CoapOption::Observe.into(), value: &[10] }];
    let p = Packet::new(
        MessageType::Confirmable,
        MessageClass::Request(RequestType::Get),
        /* version= */ 1,
        /* message_id= */ 1,
        /* token= */ &[],
        /* options= */ &mut invalid.to_vec(),
        /* payload= */ &[],
    );
    let request = CoapRequest::from_packet(&p, Endpoint(()));
    assert_eq!(
        Some(Err(coap_codec::error::InvalidObserve)),
        request.get_observe_flag()
    );

    let too_wide = [OptionPair { num: CoapOption::Observe.into(), value: &[1, 2, 3, 4, 5] }];
    let p = Packet::new(
        MessageType::Confirmable,
        MessageClass::Request(RequestType::Get),
        /* version= */ 1,
        /* message_id= */ 1,
        /* token= */ &[],
        /* options= */ &mut too_wide.to_vec(),
        /* payload= */ &[],
    );
    let request = CoapRequest::from_packet(&p, Endpoint(()));
    assert_eq!(
        Some(Err(coap_codec::error::InvalidObserve)),
        request.get_observe_flag()
    );

    let p = Packet::new(
        MessageType::Confirmable,
        MessageClass::Request(RequestType::Get),
        /* version= */ 1,
        /* message_id= */ 1,
        /* token= */ &[],
        /* options= */ &mut Vec::new(),
        /* payload= */ &[],
    );
    let request = CoapRequest::from_packet(&p, Endpoint(()));
    assert_eq!(None, request.get_observe_flag());
}

#[test]
fn get_status_of_response_and_other_classes() {
    let p_content = Packet::new(
        MessageType::Acknowledgement,
        MessageClass::Response(ResponseType::Content),
        /* version= */ 1,
        /* message_id= */ 1,
        /* token= */ &[],
        /* options= */ &mut Vec::new(),
        /* payload= */ &[],
    );
    let response = CoapResponse::from_packet(&p_content);
    assert_eq!(ResponseType::Content, response.get_status());

    let p_req = Packet::new(
        MessageType::Confirmable,
        MessageClass::Request(RequestType::Get),
        /* version= */ 1,
        /* message_id= */ 1,
        /* token= */ &[],
        /* options= */ &mut Vec::new(),
        /* payload= */ &[],
    );
    let response = CoapResponse::from_packet(&p_req);
    assert_eq!(ResponseType::UnKnown, response.get_status());

    let p_continue = Packet::new(
        MessageType::Acknowledgement,
        MessageClass::Response(ResponseType::Continue),
        /* version= */ 1,
        /* message_id= */ 1,
        /* token= */ &[],
        /* options= */ &mut Vec::new(),
        /* payload= */ &[],
    );
    let response = CoapResponse::from_packet(&p_continue);
    assert_eq!(ResponseType::Continue, response.get_status());
}
