//! The message codec: the decoded fields of one CoAP message, the symbol
//! tables for its numeric fields, and the two directions of the codec.
//!
//! [`Packet::from_bytes`] and [`Packet::to_bytes`] are proved against the
//! mathematical description of the wire format in [`crate::wire`].

use vstd::prelude::*;

use crate::error::{
    IncompatibleOptionValueFormat, InvalidContentFormat, InvalidObserve, MessageError,
};
use crate::wire::{
    decode_options, encode_option, encode_options, encoded_size_bound, ext_value, insert_sorted,
    lemma_insert_sorted_at, lemma_sort_options_len, options_sorted, sort_options, spec_decode,
    spec_encode, OptView, PacketView,
};
use crate::{MAX_OPTIONS, PACKET_MAX_SIZE};

verus! {

/// A message class: what the code byte of a message stands for.
///
/// Unrecognized but structurally valid code bytes are preserved verbatim as
/// `Reserved`, never rejected.
#[derive(Debug, Clone, Copy, PartialEq, Eq, Structural)]
pub enum MessageClass {
    /// The empty message class (code byte zero).
    Empty,
    /// A request method.
    Request(RequestType),
    /// A response status.
    Response(ResponseType),
    /// A code byte outside the two tables, kept verbatim.
    Reserved(u8),
}

/// The request methods.
#[derive(Debug, Clone, Copy, PartialEq, Eq, Structural)]
pub enum RequestType {
    Get,
    Post,
    Put,
    Delete,
    Fetch,
    Patch,
    IPatch,
    UnKnown,
}

/// The response statuses.
#[derive(Debug, Clone, Copy, PartialEq, Eq, Structural)]
pub enum ResponseType {
    // 200 codes
    Created,
    Deleted,
    Valid,
    Changed,
    Content,
    Continue,
    // 400 codes
    BadRequest,
    Unauthorized,
    BadOption,
    Forbidden,
    NotFound,
    MethodNotAllowed,
    NotAcceptable,
    Conflict,
    PreconditionFailed,
    RequestEntityTooLarge,
    UnsupportedContentFormat,
    RequestEntityIncomplete,
    UnprocessableEntity,
    TooManyRequests,
    // 500 codes
    InternalServerError,
    NotImplemented,
    BadGateway,
    ServiceUnavailable,
    GatewayTimeout,
    ProxyingNotSupported,
    HopLimitReached,
    UnKnown,
}

/// CoAP request/response message type: the two-bit type field of the header.
#[derive(Debug, Clone, Copy, PartialEq, Eq, Structural)]
pub enum MessageType {
    Confirmable,
    NonConfirmable,
    Acknowledgement,
    Reset,
}

/// The CoAP options.
#[derive(Debug, Clone, Copy, PartialEq, Eq, Structural)]
pub enum CoapOption {
    IfMatch,
    UriHost,
    ETag,
    IfNoneMatch,
    Observe,
    UriPort,
    LocationPath,
    Oscore,
    UriPath,
    ContentFormat,
    MaxAge,
    UriQuery,
    Accept,
    LocationQuery,
    Block2,
    Block1,
    ProxyUri,
    ProxyScheme,
    Size1,
    Size2,
    NoResponse,
    /// An option number outside the table, kept verbatim.
    Unknown(u16),
}

/// The content formats.
#[derive(Debug, Clone, Copy, PartialEq, Eq, Structural)]
#[non_exhaustive]
pub enum ContentFormat {
    TextPlain,
    // Media-Type: `application/cose; cose-type="cose-encrypt0"`, ID: 16
    ApplicationCoseEncrypt0,
    // Media-Type: `application/cose; cose-type="cose-mac0"`, ID: 17
    ApplicationCoseMac0,
    // Media-Type: `application/cose; cose-type="cose-sign1"`, ID: 18
    ApplicationCoseSign1,
    ApplicationAceCbor,
    ImageGif,
    ImageJpeg,
    ImagePng,
    ApplicationLinkFormat,
    ApplicationXML,
    ApplicationOctetStream,
    ApplicationEXI,
    ApplicationJSON,
    ApplicationJsonPatchJson,
    ApplicationMergePatchJson,
    ApplicationCBOR,
    ApplicationCWt,
    ApplicationMultipartCore,
    ApplicationCborSeq,
    // Media-Type: `application/cose; cose-type="cose-encrypt"`, ID: 96
    ApplicationCoseEncrypt,
    // Media-Type: `application/cose; cose-type="cose-mac"`, ID: 97
    ApplicationCoseMac,
    // Media-Type: `application/cose; cose-type="cose-sign"`, ID: 98
    ApplicationCoseSign,
    ApplicationCoseKey,
    ApplicationCoseKeySet,
    ApplicationSenmlJSON,
    ApplicationSensmlJSON,
    ApplicationSenmlCBOR,
    ApplicationSensmlCBOR,
    ApplicationSenmlExi,
    ApplicationSensmlExi,
    // Media-Type: `application/yang-data+cbor; id=sid`, ID: 140
    ApplicationYangDataCborSid,
    ApplicationCoapGroupJson,
    ApplicationDotsCbor,
    ApplicationMissingBlocksCborSeq,
    // Media-Type: `application/pkcs7-mime; smime-type=server-generated-key`, ID: 280
    ApplicationPkcs7MimeServerGeneratedKey,
    // Media-Type: `application/pkcs7-mime; smime-type=certs-only`, ID: 281
    ApplicationPkcs7MimeCertsOnly,
    ApplicationPkcs8,
    ApplicationCsrattrs,
    ApplicationPkcs10,
    ApplicationPkixCert,
    ApplicationAifCbor,
    ApplicationAifJson,
    ApplicationSenmlXML,
    ApplicationSensmlXML,
    ApplicationSenmlEtchJson,
    ApplicationSenmlEtchCbor,
    ApplicationYangDataCbor,
    // Media-Type: `application/yang-data+cbor; id=name`, ID: 341
    ApplicationYangDataCborName,
    ApplicationTdJson,
    ApplicationVoucherCoseCbor,
    ApplicationVndOcfCbor,
    ApplicationOscore,
    ApplicationJavascript,
    ApplicationJsonDeflate,
    ApplicationCborDeflate,
    ApplicationVndOmaLwm2mTlv,
    ApplicationVndOmaLwm2mJson,
    ApplicationVndOmaLwm2mCbor,
    TextCss,
    ImageSvgXml,
}

/// The values of the observe option.
#[derive(Debug, Clone, Copy, PartialEq, Eq, Structural)]
pub enum ObserveOption {
    Register,
    Deregister,
}

/// The message class that a code byte stands for.
pub open spec fn class_of_byte(number: u8) -> MessageClass {
    match number {
        0x00 => MessageClass::Empty,
        0x01 => MessageClass::Request(RequestType::Get),
        0x02 => MessageClass::Request(RequestType::Post),
        0x03 => MessageClass::Request(RequestType::Put),
        0x04 => MessageClass::Request(RequestType::Delete),
        0x05 => MessageClass::Request(RequestType::Fetch),
        0x06 => MessageClass::Request(RequestType::Patch),
        0x07 => MessageClass::Request(RequestType::IPatch),
        0x41 => MessageClass::Response(ResponseType::Created),
        0x42 => MessageClass::Response(ResponseType::Deleted),
        0x43 => MessageClass::Response(ResponseType::Valid),
        0x44 => MessageClass::Response(ResponseType::Changed),
        0x45 => MessageClass::Response(ResponseType::Content),
        0x5F => MessageClass::Response(ResponseType::Continue),
        0x80 => MessageClass::Response(ResponseType::BadRequest),
        0x81 => MessageClass::Response(ResponseType::Unauthorized),
        0x82 => MessageClass::Response(ResponseType::BadOption),
        0x83 => MessageClass::Response(ResponseType::Forbidden),
        0x84 => MessageClass::Response(ResponseType::NotFound),
        0x85 => MessageClass::Response(ResponseType::MethodNotAllowed),
        0x86 => MessageClass::Response(ResponseType::NotAcceptable),
        0x89 => MessageClass::Response(ResponseType::Conflict),
        0x8C => MessageClass::Response(ResponseType::PreconditionFailed),
        0x8D => MessageClass::Response(ResponseType::RequestEntityTooLarge),
        0x8F => MessageClass::Response(ResponseType::UnsupportedContentFormat),
        0x88 => MessageClass::Response(ResponseType::RequestEntityIncomplete),
        0x96 => MessageClass::Response(ResponseType::UnprocessableEntity),
        0x9D => MessageClass::Response(ResponseType::TooManyRequests),
        0xA0 => MessageClass::Response(ResponseType::InternalServerError),
        0xA1 => MessageClass::Response(ResponseType::NotImplemented),
        0xA2 => MessageClass::Response(ResponseType::BadGateway),
        0xA3 => MessageClass::Response(ResponseType::ServiceUnavailable),
        0xA4 => MessageClass::Response(ResponseType::GatewayTimeout),
        0xA5 => MessageClass::Response(ResponseType::ProxyingNotSupported),
        0xA8 => MessageClass::Response(ResponseType::HopLimitReached),
        _ => MessageClass::Reserved(number),
    }
}

/// The code byte that a message class is written as.
pub open spec fn byte_of_class(class: MessageClass) -> u8 {
    match class {
        MessageClass::Empty => 0x00,
        MessageClass::Request(RequestType::Get) => 0x01,
        MessageClass::Request(RequestType::Post) => 0x02,
        MessageClass::Request(RequestType::Put) => 0x03,
        MessageClass::Request(RequestType::Delete) => 0x04,
        MessageClass::Request(RequestType::Fetch) => 0x05,
        MessageClass::Request(RequestType::Patch) => 0x06,
        MessageClass::Request(RequestType::IPatch) => 0x07,
        MessageClass::Request(RequestType::UnKnown) => 0xFF,
        MessageClass::Response(ResponseType::Created) => 0x41,
        MessageClass::Response(ResponseType::Deleted) => 0x42,
        MessageClass::Response(ResponseType::Valid) => 0x43,
        MessageClass::Response(ResponseType::Changed) => 0x44,
        MessageClass::Response(ResponseType::Content) => 0x45,
        MessageClass::Response(ResponseType::Continue) => 0x5F,
        MessageClass::Response(ResponseType::BadRequest) => 0x80,
        MessageClass::Response(ResponseType::Unauthorized) => 0x81,
        MessageClass::Response(ResponseType::BadOption) => 0x82,
        MessageClass::Response(ResponseType::Forbidden) => 0x83,
        MessageClass::Response(ResponseType::NotFound) => 0x84,
        MessageClass::Response(ResponseType::MethodNotAllowed) => 0x85,
        MessageClass::Response(ResponseType::NotAcceptable) => 0x86,
        MessageClass::Response(ResponseType::Conflict) => 0x89,
        MessageClass::Response(ResponseType::PreconditionFailed) => 0x8C,
        MessageClass::Response(ResponseType::RequestEntityTooLarge) => 0x8D,
        MessageClass::Response(ResponseType::UnsupportedContentFormat) => 0x8F,
        MessageClass::Response(ResponseType::RequestEntityIncomplete) => 0x88,
        MessageClass::Response(ResponseType::UnprocessableEntity) => 0x96,
        MessageClass::Response(ResponseType::TooManyRequests) => 0x9D,
        MessageClass::Response(ResponseType::InternalServerError) => 0xA0,
        MessageClass::Response(ResponseType::NotImplemented) => 0xA1,
        MessageClass::Response(ResponseType::BadGateway) => 0xA2,
        MessageClass::Response(ResponseType::ServiceUnavailable) => 0xA3,
        MessageClass::Response(ResponseType::GatewayTimeout) => 0xA4,
        MessageClass::Response(ResponseType::ProxyingNotSupported) => 0xA5,
        MessageClass::Response(ResponseType::HopLimitReached) => 0xA8,
        MessageClass::Response(ResponseType::UnKnown) => 0xFF,
        MessageClass::Reserved(c) => c,
    }
}

impl From<u8> for MessageClass {
    /// Maps a code byte through the message-class table; unmapped values
    /// become `Reserved`, never an error.
    fn from(number: u8) -> (r: MessageClass) {
        match number {
            0x00 => MessageClass::Empty,
            0x01 => MessageClass::Request(RequestType::Get),
            0x02 => MessageClass::Request(RequestType::Post),
            0x03 => MessageClass::Request(RequestType::Put),
            0x04 => MessageClass::Request(RequestType::Delete),
            0x05 => MessageClass::Request(RequestType::Fetch),
            0x06 => MessageClass::Request(RequestType::Patch),
            0x07 => MessageClass::Request(RequestType::IPatch),
            0x41 => MessageClass::Response(ResponseType::Created),
            0x42 => MessageClass::Response(ResponseType::Deleted),
            0x43 => MessageClass::Response(ResponseType::Valid),
            0x44 => MessageClass::Response(ResponseType::Changed),
            0x45 => MessageClass::Response(ResponseType::Content),
            0x5F => MessageClass::Response(ResponseType::Continue),
            0x80 => MessageClass::Response(ResponseType::BadRequest),
            0x81 => MessageClass::Response(ResponseType::Unauthorized),
            0x82 => MessageClass::Response(ResponseType::BadOption),
            0x83 => MessageClass::Response(ResponseType::Forbidden),
            0x84 => MessageClass::Response(ResponseType::NotFound),
            0x85 => MessageClass::Response(ResponseType::MethodNotAllowed),
            0x86 => MessageClass::Response(ResponseType::NotAcceptable),
            0x89 => MessageClass::Response(ResponseType::Conflict),
            0x8C => MessageClass::Response(ResponseType::PreconditionFailed),
            0x8D => MessageClass::Response(ResponseType::RequestEntityTooLarge),
            0x8F => MessageClass::Response(ResponseType::UnsupportedContentFormat),
            0x88 => MessageClass::Response(ResponseType::RequestEntityIncomplete),
            0x96 => MessageClass::Response(ResponseType::UnprocessableEntity),
            0x9D => MessageClass::Response(ResponseType::TooManyRequests),
            0xA0 => MessageClass::Response(ResponseType::InternalServerError),
            0xA1 => MessageClass::Response(ResponseType::NotImplemented),
            0xA2 => MessageClass::Response(ResponseType::BadGateway),
            0xA3 => MessageClass::Response(ResponseType::ServiceUnavailable),
            0xA4 => MessageClass::Response(ResponseType::GatewayTimeout),
            0xA5 => MessageClass::Response(ResponseType::ProxyingNotSupported),
            0xA8 => MessageClass::Response(ResponseType::HopLimitReached),
            n => MessageClass::Reserved(n),
        }
    }
}

impl vstd::std_specs::convert::FromSpecImpl<u8> for MessageClass {
    open spec fn obeys_from_spec() -> bool {
        true
    }

    open spec fn from_spec(v: u8) -> MessageClass {
        class_of_byte(v)
    }
}

impl From<MessageClass> for u8 {
    /// Writes a message class as its code byte.
    fn from(class: MessageClass) -> (r: u8) {
        match class {
            MessageClass::Empty => 0x00,
            MessageClass::Request(RequestType::Get) => 0x01,
            MessageClass::Request(RequestType::Post) => 0x02,
            MessageClass::Request(RequestType::Put) => 0x03,
            MessageClass::Request(RequestType::Delete) => 0x04,
            MessageClass::Request(RequestType::Fetch) => 0x05,
            MessageClass::Request(RequestType::Patch) => 0x06,
            MessageClass::Request(RequestType::IPatch) => 0x07,
            MessageClass::Request(RequestType::UnKnown) => 0xFF,
            MessageClass::Response(ResponseType::Created) => 0x41,
            MessageClass::Response(ResponseType::Deleted) => 0x42,
            MessageClass::Response(ResponseType::Valid) => 0x43,
            MessageClass::Response(ResponseType::Changed) => 0x44,
            MessageClass::Response(ResponseType::Content) => 0x45,
            MessageClass::Response(ResponseType::Continue) => 0x5F,
            MessageClass::Response(ResponseType::BadRequest) => 0x80,
            MessageClass::Response(ResponseType::Unauthorized) => 0x81,
            MessageClass::Response(ResponseType::BadOption) => 0x82,
            MessageClass::Response(ResponseType::Forbidden) => 0x83,
            MessageClass::Response(ResponseType::NotFound) => 0x84,
            MessageClass::Response(ResponseType::MethodNotAllowed) => 0x85,
            MessageClass::Response(ResponseType::NotAcceptable) => 0x86,
            MessageClass::Response(ResponseType::Conflict) => 0x89,
            MessageClass::Response(ResponseType::PreconditionFailed) => 0x8C,
            MessageClass::Response(ResponseType::RequestEntityTooLarge) => 0x8D,
            MessageClass::Response(ResponseType::UnsupportedContentFormat) => 0x8F,
            MessageClass::Response(ResponseType::RequestEntityIncomplete) => 0x88,
            MessageClass::Response(ResponseType::UnprocessableEntity) => 0x96,
            MessageClass::Response(ResponseType::TooManyRequests) => 0x9D,
            MessageClass::Response(ResponseType::InternalServerError) => 0xA0,
            MessageClass::Response(ResponseType::NotImplemented) => 0xA1,
            MessageClass::Response(ResponseType::BadGateway) => 0xA2,
            MessageClass::Response(ResponseType::ServiceUnavailable) => 0xA3,
            MessageClass::Response(ResponseType::GatewayTimeout) => 0xA4,
            MessageClass::Response(ResponseType::ProxyingNotSupported) => 0xA5,
            MessageClass::Response(ResponseType::HopLimitReached) => 0xA8,
            MessageClass::Response(ResponseType::UnKnown) => 0xFF,
            MessageClass::Reserved(c) => c,
        }
    }
}

impl vstd::std_specs::convert::FromSpecImpl<MessageClass> for u8 {
    open spec fn obeys_from_spec() -> bool {
        true
    }

    open spec fn from_spec(v: MessageClass) -> u8 {
        byte_of_class(v)
    }
}

/// The option kind that an option number stands for.
pub open spec fn option_of_number(number: u16) -> CoapOption {
    match number {
        1 => CoapOption::IfMatch,
        3 => CoapOption::UriHost,
        4 => CoapOption::ETag,
        5 => CoapOption::IfNoneMatch,
        6 => CoapOption::Observe,
        7 => CoapOption::UriPort,
        8 => CoapOption::LocationPath,
        9 => CoapOption::Oscore,
        11 => CoapOption::UriPath,
        12 => CoapOption::ContentFormat,
        14 => CoapOption::MaxAge,
        15 => CoapOption::UriQuery,
        17 => CoapOption::Accept,
        20 => CoapOption::LocationQuery,
        23 => CoapOption::Block2,
        27 => CoapOption::Block1,
        35 => CoapOption::ProxyUri,
        39 => CoapOption::ProxyScheme,
        60 => CoapOption::Size1,
        28 => CoapOption::Size2,
        258 => CoapOption::NoResponse,
        _ => CoapOption::Unknown(number),
    }
}

/// The option number that an option kind is written as.
pub open spec fn number_of_option(option: CoapOption) -> u16 {
    match option {
        CoapOption::IfMatch => 1,
        CoapOption::UriHost => 3,
        CoapOption::ETag => 4,
        CoapOption::IfNoneMatch => 5,
        CoapOption::Observe => 6,
        CoapOption::UriPort => 7,
        CoapOption::LocationPath => 8,
        CoapOption::Oscore => 9,
        CoapOption::UriPath => 11,
        CoapOption::ContentFormat => 12,
        CoapOption::MaxAge => 14,
        CoapOption::UriQuery => 15,
        CoapOption::Accept => 17,
        CoapOption::LocationQuery => 20,
        CoapOption::Block2 => 23,
        CoapOption::Block1 => 27,
        CoapOption::ProxyUri => 35,
        CoapOption::ProxyScheme => 39,
        CoapOption::Size1 => 60,
        CoapOption::Size2 => 28,
        CoapOption::NoResponse => 258,
        CoapOption::Unknown(number) => number,
    }
}

impl From<u16> for CoapOption {
    /// Maps an option number through the option table; unmapped numbers
    /// become `Unknown`.
    fn from(number: u16) -> (r: CoapOption) {
        match number {
            1 => CoapOption::IfMatch,
            3 => CoapOption::UriHost,
            4 => CoapOption::ETag,
            5 => CoapOption::IfNoneMatch,
            6 => CoapOption::Observe,
            7 => CoapOption::UriPort,
            8 => CoapOption::LocationPath,
            9 => CoapOption::Oscore,
            11 => CoapOption::UriPath,
            12 => CoapOption::ContentFormat,
            14 => CoapOption::MaxAge,
            15 => CoapOption::UriQuery,
            17 => CoapOption::Accept,
            20 => CoapOption::LocationQuery,
            23 => CoapOption::Block2,
            27 => CoapOption::Block1,
            35 => CoapOption::ProxyUri,
            39 => CoapOption::ProxyScheme,
            60 => CoapOption::Size1,
            28 => CoapOption::Size2,
            258 => CoapOption::NoResponse,
            _ => CoapOption::Unknown(number),
        }
    }
}

impl vstd::std_specs::convert::FromSpecImpl<u16> for CoapOption {
    open spec fn obeys_from_spec() -> bool {
        true
    }

    open spec fn from_spec(v: u16) -> CoapOption {
        option_of_number(v)
    }
}

impl From<CoapOption> for u16 {
    /// Writes an option kind as its option number.
    fn from(option: CoapOption) -> (r: u16) {
        match option {
            CoapOption::IfMatch => 1,
            CoapOption::UriHost => 3,
            CoapOption::ETag => 4,
            CoapOption::IfNoneMatch => 5,
            CoapOption::Observe => 6,
            CoapOption::UriPort => 7,
            CoapOption::LocationPath => 8,
            CoapOption::Oscore => 9,
            CoapOption::UriPath => 11,
            CoapOption::ContentFormat => 12,
            CoapOption::MaxAge => 14,
            CoapOption::UriQuery => 15,
            CoapOption::Accept => 17,
            CoapOption::LocationQuery => 20,
            CoapOption::Block2 => 23,
            CoapOption::Block1 => 27,
            CoapOption::ProxyUri => 35,
            CoapOption::ProxyScheme => 39,
            CoapOption::Size1 => 60,
            CoapOption::Size2 => 28,
            CoapOption::NoResponse => 258,
            CoapOption::Unknown(number) => number,
        }
    }
}

impl vstd::std_specs::convert::FromSpecImpl<CoapOption> for u16 {
    open spec fn obeys_from_spec() -> bool {
        true
    }

    open spec fn from_spec(v: CoapOption) -> u16 {
        number_of_option(v)
    }
}

/// The content format that an identifier stands for, if any.
pub open spec fn content_format_of_number(number: usize) -> Result<
    ContentFormat,
    InvalidContentFormat,
> {
    match number {
        0 => Ok(ContentFormat::TextPlain),
        16 => Ok(ContentFormat::ApplicationCoseEncrypt0),
        17 => Ok(ContentFormat::ApplicationCoseMac0),
        18 => Ok(ContentFormat::ApplicationCoseSign1),
        19 => Ok(ContentFormat::ApplicationAceCbor),
        21 => Ok(ContentFormat::ImageGif),
        22 => Ok(ContentFormat::ImageJpeg),
        23 => Ok(ContentFormat::ImagePng),
        40 => Ok(ContentFormat::ApplicationLinkFormat),
        41 => Ok(ContentFormat::ApplicationXML),
        42 => Ok(ContentFormat::ApplicationOctetStream),
        47 => Ok(ContentFormat::ApplicationEXI),
        50 => Ok(ContentFormat::ApplicationJSON),
        51 => Ok(ContentFormat::ApplicationJsonPatchJson),
        52 => Ok(ContentFormat::ApplicationMergePatchJson),
        60 => Ok(ContentFormat::ApplicationCBOR),
        61 => Ok(ContentFormat::ApplicationCWt),
        62 => Ok(ContentFormat::ApplicationMultipartCore),
        63 => Ok(ContentFormat::ApplicationCborSeq),
        96 => Ok(ContentFormat::ApplicationCoseEncrypt),
        97 => Ok(ContentFormat::ApplicationCoseMac),
        98 => Ok(ContentFormat::ApplicationCoseSign),
        101 => Ok(ContentFormat::ApplicationCoseKey),
        102 => Ok(ContentFormat::ApplicationCoseKeySet),
        110 => Ok(ContentFormat::ApplicationSenmlJSON),
        111 => Ok(ContentFormat::ApplicationSensmlJSON),
        112 => Ok(ContentFormat::ApplicationSenmlCBOR),
        113 => Ok(ContentFormat::ApplicationSensmlCBOR),
        114 => Ok(ContentFormat::ApplicationSenmlExi),
        115 => Ok(ContentFormat::ApplicationSensmlExi),
        140 => Ok(ContentFormat::ApplicationYangDataCborSid),
        256 => Ok(ContentFormat::ApplicationCoapGroupJson),
        271 => Ok(ContentFormat::ApplicationDotsCbor),
        272 => Ok(ContentFormat::ApplicationMissingBlocksCborSeq),
        280 => Ok(ContentFormat::ApplicationPkcs7MimeServerGeneratedKey),
        281 => Ok(ContentFormat::ApplicationPkcs7MimeCertsOnly),
        284 => Ok(ContentFormat::ApplicationPkcs8),
        285 => Ok(ContentFormat::ApplicationCsrattrs),
        286 => Ok(ContentFormat::ApplicationPkcs10),
        287 => Ok(ContentFormat::ApplicationPkixCert),
        290 => Ok(ContentFormat::ApplicationAifCbor),
        291 => Ok(ContentFormat::ApplicationAifJson),
        310 => Ok(ContentFormat::ApplicationSenmlXML),
        311 => Ok(ContentFormat::ApplicationSensmlXML),
        320 => Ok(ContentFormat::ApplicationSenmlEtchJson),
        322 => Ok(ContentFormat::ApplicationSenmlEtchCbor),
        340 => Ok(ContentFormat::ApplicationYangDataCbor),
        341 => Ok(ContentFormat::ApplicationYangDataCborName),
        432 => Ok(ContentFormat::ApplicationTdJson),
        836 => Ok(ContentFormat::ApplicationVoucherCoseCbor),
        10000 => Ok(ContentFormat::ApplicationVndOcfCbor),
        10001 => Ok(ContentFormat::ApplicationOscore),
        10002 => Ok(ContentFormat::ApplicationJavascript),
        11050 => Ok(ContentFormat::ApplicationJsonDeflate),
        11060 => Ok(ContentFormat::ApplicationCborDeflate),
        11542 => Ok(ContentFormat::ApplicationVndOmaLwm2mTlv),
        11543 => Ok(ContentFormat::ApplicationVndOmaLwm2mJson),
        11544 => Ok(ContentFormat::ApplicationVndOmaLwm2mCbor),
        20000 => Ok(ContentFormat::TextCss),
        30000 => Ok(ContentFormat::ImageSvgXml),
        _ => Err(InvalidContentFormat),
    }
}

/// The identifier that a content format is written as.
pub open spec fn number_of_content_format(format: ContentFormat) -> usize {
    match format {
        ContentFormat::TextPlain => 0,
        ContentFormat::ApplicationCoseEncrypt0 => 16,
        ContentFormat::ApplicationCoseMac0 => 17,
        ContentFormat::ApplicationCoseSign1 => 18,
        ContentFormat::ApplicationAceCbor => 19,
        ContentFormat::ImageGif => 21,
        ContentFormat::ImageJpeg => 22,
        ContentFormat::ImagePng => 23,
        ContentFormat::ApplicationLinkFormat => 40,
        ContentFormat::ApplicationXML => 41,
        ContentFormat::ApplicationOctetStream => 42,
        ContentFormat::ApplicationEXI => 47,
        ContentFormat::ApplicationJSON => 50,
        ContentFormat::ApplicationJsonPatchJson => 51,
        ContentFormat::ApplicationMergePatchJson => 52,
        ContentFormat::ApplicationCBOR => 60,
        ContentFormat::ApplicationCWt => 61,
        ContentFormat::ApplicationMultipartCore => 62,
        ContentFormat::ApplicationCborSeq => 63,
        ContentFormat::ApplicationCoseEncrypt => 96,
        ContentFormat::ApplicationCoseMac => 97,
        ContentFormat::ApplicationCoseSign => 98,
        ContentFormat::ApplicationCoseKey => 101,
        ContentFormat::ApplicationCoseKeySet => 102,
        ContentFormat::ApplicationSenmlJSON => 110,
        ContentFormat::ApplicationSensmlJSON => 111,
        ContentFormat::ApplicationSenmlCBOR => 112,
        ContentFormat::ApplicationSensmlCBOR => 113,
        ContentFormat::ApplicationSenmlExi => 114,
        ContentFormat::ApplicationSensmlExi => 115,
        ContentFormat::ApplicationYangDataCborSid => 140,
        ContentFormat::ApplicationCoapGroupJson => 256,
        ContentFormat::ApplicationDotsCbor => 271,
        ContentFormat::ApplicationMissingBlocksCborSeq => 272,
        ContentFormat::ApplicationPkcs7MimeServerGeneratedKey => 280,
        ContentFormat::ApplicationPkcs7MimeCertsOnly => 281,
        ContentFormat::ApplicationPkcs8 => 284,
        ContentFormat::ApplicationCsrattrs => 285,
        ContentFormat::ApplicationPkcs10 => 286,
        ContentFormat::ApplicationPkixCert => 287,
        ContentFormat::ApplicationAifCbor => 290,
        ContentFormat::ApplicationAifJson => 291,
        ContentFormat::ApplicationSenmlXML => 310,
        ContentFormat::ApplicationSensmlXML => 311,
        ContentFormat::ApplicationSenmlEtchJson => 320,
        ContentFormat::ApplicationSenmlEtchCbor => 322,
        ContentFormat::ApplicationYangDataCbor => 340,
        ContentFormat::ApplicationYangDataCborName => 341,
        ContentFormat::ApplicationTdJson => 432,
        ContentFormat::ApplicationVoucherCoseCbor => 836,
        ContentFormat::ApplicationVndOcfCbor => 10000,
        ContentFormat::ApplicationOscore => 10001,
        ContentFormat::ApplicationJavascript => 10002,
        ContentFormat::ApplicationJsonDeflate => 11050,
        ContentFormat::ApplicationCborDeflate => 11060,
        ContentFormat::ApplicationVndOmaLwm2mTlv => 11542,
        ContentFormat::ApplicationVndOmaLwm2mJson => 11543,
        ContentFormat::ApplicationVndOmaLwm2mCbor => 11544,
        ContentFormat::TextCss => 20000,
        ContentFormat::ImageSvgXml => 30000,
    }
}

impl ContentFormat {
    /// Maps a content-format identifier through the table, or reports that
    /// the identifier corresponds to no known content format.
    pub fn try_from(number: usize) -> (r: Result<ContentFormat, InvalidContentFormat>)
        ensures
            r == content_format_of_number(number),
    {
        match number {
            0 => Ok(ContentFormat::TextPlain),
            16 => Ok(ContentFormat::ApplicationCoseEncrypt0),
            17 => Ok(ContentFormat::ApplicationCoseMac0),
            18 => Ok(ContentFormat::ApplicationCoseSign1),
            19 => Ok(ContentFormat::ApplicationAceCbor),
            21 => Ok(ContentFormat::ImageGif),
            22 => Ok(ContentFormat::ImageJpeg),
            23 => Ok(ContentFormat::ImagePng),
            40 => Ok(ContentFormat::ApplicationLinkFormat),
            41 => Ok(ContentFormat::ApplicationXML),
            42 => Ok(ContentFormat::ApplicationOctetStream),
            47 => Ok(ContentFormat::ApplicationEXI),
            50 => Ok(ContentFormat::ApplicationJSON),
            51 => Ok(ContentFormat::ApplicationJsonPatchJson),
            52 => Ok(ContentFormat::ApplicationMergePatchJson),
            60 => Ok(ContentFormat::ApplicationCBOR),
            61 => Ok(ContentFormat::ApplicationCWt),
            62 => Ok(ContentFormat::ApplicationMultipartCore),
            63 => Ok(ContentFormat::ApplicationCborSeq),
            96 => Ok(ContentFormat::ApplicationCoseEncrypt),
            97 => Ok(ContentFormat::ApplicationCoseMac),
            98 => Ok(ContentFormat::ApplicationCoseSign),
            101 => Ok(ContentFormat::ApplicationCoseKey),
            102 => Ok(ContentFormat::ApplicationCoseKeySet),
            110 => Ok(ContentFormat::ApplicationSenmlJSON),
            111 => Ok(ContentFormat::ApplicationSensmlJSON),
            112 => Ok(ContentFormat::ApplicationSenmlCBOR),
            113 => Ok(ContentFormat::ApplicationSensmlCBOR),
            114 => Ok(ContentFormat::ApplicationSenmlExi),
            115 => Ok(ContentFormat::ApplicationSensmlExi),
            140 => Ok(ContentFormat::ApplicationYangDataCborSid),
            256 => Ok(ContentFormat::ApplicationCoapGroupJson),
            271 => Ok(ContentFormat::ApplicationDotsCbor),
            272 => Ok(ContentFormat::ApplicationMissingBlocksCborSeq),
            280 => Ok(ContentFormat::ApplicationPkcs7MimeServerGeneratedKey),
            281 => Ok(ContentFormat::ApplicationPkcs7MimeCertsOnly),
            284 => Ok(ContentFormat::ApplicationPkcs8),
            285 => Ok(ContentFormat::ApplicationCsrattrs),
            286 => Ok(ContentFormat::ApplicationPkcs10),
            287 => Ok(ContentFormat::ApplicationPkixCert),
            290 => Ok(ContentFormat::ApplicationAifCbor),
            291 => Ok(ContentFormat::ApplicationAifJson),
            310 => Ok(ContentFormat::ApplicationSenmlXML),
            311 => Ok(ContentFormat::ApplicationSensmlXML),
            320 => Ok(ContentFormat::ApplicationSenmlEtchJson),
            322 => Ok(ContentFormat::ApplicationSenmlEtchCbor),
            340 => Ok(ContentFormat::ApplicationYangDataCbor),
            341 => Ok(ContentFormat::ApplicationYangDataCborName),
            432 => Ok(ContentFormat::ApplicationTdJson),
            836 => Ok(ContentFormat::ApplicationVoucherCoseCbor),
            10000 => Ok(ContentFormat::ApplicationVndOcfCbor),
            10001 => Ok(ContentFormat::ApplicationOscore),
            10002 => Ok(ContentFormat::ApplicationJavascript),
            11050 => Ok(ContentFormat::ApplicationJsonDeflate),
            11060 => Ok(ContentFormat::ApplicationCborDeflate),
            11542 => Ok(ContentFormat::ApplicationVndOmaLwm2mTlv),
            11543 => Ok(ContentFormat::ApplicationVndOmaLwm2mJson),
            11544 => Ok(ContentFormat::ApplicationVndOmaLwm2mCbor),
            20000 => Ok(ContentFormat::TextCss),
            30000 => Ok(ContentFormat::ImageSvgXml),
            _ => Err(InvalidContentFormat),
        }
    }
}

impl From<ContentFormat> for usize {
    /// Writes a content format as its identifier.
    fn from(format: ContentFormat) -> (r: usize) {
        match format {
            ContentFormat::TextPlain => 0,
            ContentFormat::ApplicationCoseEncrypt0 => 16,
            ContentFormat::ApplicationCoseMac0 => 17,
            ContentFormat::ApplicationCoseSign1 => 18,
            ContentFormat::ApplicationAceCbor => 19,
            ContentFormat::ImageGif => 21,
            ContentFormat::ImageJpeg => 22,
            ContentFormat::ImagePng => 23,
            ContentFormat::ApplicationLinkFormat => 40,
            ContentFormat::ApplicationXML => 41,
            ContentFormat::ApplicationOctetStream => 42,
            ContentFormat::ApplicationEXI => 47,
            ContentFormat::ApplicationJSON => 50,
            ContentFormat::ApplicationJsonPatchJson => 51,
            ContentFormat::ApplicationMergePatchJson => 52,
            ContentFormat::ApplicationCBOR => 60,
            ContentFormat::ApplicationCWt => 61,
            ContentFormat::ApplicationMultipartCore => 62,
            ContentFormat::ApplicationCborSeq => 63,
            ContentFormat::ApplicationCoseEncrypt => 96,
            ContentFormat::ApplicationCoseMac => 97,
            ContentFormat::ApplicationCoseSign => 98,
            ContentFormat::ApplicationCoseKey => 101,
            ContentFormat::ApplicationCoseKeySet => 102,
            ContentFormat::ApplicationSenmlJSON => 110,
            ContentFormat::ApplicationSensmlJSON => 111,
            ContentFormat::ApplicationSenmlCBOR => 112,
            ContentFormat::ApplicationSensmlCBOR => 113,
            ContentFormat::ApplicationSenmlExi => 114,
            ContentFormat::ApplicationSensmlExi => 115,
            ContentFormat::ApplicationYangDataCborSid => 140,
            ContentFormat::ApplicationCoapGroupJson => 256,
            ContentFormat::ApplicationDotsCbor => 271,
            ContentFormat::ApplicationMissingBlocksCborSeq => 272,
            ContentFormat::ApplicationPkcs7MimeServerGeneratedKey => 280,
            ContentFormat::ApplicationPkcs7MimeCertsOnly => 281,
            ContentFormat::ApplicationPkcs8 => 284,
            ContentFormat::ApplicationCsrattrs => 285,
            ContentFormat::ApplicationPkcs10 => 286,
            ContentFormat::ApplicationPkixCert => 287,
            ContentFormat::ApplicationAifCbor => 290,
            ContentFormat::ApplicationAifJson => 291,
            ContentFormat::ApplicationSenmlXML => 310,
            ContentFormat::ApplicationSensmlXML => 311,
            ContentFormat::ApplicationSenmlEtchJson => 320,
            ContentFormat::ApplicationSenmlEtchCbor => 322,
            ContentFormat::ApplicationYangDataCbor => 340,
            ContentFormat::ApplicationYangDataCborName => 341,
            ContentFormat::ApplicationTdJson => 432,
            ContentFormat::ApplicationVoucherCoseCbor => 836,
            ContentFormat::ApplicationVndOcfCbor => 10000,
            ContentFormat::ApplicationOscore => 10001,
            ContentFormat::ApplicationJavascript => 10002,
            ContentFormat::ApplicationJsonDeflate => 11050,
            ContentFormat::ApplicationCborDeflate => 11060,
            ContentFormat::ApplicationVndOmaLwm2mTlv => 11542,
            ContentFormat::ApplicationVndOmaLwm2mJson => 11543,
            ContentFormat::ApplicationVndOmaLwm2mCbor => 11544,
            ContentFormat::TextCss => 20000,
            ContentFormat::ImageSvgXml => 30000,
        }
    }
}

impl vstd::std_specs::convert::FromSpecImpl<ContentFormat> for usize {
    open spec fn obeys_from_spec() -> bool {
        true
    }

    open spec fn from_spec(v: ContentFormat) -> usize {
        number_of_content_format(v)
    }
}

/// The observe kind that an observe value stands for, if any.
pub open spec fn observe_of_number(number: usize) -> Result<ObserveOption, InvalidObserve> {
    match number {
        0 => Ok(ObserveOption::Register),
        1 => Ok(ObserveOption::Deregister),
        _ => Err(InvalidObserve),
    }
}

/// The observe value that an observe kind is written as.
pub open spec fn number_of_observe(observe: ObserveOption) -> usize {
    match observe {
        ObserveOption::Register => 0,
        ObserveOption::Deregister => 1,
    }
}

impl ObserveOption {
    /// Maps an observe value through the table, or reports that the value
    /// corresponds to no known observe kind.
    pub fn try_from(number: usize) -> (r: Result<ObserveOption, InvalidObserve>)
        ensures
            r == observe_of_number(number),
    {
        match number {
            0 => Ok(ObserveOption::Register),
            1 => Ok(ObserveOption::Deregister),
            _ => Err(InvalidObserve),
        }
    }
}

impl From<ObserveOption> for usize {
    /// Writes an observe kind as its observe value.
    fn from(observe: ObserveOption) -> (r: usize) {
        match observe {
            ObserveOption::Register => 0,
            ObserveOption::Deregister => 1,
        }
    }
}

impl vstd::std_specs::convert::FromSpecImpl<ObserveOption> for usize {
    open spec fn obeys_from_spec() -> bool {
        true
    }

    open spec fn from_spec(v: ObserveOption) -> usize {
        number_of_observe(v)
    }
}

/// Writing a message class back to the wire inverts reading it: every code
/// byte survives a round trip through the message-class table.
pub proof fn lemma_message_class_round_trip(n: u8)
    ensures
        byte_of_class(class_of_byte(n)) == n,
{
}

/// Writing an option kind back to the wire inverts reading it: every option
/// number survives a round trip through the option table.
pub proof fn lemma_option_number_round_trip(n: u16)
    ensures
        number_of_option(option_of_number(n)) == n,
{
}

/// Writing a content format back to the wire inverts reading it, wherever
/// reading succeeds.
pub proof fn lemma_content_format_round_trip(n: usize)
    ensures
        content_format_of_number(n) matches Ok(f) ==> number_of_content_format(f) == n,
{
}

/// Writing an observe kind back to the wire inverts reading it, wherever
/// reading succeeds.
pub proof fn lemma_observe_round_trip(n: usize)
    ensures
        observe_of_number(n) matches Ok(o) ==> number_of_observe(o) == n,
{
}

/// The options of a sequence that carry the given option number, in their
/// original order.
pub open spec fn options_with_number(opts: Seq<OptView>, n: u16) -> Seq<OptView> {
    opts.filter(|o: OptView| o.num == n)
}

/// The first option of a sequence that carries the given option number.
pub open spec fn first_option_with(opts: Seq<OptView>, n: u16) -> Option<OptView>
    decreases opts.len(),
{
    if opts.len() == 0 {
        None
    } else if opts[0].num == n {
        Some(opts[0])
    } else {
        first_option_with(opts.drop_first(), n)
    }
}

/// The big-endian numeric value of a byte sequence.
pub open spec fn be_value(bytes: Seq<u8>) -> int
    decreases bytes.len(),
{
    if bytes.len() == 0 {
        0
    } else {
        be_value(bytes.drop_last()) * 256 + bytes.last()
    }
}

/// A big-endian value read from at most four bytes fits 32 bits.
pub proof fn lemma_be_value_bound(bytes: Seq<u8>)
    requires
        bytes.len() <= 4,
    ensures
        0 <= be_value(bytes),
        be_value(bytes) < if bytes.len() == 0 {
            1int
        } else if bytes.len() == 1 {
            0x100int
        } else if bytes.len() == 2 {
            0x10000int
        } else if bytes.len() == 3 {
            0x1000000int
        } else {
            0x100000000int
        },
    decreases bytes.len(),
{
    if bytes.len() > 0 {
        lemma_be_value_bound(bytes.drop_last());
    }
}

/// The numeric content-format value of a message: the big-endian value of
/// the first content-format option, if one exists and fits in 16 bits'
/// worth of bytes.
pub open spec fn spec_content_format_value(opts: Seq<OptView>) -> Option<u16> {
    match first_option_with(opts, 12) {
        None => None,
        Some(o) => if o.value.len() > 2 {
            None
        } else {
            Some(be_value(o.value) as u16)
        },
    }
}

/// The numeric observe value of a message: the big-endian value of the
/// first observe option, if one exists and fits in 32 bits' worth of bytes.
pub open spec fn spec_observe_value(opts: Seq<OptView>) -> Option<u32> {
    match first_option_with(opts, 6) {
        None => None,
        Some(o) => if o.value.len() > 4 {
            None
        } else {
            Some(be_value(o.value) as u32)
        },
    }
}

/// The two-bit number that a message type is written as.
pub open spec fn number_of_type(t: MessageType) -> u8 {
    match t {
        MessageType::Confirmable => 0,
        MessageType::NonConfirmable => 1,
        MessageType::Acknowledgement => 2,
        MessageType::Reset => 3,
    }
}

/// The message type that a two-bit number stands for.
pub open spec fn type_of_number(tn: u8) -> MessageType
    recommends
        tn <= 3,
{
    if tn == 0 {
        MessageType::Confirmable
    } else if tn == 1 {
        MessageType::NonConfirmable
    } else if tn == 2 {
        MessageType::Acknowledgement
    } else {
        MessageType::Reset
    }
}

/// The first header byte: the low two version bits, the message type, and
/// the token length, packed into one byte.
pub open spec fn header_byte(version: u8, t: MessageType, tkl: u8) -> u8
    recommends
        tkl < 16,
{
    ((version % 4) * 64 + number_of_type(t) * 16 + tkl) as u8
}

/// The header byte packed by the constructor reads back into its three
/// fields: the low version bits, the message type, and the token length.
pub proof fn lemma_header_byte_parts(version: u8, t: MessageType, tkl: u8)
    requires
        tkl < 16,
    ensures
        header_byte(version, t, tkl) % 16 == tkl,
        header_byte(version, t, tkl) / 64 == version % 4,
        (header_byte(version, t, tkl) / 16) % 4 == number_of_type(t),
{
    let a = (version % 4) as int;
    let tn = number_of_type(t) as int;
    let c = tkl as int;
    assert(0 <= a <= 3);
    assert(0 <= tn <= 3);
    assert(0 <= c <= 15);
    let h = a * 64 + tn * 16 + c;
    assert(header_byte(version, t, tkl) == h);
    assert(h % 16 == c && h / 16 == 4 * a + tn && h / 64 == a && (4 * a + tn) % 4 == tn) by (
    nonlinear_arith)
        requires
            0 <= a <= 3,
            0 <= tn <= 3,
            0 <= c <= 15,
            h == a * 64 + tn * 16 + c,
    ;
}

/// One option of a message: its absolute number and its value bytes,
/// borrowed from the buffer they came from.
#[derive(Debug, Clone, Copy, Default, PartialEq)]
pub struct OptionPair<'a> {
    pub num: u16,
    pub value: &'a [u8],
}

impl<'a> View for OptionPair<'a> {
    type V = OptView;

    open spec fn view(&self) -> OptView {
        OptView { num: self.num, value: self.value@ }
    }
}

/// The mathematical value of an option list.
pub open spec fn opts_view<'a>(s: Seq<OptionPair<'a>>) -> Seq<OptView> {
    s.map_values(|o: OptionPair<'a>| o@)
}

/// One decoded CoAP message.
///
/// A packet borrows its token, option values and payload from the buffer it
/// was decoded from, or from the slices it was constructed with; it never
/// copies them.
#[derive(Debug, Clone, PartialEq)]
pub struct Packet<'a> {
    /// Version, message type and token length byte.
    ver_type_tkl: u8,
    code: MessageClass,
    message_id: u16,
    pub token: &'a [u8],
    /// The options, sorted by ascending option number.
    pub options: Vec<OptionPair<'a>>,
    pub payload: &'a [u8],
}

impl<'a> View for Packet<'a> {
    type V = PacketView;

    closed spec fn view(&self) -> PacketView {
        PacketView {
            ver_type_tkl: self.ver_type_tkl,
            code: self.code,
            message_id: self.message_id,
            token: self.token@,
            options: opts_view(self.options@),
            payload: self.payload@,
        }
    }
}

impl<'a> Packet<'a> {
    /// Builds a packet from caller-supplied fields.
    ///
    /// The first header byte is packed from the low two bits of `version`,
    /// the message type, and the token length. The option list is bounded
    /// by the fixed capacity [`MAX_OPTIONS`], and is first sorted in place
    /// by ascending number with a stable sort: options that share a number
    /// keep their relative order.
    pub fn new(
        t: MessageType,
        code: MessageClass,
        version: u8,
        message_id: u16,
        token: &'a [u8],
        options: &mut Vec<OptionPair<'a>>,
        payload: &'a [u8],
    ) -> (r: Packet<'a>)
        requires
            token@.len() < 16,
            old(options)@.len() <= MAX_OPTIONS,
        ensures
            opts_view(final(options)@) == sort_options(opts_view(old(options)@)),
            r@ == (PacketView {
                ver_type_tkl: header_byte(version, t, token@.len() as u8),
                code: code,
                message_id: message_id,
                token: token@,
                options: sort_options(opts_view(old(options)@)),
                payload: payload@,
            }),
    {
        let tn: u8 = match t {
            MessageType::Confirmable => 0,
            MessageType::NonConfirmable => 1,
            MessageType::Acknowledgement => 2,
            MessageType::Reset => 3,
        };
        let ver_type_tkl: u8 = (version % 4) * 64 + tn * 16 + (token.len() as u8);
        Self::sort_option_pairs(options);
        let mut sorted: Vec<OptionPair<'a>> = Vec::new();
        let mut i: usize = 0;
        while i < options.len()
            invariant
                i <= options@.len(),
                sorted@ == options@.subrange(0, i as int),
            decreases options@.len() - i,
        {
            sorted.push(options[i]);
            assert(sorted@ =~= options@.subrange(0, i + 1));
            i = i + 1;
        }
        assert(sorted@ =~= options@);
        Packet { ver_type_tkl, code, message_id, token, options: sorted, payload }
    }

    /// Sorts the option list in place by ascending option number, keeping
    /// the relative order of options that share a number.
    fn sort_option_pairs<'b>(vec: &mut Vec<OptionPair<'b>>)
        ensures
            opts_view(final(vec)@) == sort_options(opts_view(old(vec)@)),
    {
        let ghost orig = vec@;
        let len = vec.len();
        let mut i: usize = 0;
        while i < len
            invariant
                i <= len,
                len == vec@.len(),
                orig.len() == len,
                opts_view(vec@).subrange(0, i as int) == sort_options(
                    opts_view(orig).subrange(0, i as int),
                ),
                vec@.subrange(i as int, len as int) == orig.subrange(i as int, len as int),
            decreases len - i,
        {
            let ghost sorted_prefix = sort_options(opts_view(orig).subrange(0, i as int));
            let ghost x = vec@[i as int]@;
            proof {
                lemma_sort_options_len(opts_view(orig).subrange(0, i as int));
                assert forall|k: int| i <= k < len implies vec@[k] == orig[k] by {
                    assert(vec@.subrange(i as int, len as int)[k - i] == orig.subrange(
                        i as int,
                        len as int,
                    )[k - i]);
                }
                assert(opts_view(vec@).subrange(0, i + 1) =~= sorted_prefix.subrange(
                    0,
                    i as int,
                ) + seq![x] + sorted_prefix.subrange(i as int, i as int));
                assert(vec@.subrange(i + 1, len as int) =~= orig.subrange(i + 1, len as int));
            }
            let mut j = i;
            while j > 0 && vec[j - 1].num > vec[j].num
                invariant
                    j <= i < len,
                    len == vec@.len(),
                    orig.len() == len,
                    sorted_prefix.len() == i,
                    x == orig[i as int]@,
                    opts_view(vec@).subrange(0, i + 1) == sorted_prefix.subrange(0, j as int)
                        + seq![x] + sorted_prefix.subrange(j as int, i as int),
                    forall|k: int| j <= k < i ==> (#[trigger] sorted_prefix[k].num) > x.num,
                    vec@.subrange(i + 1, len as int) == orig.subrange(i + 1, len as int),
                decreases j,
            {
                proof {
                    assert(opts_view(vec@)[j as int] == opts_view(vec@).subrange(
                        0,
                        i + 1,
                    )[j as int]);
                    assert(opts_view(vec@)[j - 1] == opts_view(vec@).subrange(0, i + 1)[j - 1]);
                    assert(opts_view(vec@)[j as int] == x);
                    assert(opts_view(vec@)[j - 1] == sorted_prefix[j - 1]);
                }
                let ghost before = vec@;
                let moved = vec[j - 1];
                let cur = vec[j];
                vec[j - 1] = cur;
                vec[j] = moved;
                proof {
                    assert(cur@ == x);
                    assert(moved@ == sorted_prefix[j - 1]);
                    assert forall|m: int| 0 <= m < i + 1 implies opts_view(vec@)[m] == (
                    sorted_prefix.subrange(0, j - 1) + seq![x] + sorted_prefix.subrange(
                        j - 1,
                        i as int,
                    ))[m] by {
                        if m == j - 1 {
                            assert(vec@[m] == cur);
                        } else if m == j {
                            assert(vec@[m] == moved);
                        } else {
                            assert(vec@[m] == before[m]);
                            assert(opts_view(before).subrange(0, i + 1)[m] == opts_view(
                                before,
                            )[m]);
                            assert(opts_view(before)[m] == (sorted_prefix.subrange(0, j as int)
                                + seq![x] + sorted_prefix.subrange(j as int, i as int))[m]);
                        }
                    }
                    assert(opts_view(vec@).subrange(0, i + 1) =~= sorted_prefix.subrange(
                        0,
                        j - 1,
                    ) + seq![x] + sorted_prefix.subrange(j - 1, i as int));
                    assert(vec@.subrange(i + 1, len as int) =~= orig.subrange(
                        i + 1,
                        len as int,
                    ));
                }
                j = j - 1;
            }
            proof {
                if j > 0 {
                    assert(opts_view(vec@)[j as int] == opts_view(vec@).subrange(
                        0,
                        i + 1,
                    )[j as int]);
                    assert(opts_view(vec@)[j - 1] == opts_view(vec@).subrange(0, i + 1)[j - 1]);
                    assert(opts_view(vec@)[j - 1] == sorted_prefix[j - 1]);
                    assert(opts_view(vec@)[j as int] == x);
                    assert(sorted_prefix[j - 1].num <= x.num);
                }
                lemma_insert_sorted_at(sorted_prefix, x, j as int);
                assert(opts_view(orig).subrange(0, i + 1).drop_last() =~= opts_view(
                    orig,
                ).subrange(0, i as int));
                assert(opts_view(orig).subrange(0, i + 1).last() == x);
                assert(sort_options(opts_view(orig).subrange(0, i + 1)) == insert_sorted(
                    sorted_prefix,
                    x,
                ));
            }
            i = i + 1;
        }
        assert(opts_view(vec@).subrange(0, len as int) =~= opts_view(vec@));
        assert(opts_view(orig).subrange(0, len as int) =~= opts_view(orig));
    }

    /// Reads the fixed four-byte header: the first header byte, the code
    /// byte, and the big-endian message id.
    fn try_header(buf: &[u8]) -> (r: Result<(u8, u8, u16), MessageError>)
        ensures
            buf@.len() < 4 ==> r == Result::<(u8, u8, u16), MessageError>::Err(
                MessageError::InvalidPacketLength,
            ),
            buf@.len() >= 4 ==> (r matches Ok(h) && h.0 == buf@[0] && h.1 == buf@[1] && h.2 == (
            buf@[2] * 256 + buf@[3]) as u16),
    {
        if buf.len() < 4 {
            return Err(MessageError::InvalidPacketLength);
        }
        let message_id: u16 = (buf[2] as u16) * 256 + (buf[3] as u16);
        Ok((buf[0], buf[1], message_id))
    }

    /// Decodes a byte buffer into a packet that borrows its token, option
    /// values and payload from that buffer.
    ///
    /// The result is exactly what [`spec_decode`] says of the buffer: the
    /// decoded packet value on success, and the first error that the wire
    /// format assigns to a malformed buffer otherwise.
    pub fn from_bytes<'b>(buf: &'b [u8]) -> (r: Result<Packet<'b>, MessageError>)
        ensures
            match spec_decode(buf@) {
                Ok(pv) => r matches Ok(p) && p@ == pv,
                Err(e) => r == Result::<Packet<'b>, MessageError>::Err(e),
            },
    {
        let header = match Self::try_header(buf) {
            Ok(h) => h,
            Err(e) => { return Err(e) },
        };
        let token_length: u8 = header.0 % 16;
        if token_length > 8 {
            return Err(MessageError::InvalidTokenLength);
        }
        let options_start: usize = 4 + token_length as usize;
        if options_start > buf.len() {
            return Err(MessageError::InvalidTokenLength);
        }
        let token: &'b [u8] = vstd::slice::slice_subrange(buf, 4, options_start);

        let mut idx: usize = options_start;
        let mut options_number: u32 = 0;
        let mut options: Vec<OptionPair<'b>> = Vec::new();
        while idx < buf.len() && buf[idx] != 255
            invariant
                buf@.len() >= 4,
                header.0 == buf@[0],
                buf@[0] % 16 <= 8,
                options_start == 4 + (buf@[0] % 16),
                options_start <= idx <= buf@.len(),
                options@.len() <= MAX_OPTIONS,
                options_number <= 0xFFFF,
                match decode_options(
                    buf@,
                    idx as int,
                    options_number as int,
                    options@.len() as int,
                ) {
                    Ok(tail) => decode_options(buf@, options_start as int, 0, 0) == Ok::<
                        _,
                        MessageError,
                    >((opts_view(options@) + tail.0, tail.1)),
                    Err(e) => decode_options(buf@, options_start as int, 0, 0) == Err::<
                        (Seq<OptView>, int),
                        _,
                    >(e),
                },
            decreases buf@.len() - idx,
        {
            let byte = buf[idx];
            let dsel: u8 = byte / 16;
            let lsel: u8 = byte % 16;
            if dsel == 15 {
                return Err(MessageError::InvalidOptionDelta);
            }
            let mut j: usize = idx + 1;
            let delta: u32;
            if dsel == 13 {
                if j >= buf.len() {
                    return Err(MessageError::InvalidOptionLength);
                }
                delta = buf[j] as u32 + 13;
                j = j + 1;
            } else if dsel == 14 {
                if buf.len() - j < 2 {
                    return Err(MessageError::InvalidOptionLength);
                }
                delta = (buf[j] as u32) * 256 + (buf[j + 1] as u32) + 269;
                j = j + 2;
            } else {
                delta = dsel as u32;
            }
            assert(ext_value(buf@, idx + 1, dsel) == Ok::<_, MessageError>(
                (delta as int, j as int),
            ));
            if lsel == 15 {
                return Err(MessageError::InvalidOptionLength);
            }
            let mut k: usize = j;
            let vlen: usize;
            if lsel == 13 {
                if k >= buf.len() {
                    return Err(MessageError::InvalidOptionLength);
                }
                vlen = buf[k] as usize + 13;
                k = k + 1;
            } else if lsel == 14 {
                if buf.len() - k < 2 {
                    return Err(MessageError::InvalidOptionLength);
                }
                vlen = (buf[k] as usize) * 256 + (buf[k + 1] as usize) + 269;
                k = k + 2;
            } else {
                vlen = lsel as usize;
            }
            assert(ext_value(buf@, j as int, lsel) == Ok::<_, MessageError>(
                (vlen as int, k as int),
            ));
            let new_number: u32 = options_number + delta;
            if new_number > 0xFFFF {
                return Err(MessageError::InvalidOptionDelta);
            }
            if vlen > buf.len() - k {
                return Err(MessageError::InvalidOptionLength);
            }
            if options.len() >= MAX_OPTIONS {
                return Err(MessageError::OptionsLimitExceeded);
            }
            let value: &'b [u8] = vstd::slice::slice_subrange(buf, k, k + vlen);
            let ghost old_options = options@;
            options.push(OptionPair { num: new_number as u16, value });
            proof {
                let newopt = OptView {
                    num: new_number as u16,
                    value: buf@.subrange(k as int, k + vlen),
                };
                assert(opts_view(options@) =~= opts_view(old_options) + seq![newopt]);
                match decode_options(
                    buf@,
                    (k + vlen) as int,
                    new_number as int,
                    options@.len() as int,
                ) {
                    Ok(tail) => {
                        assert(decode_options(
                            buf@,
                            idx as int,
                            options_number as int,
                            old_options.len() as int,
                        ) == Ok::<_, MessageError>((seq![newopt] + tail.0, tail.1)));
                        assert(opts_view(old_options) + (seq![newopt] + tail.0) =~= opts_view(
                            options@,
                        ) + tail.0);
                    },
                    Err(e) => {
                        assert(decode_options(
                            buf@,
                            idx as int,
                            options_number as int,
                            old_options.len() as int,
                        ) == Err::<(Seq<OptView>, int), _>(e));
                    },
                }
            }
            options_number = new_number;
            idx = k + vlen;
        }

        proof {
            assert(decode_options(buf@, idx as int, options_number as int, options@.len() as int)
                == Ok::<_, MessageError>((Seq::<OptView>::empty(), idx as int)));
            assert(opts_view(options@) + Seq::<OptView>::empty() =~= opts_view(options@));
            assert(decode_options(buf@, options_start as int, 0, 0) == Ok::<_, MessageError>(
                (opts_view(options@), idx as int),
            ));
        }
        let payload: &'b [u8] = if idx < buf.len() {
            vstd::slice::slice_subrange(buf, idx + 1, buf.len())
        } else {
            vstd::slice::slice_subrange(buf, 0, 0)
        };

        let p = Packet {
            ver_type_tkl: header.0,
            code: MessageClass::from(header.1),
            message_id: header.2,
            token,
            options,
            payload,
        };
        proof {
            match spec_decode(buf@) {
                Ok(pv) => {
                    assert(p@.ver_type_tkl == pv.ver_type_tkl);
                    assert(p@.code == pv.code);
                    assert(p@.message_id == pv.message_id);
                    assert(p@.token == pv.token);
                    assert(p@.options == pv.options);
                    assert(p@.payload == pv.payload);
                    assert(p@ == pv);
                },
                Err(_) => {
                    assert(false);
                },
            }
        }
        Ok(p)
    }

    /// Appends every byte of `src` to `dst`.
    fn push_all(dst: &mut Vec<u8>, src: &[u8])
        ensures
            final(dst)@ == old(dst)@ + src@,
    {
        let mut i: usize = 0;
        while i < src.len()
            invariant
                i <= src@.len(),
                dst@ == old(dst)@ + src@.subrange(0, i as int),
            decreases src@.len() - i,
        {
            dst.push(src[i]);
            assert(dst@ =~= old(dst)@ + src@.subrange(0, i + 1));
            i = i + 1;
        }
        assert(old(dst)@ + src@.subrange(0, src@.len() as int) =~= old(dst)@ + src@);
    }

    /// Encodes the packet into a fresh byte buffer in wire order.
    ///
    /// The options must be sorted by ascending number, as the constructor
    /// leaves them: the delta encoding has no way to write a negative
    /// difference. The result is exactly the byte sequence that
    /// [`spec_encode`] assigns to the packet; if [`encoded_size_bound`]
    /// exceeds [`PACKET_MAX_SIZE`], encoding fails with
    /// `InvalidPacketLength` and no partial output.
    pub fn to_bytes(&self) -> (r: Result<Vec<u8>, MessageError>)
        requires
            options_sorted(self@.options),
        ensures
            encoded_size_bound(self@) <= PACKET_MAX_SIZE ==> (r matches Ok(b) && b@ == spec_encode(
                self@,
            )),
            encoded_size_bound(self@) > PACKET_MAX_SIZE ==> r == Result::<
                Vec<u8>,
                MessageError,
            >::Err(MessageError::InvalidPacketLength),
    {
        let ghost opts = self@.options;
        let mut options_bytes: Vec<u8> = Vec::new();
        proof {
            assert(opts.skip(0) =~= opts);
            assert(Seq::<u8>::empty() + encode_options(opts, 0) =~= encode_options(opts, 0));
        }
        let mut prev: u16 = 0;
        let mut i: usize = 0;
        while i < self.options.len()
            invariant
                i <= opts.len(),
                opts == self@.options,
                opts.len() == self.options@.len(),
                options_sorted(opts),
                if i == 0 {
                    prev == 0
                } else {
                    prev == opts[i - 1].num
                },
                options_bytes@ + encode_options(opts.skip(i as int), prev as int)
                    == encode_options(opts, 0),
                options_bytes@.len() <= PACKET_MAX_SIZE,
            decreases opts.len() - i,
        {
            let opt = self.options[i];
            proof {
                assert(opt@ == opts[i as int]);
                if i > 0 {
                    assert(opts[i - 1].num <= opts[i as int].num);
                }
                assert(opts.skip(i as int)[0] == opts[i as int]);
                assert(opts.skip(i as int).drop_first() =~= opts.skip(i + 1));
            }
            let delta: u16 = opt.num - prev;
            let vlen: usize = opt.value.len();
            if vlen > PACKET_MAX_SIZE {
                proof {
                    assert(encode_options(opts, 0).len() >= encode_option(
                        delta as int,
                        opts[i as int].value,
                    ).len());
                }
                return Err(MessageError::InvalidPacketLength);
            }
            let dn: u8 = if delta <= 12 {
                delta as u8
            } else if delta < 269 {
                13
            } else {
                14
            };
            let ln: u8 = if vlen <= 12 {
                vlen as u8
            } else if vlen < 269 {
                13
            } else {
                14
            };
            let dext: usize = if delta <= 12 {
                0
            } else if delta < 269 {
                1
            } else {
                2
            };
            let lext: usize = if vlen <= 12 {
                0
            } else if vlen < 269 {
                1
            } else {
                2
            };
            let opt_len: usize = 1 + dext + lext + vlen;
            if opt_len > PACKET_MAX_SIZE - options_bytes.len() {
                proof {
                    assert(encode_option(delta as int, opts[i as int].value).len() == opt_len);
                    assert(encode_options(opts.skip(i as int), prev as int).len() >= opt_len);
                    assert(encode_options(opts, 0).len() > PACKET_MAX_SIZE);
                }
                return Err(MessageError::InvalidPacketLength);
            }
            let ghost obytes0 = options_bytes@;
            options_bytes.push(dn * 16 + ln);
            if delta > 12 && delta < 269 {
                options_bytes.push((delta - 13) as u8);
            } else if delta >= 269 {
                let fix: u16 = delta - 269;
                options_bytes.push((fix / 256) as u8);
                options_bytes.push((fix % 256) as u8);
            }
            if vlen > 12 && vlen < 269 {
                options_bytes.push((vlen - 13) as u8);
            } else if vlen >= 269 {
                let fix: usize = vlen - 269;
                options_bytes.push((fix / 256) as u8);
                options_bytes.push((fix % 256) as u8);
            }
            Self::push_all(&mut options_bytes, opt.value);
            proof {
                assert(options_bytes@ =~= obytes0 + encode_option(
                    delta as int,
                    opts[i as int].value,
                ));
                assert(options_bytes@ + encode_options(opts.skip(i + 1), opts[i as int].num as int)
                    =~= encode_options(opts, 0));
            }
            prev = opt.num;
            i = i + 1;
        }
        proof {
            assert(opts.skip(opts.len() as int) =~= Seq::<OptView>::empty());
            assert(options_bytes@ + Seq::<u8>::empty() =~= options_bytes@);
            assert(options_bytes@ == encode_options(opts, 0));
        }

        if self.payload.len() > PACKET_MAX_SIZE {
            return Err(MessageError::InvalidPacketLength);
        }
        if self.token.len() > PACKET_MAX_SIZE {
            return Err(MessageError::InvalidPacketLength);
        }
        let marker: usize = if self.get_code() != MessageClass::Empty && self.payload.len() > 0 {
            1
        } else {
            0
        };
        let buf_length: usize = 4 + self.payload.len() + self.token.len() + marker
            + options_bytes.len();
        if buf_length > PACKET_MAX_SIZE {
            return Err(MessageError::InvalidPacketLength);
        }

        let mut buf: Vec<u8> = Vec::new();
        buf.push(self.ver_type_tkl);
        buf.push(u8::from(self.code));
        buf.push((self.message_id / 256) as u8);
        buf.push((self.message_id % 256) as u8);
        Self::push_all(&mut buf, self.token);
        Self::push_all(&mut buf, options_bytes.as_slice());
        if marker == 1 {
            buf.push(255);
            Self::push_all(&mut buf, self.payload);
        }
        assert(buf@ =~= spec_encode(self@));
        Ok(buf)
    }

    /// The version bits of the first header byte.
    #[inline]
    pub fn get_version(&self) -> (r: u8)
        ensures
            r == self@.ver_type_tkl / 64,
    {
        self.ver_type_tkl / 64
    }

    /// The message type bits of the first header byte.
    #[inline]
    pub fn get_type(&self) -> (r: MessageType)
        ensures
            r == type_of_number((self@.ver_type_tkl / 16) % 4),
    {
        let tn = (self.ver_type_tkl / 16) % 4;
        match tn {
            0 => MessageType::Confirmable,
            1 => MessageType::NonConfirmable,
            2 => MessageType::Acknowledgement,
            _ => MessageType::Reset,
        }
    }

    /// The token length nibble of the first header byte.
    #[inline]
    pub fn get_token_length(&self) -> (r: u8)
        ensures
            r == self@.ver_type_tkl % 16,
    {
        self.ver_type_tkl % 16
    }

    /// The message id.
    #[inline]
    pub fn get_message_id(&self) -> (r: u16)
        ensures
            r == self@.message_id,
    {
        self.message_id
    }

    /// The message class of the code byte.
    pub fn get_code(&self) -> (r: MessageClass)
        ensures
            r == self@.code,
    {
        self.code
    }

    /// The token bytes.
    pub fn get_token(&self) -> (r: &[u8])
        ensures
            r@ == self@.token,
    {
        self.token
    }

    /// The payload bytes.
    pub fn get_payload(&self) -> (r: &[u8])
        ensures
            r@ == self@.payload,
    {
        self.payload
    }

    /// The full option list, in ascending option-number order.
    pub fn options(&self) -> (r: &Vec<OptionPair<'a>>)
        ensures
            opts_view(r@) == self@.options,
    {
        &self.options
    }

    /// Every option of the given kind, in the order the packet holds them.
    pub fn get_options(&self, tp: CoapOption) -> (r: Vec<OptionPair<'a>>)
        ensures
            opts_view(r@) == options_with_number(self@.options, number_of_option(tp)),
    {
        let n: u16 = u16::from(tp);
        let ghost pred = |o: OptView| o.num == n;
        let mut matching: Vec<OptionPair<'a>> = Vec::new();
        proof {
            assert(self@.options.subrange(0, 0) =~= Seq::<OptView>::empty());
            assert(Seq::<OptView>::empty().filter(pred) =~= Seq::<OptView>::empty()) by {
                reveal_with_fuel(Seq::filter, 2);
            }
        }
        let mut i: usize = 0;
        while i < self.options.len()
            invariant
                i <= self.options@.len(),
                n == number_of_option(tp),
                pred == (|o: OptView| o.num == n),
                opts_view(matching@) == self@.options.subrange(0, i as int).filter(pred),
            decreases self.options@.len() - i,
        {
            let ghost prefix = self@.options.subrange(0, i as int);
            proof {
                assert(self@.options.subrange(0, i + 1) =~= prefix + seq![
                    self@.options[i as int],
                ]);
                Seq::filter_distributes_over_add(prefix, seq![self@.options[i as int]], pred);
                assert(seq![self@.options[i as int]].filter(pred) =~= if pred(
                    self@.options[i as int],
                ) {
                    seq![self@.options[i as int]]
                } else {
                    Seq::<OptView>::empty()
                }) by {
                    reveal_with_fuel(Seq::filter, 2);
                }
            }
            if self.options[i].num == n {
                matching.push(self.options[i]);
                assert(opts_view(matching@) =~= self@.options.subrange(0, i + 1).filter(pred));
            } else {
                assert(opts_view(matching@) =~= self@.options.subrange(0, i + 1).filter(pred));
            }
            i = i + 1;
        }
        proof {
            assert(self@.options.subrange(0, self.options@.len() as int) =~= self@.options);
        }
        matching
    }

    /// The first option of the given kind, if the packet holds one.
    pub fn get_first_option(&self, tp: CoapOption) -> (r: Option<&OptionPair<'a>>)
        ensures
            match first_option_with(self@.options, number_of_option(tp)) {
                Some(ov) => r matches Some(p) && p@ == ov,
                None => r is None,
            },
    {
        let n: u16 = u16::from(tp);
        proof {
            assert(self@.options.skip(0) =~= self@.options);
        }
        let mut i: usize = 0;
        while i < self.options.len()
            invariant
                i <= self.options@.len(),
                n == number_of_option(tp),
                first_option_with(self@.options, n) == first_option_with(
                    self@.options.skip(i as int),
                    n,
                ),
            decreases self.options@.len() - i,
        {
            proof {
                assert(self@.options.skip(i as int)[0] == self@.options[i as int]);
                assert(self@.options.skip(i as int).drop_first() =~= self@.options.skip(i + 1));
            }
            if self.options[i].num == n {
                return Some(&self.options[i]);
            }
            i = i + 1;
        }
        proof {
            assert(self@.options.skip(self.options@.len() as int) =~= Seq::<OptView>::empty());
        }
        None
    }

    /// Reads a big-endian 16-bit value from an option value, or reports
    /// that the value carries more bytes than the width allows.
    fn to_uint_u16(encoded: &[u8]) -> (r: Result<u16, IncompatibleOptionValueFormat>)
        ensures
            encoded@.len() > 2 ==> r == Result::<u16, IncompatibleOptionValueFormat>::Err(
                IncompatibleOptionValueFormat { got: encoded@.len() as usize, expected: 2 },
            ),
            encoded@.len() <= 2 ==> r == Result::<u16, IncompatibleOptionValueFormat>::Ok(
                be_value(encoded@) as u16,
            ),
    {
        if encoded.len() > 2 {
            return Err(IncompatibleOptionValueFormat { got: encoded.len(), expected: 2 });
        }
        let mut acc: u16 = 0;
        let mut i: usize = 0;
        while i < encoded.len()
            invariant
                i <= encoded@.len() <= 2,
                acc == be_value(encoded@.subrange(0, i as int)),
                acc < if i == 0 {
                    1int
                } else if i == 1 {
                    256int
                } else {
                    65536int
                },
            decreases encoded@.len() - i,
        {
            proof {
                assert(encoded@.subrange(0, i + 1).drop_last() =~= encoded@.subrange(0, i as int));
            }
            acc = acc * 256 + (encoded[i] as u16);
            i = i + 1;
        }
        proof {
            assert(encoded@.subrange(0, encoded@.len() as int) =~= encoded@);
        }
        Ok(acc)
    }

    /// Reads a big-endian 32-bit value from an option value, or reports
    /// that the value carries more bytes than the width allows.
    fn to_uint_u32(encoded: &[u8]) -> (r: Result<u32, IncompatibleOptionValueFormat>)
        ensures
            encoded@.len() > 4 ==> r == Result::<u32, IncompatibleOptionValueFormat>::Err(
                IncompatibleOptionValueFormat { got: encoded@.len() as usize, expected: 4 },
            ),
            encoded@.len() <= 4 ==> r == Result::<u32, IncompatibleOptionValueFormat>::Ok(
                be_value(encoded@) as u32,
            ),
    {
        if encoded.len() > 4 {
            return Err(IncompatibleOptionValueFormat { got: encoded.len(), expected: 4 });
        }
        let mut acc: u32 = 0;
        let mut i: usize = 0;
        while i < encoded.len()
            invariant
                i <= encoded@.len() <= 4,
                acc == be_value(encoded@.subrange(0, i as int)),
                acc < if i == 0 {
                    1int
                } else if i == 1 {
                    0x100int
                } else if i == 2 {
                    0x10000int
                } else if i == 3 {
                    0x1000000int
                } else {
                    0x100000000int
                },
            decreases encoded@.len() - i,
        {
            proof {
                assert(encoded@.subrange(0, i + 1).drop_last() =~= encoded@.subrange(0, i as int));
            }
            acc = acc * 256 + (encoded[i] as u32);
            i = i + 1;
        }
        proof {
            assert(encoded@.subrange(0, encoded@.len() as int) =~= encoded@);
        }
        Ok(acc)
    }

    /// The numeric value of the first content-format option: absent when the
    /// packet has no such option or its value is wider than 16 bits.
    pub fn get_content_format_value(&self) -> (r: Option<u16>)
        ensures
            r == spec_content_format_value(self@.options),
    {
        match self.get_first_option(CoapOption::ContentFormat) {
            None => None,
            Some(o) => match Self::to_uint_u16(o.value) {
                Ok(v) => Some(v),
                Err(_) => None,
            },
        }
    }

    /// The numeric value of the first observe option: absent when the
    /// packet has no such option or its value is wider than 32 bits.
    pub fn get_observe_value(&self) -> (r: Option<u32>)
        ensures
            r == spec_observe_value(self@.options),
    {
        match self.get_first_option(CoapOption::Observe) {
            None => None,
            Some(o) => match Self::to_uint_u32(o.value) {
                Ok(v) => Some(v),
                Err(_) => None,
            },
        }
    }
}

} // verus!
