//! The CoAP request view: stateless, read-only projections over an
//! already-decoded packet — the method, the concatenated path, and the
//! observe flag.

use vstd::prelude::*;
use vstd::string::{StringExecFns, StringSliceAdditionalSpecFns};
use vstd::utf8::{encode_utf8, valid_utf8};

use crate::error::{InvalidObserve, MessageError};
use crate::packet::{
    be_value, first_option_with, observe_of_number, options_with_number, CoapOption, MessageClass,
    ObserveOption, Packet, RequestType,
};
use crate::wire::OptView;
use crate::PATH_MAX_SIZE;

verus! {

/// The CoAP request: a decoded packet together with the endpoint it came
/// from.
#[derive(Debug, Clone, PartialEq)]
pub struct CoapRequest<'a, Endpoint> {
    pub message: &'a Packet<'a>,
    pub source: Option<Endpoint>,
}

/// The request method that a message class stands for: the method of a
/// request class, and `UnKnown` for every other class.
pub open spec fn method_of_class(c: MessageClass) -> RequestType {
    match c {
        MessageClass::Request(rt) => rt,
        _ => RequestType::UnKnown,
    }
}

/// The values of the Uri-Path options of a message, in packet order: one
/// path segment each.
pub open spec fn uri_path_values(opts: Seq<OptView>) -> Seq<Seq<u8>> {
    options_with_number(opts, 11).map_values(|o: OptView| o.value)
}

/// The concatenated path that a segment list yields, with `used` bytes of
/// the fixed path capacity already taken: each segment must be valid UTF-8
/// and the total must fit the capacity, else the first failing segment's
/// error.
pub open spec fn spec_path(vals: Seq<Seq<u8>>, used: int) -> Result<Seq<u8>, MessageError>
    decreases vals.len(),
{
    if vals.len() == 0 {
        Ok(Seq::empty())
    } else if !valid_utf8(vals[0]) {
        Err(MessageError::InvalidOption)
    } else if used + vals[0].len() > PATH_MAX_SIZE {
        Err(MessageError::PathLengthExceeded)
    } else {
        match spec_path(vals.drop_first(), used + vals[0].len()) {
            Ok(rest) => Ok(vals[0] + rest),
            Err(e) => Err(e),
        }
    }
}

/// Encoding a concatenation of character sequences concatenates their
/// encodings.
pub proof fn lemma_encode_utf8_concat(a: Seq<char>, b: Seq<char>)
    ensures
        encode_utf8(a + b) == encode_utf8(a) + encode_utf8(b),
    decreases a.len(),
{
    if a.len() == 0 {
        assert(a + b =~= b);
        assert(encode_utf8(a) + encode_utf8(b) =~= encode_utf8(b));
    } else {
        assert((a + b).drop_first() =~= a.drop_first() + b);
        lemma_encode_utf8_concat(a.drop_first(), b);
        assert((a + b)[0] == a[0]);
        assert(encode_utf8(a + b) =~= encode_utf8(a) + encode_utf8(b));
    }
}

/// Relies on core::str::from_utf8: it returns a string slice viewing
/// exactly the given bytes when they are valid UTF-8, and an error
/// otherwise.
#[verifier::external_body]
fn bytes_as_str(b: &[u8]) -> (r: Option<&str>)
    ensures
        r is Some <==> valid_utf8(b@),
        r matches Some(s) ==> s.spec_bytes() == b@,
{
    core::str::from_utf8(b).ok()
}

impl<'a, Endpoint> CoapRequest<'a, Endpoint> {
    /// Wraps a decoded packet as a request from the given endpoint.
    pub fn from_packet<'b>(packet: &'b Packet<'b>, source: Endpoint) -> (r: CoapRequest<
        'b,
        Endpoint,
    >)
        ensures
            r.message == packet,
            r.source == Some(source),
    {
        CoapRequest { message: packet, source: Some(source) }
    }

    /// The request method of the message, or `UnKnown` when its code is not
    /// a request class.
    pub fn get_method(&self) -> (r: RequestType)
        ensures
            r == method_of_class(self.message@.code),
    {
        match self.message.get_code() {
            MessageClass::Request(rt) => rt,
            _ => RequestType::UnKnown,
        }
    }

    /// Concatenates the values of every Uri-Path option, in packet order,
    /// decoding each as UTF-8 text, without separators between segments.
    ///
    /// A segment that is not valid UTF-8 fails with `InvalidOption`; a
    /// concatenation that would exceed [`PATH_MAX_SIZE`] bytes fails with
    /// `PathLengthExceeded`; segments are checked in order and the first
    /// failure wins.
    pub fn get_path(&self) -> (r: Result<String, MessageError>)
        ensures
            match spec_path(uri_path_values(self.message@.options), 0) {
                Ok(bytes) => r matches Ok(s) && encode_utf8(s@) == bytes,
                Err(e) => r == Result::<String, MessageError>::Err(e),
            },
    {
        let matching = self.message.get_options(CoapOption::UriPath);
        let ghost vals = uri_path_values(self.message@.options);
        proof {
            assert(vals.len() == matching@.len());
            assert forall|k: int| 0 <= k < matching@.len() implies vals[k]
                == matching@[k].value@ by {
                assert(options_with_number(self.message@.options, 11)[k] == matching@[k]@);
            }
            assert(vals.skip(0) =~= vals);
        }
        let mut s = String::new();
        let mut total: usize = 0;
        let mut i: usize = 0;
        while i < matching.len()
            invariant
                i <= matching@.len(),
                vals == uri_path_values(self.message@.options),
                vals.len() == matching@.len(),
                forall|k: int| 0 <= k < matching@.len() ==> vals[k] == (
                #[trigger] matching@[k]).value@,
                total <= PATH_MAX_SIZE,
                total == encode_utf8(s@).len(),
                match spec_path(vals.skip(i as int), total as int) {
                    Ok(rest) => spec_path(vals, 0) == Ok::<_, MessageError>(
                        encode_utf8(s@) + rest,
                    ),
                    Err(e) => spec_path(vals, 0) == Err::<Seq<u8>, _>(e),
                },
            decreases matching@.len() - i,
        {
            let seg_bytes: &[u8] = matching[i].value;
            proof {
                assert(vals.skip(i as int)[0] == vals[i as int]);
                assert(vals.skip(i as int).drop_first() =~= vals.skip(i + 1));
                assert(vals[i as int] == seg_bytes@);
            }
            match bytes_as_str(seg_bytes) {
                None => {
                    return Err(MessageError::InvalidOption);
                },
                Some(seg) => {
                    if seg_bytes.len() > PATH_MAX_SIZE - total {
                        return Err(MessageError::PathLengthExceeded);
                    }
                    let ghost s_old = s@;
                    proof {
                        lemma_encode_utf8_concat(s_old, seg@);
                    }
                    s.append(seg);
                    total = total + seg_bytes.len();
                    proof {
                        assert(encode_utf8(s@) == encode_utf8(s_old) + seg_bytes@);
                        match spec_path(vals.skip(i + 1), total as int) {
                            Ok(rest) => {
                                assert(encode_utf8(s_old) + (seg_bytes@ + rest) =~= encode_utf8(
                                    s@,
                                ) + rest);
                            },
                            Err(_) => {},
                        }
                    }
                },
            }
            i = i + 1;
        }
        proof {
            assert(vals.skip(vals.len() as int) =~= Seq::<Seq<u8>>::empty());
            assert(encode_utf8(s@) + Seq::<u8>::empty() =~= encode_utf8(s@));
        }
        Ok(s)
    }

    /// The flag of the Observe option: absent exactly when the message has
    /// no Observe option, and `Err(InvalidObserve)` when one is present
    /// whose value is wider than the numeric width or maps to no known
    /// observe kind.
    pub fn get_observe_flag(&self) -> (r: Option<Result<ObserveOption, InvalidObserve>>)
        ensures
            match first_option_with(self.message@.options, 6) {
                None => r is None,
                Some(o) => if o.value.len() > 4 {
                    r == Some(Result::<ObserveOption, InvalidObserve>::Err(InvalidObserve))
                } else {
                    r == Some(observe_of_number(be_value(o.value) as usize))
                },
            },
    {
        proof {
            match first_option_with(self.message@.options, 6) {
                Some(o) => {
                    if o.value.len() <= 4 {
                        crate::packet::lemma_be_value_bound(o.value);
                    }
                },
                None => {},
            }
        }
        match self.message.get_first_option(CoapOption::Observe) {
            None => None,
            Some(_) => match self.message.get_observe_value() {
                None => Some(Err(InvalidObserve)),
                Some(v) => Some(ObserveOption::try_from(v as usize)),
            },
        }
    }
}

} // verus!
