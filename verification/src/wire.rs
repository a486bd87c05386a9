//! The mathematical description of the CoAP wire format.
//!
//! [`spec_decode`] says what any byte buffer decodes to, and [`spec_encode`]
//! says what bytes a message is written as; both directions of the codec in
//! [`crate::packet`] are proved against these functions, and
//! [`lemma_round_trip`] proves that they invert each other on valid messages.

use vstd::arithmetic::div_mod::lemma_fundamental_div_mod;
use vstd::prelude::*;

use crate::error::MessageError;
use crate::packet::{byte_of_class, class_of_byte, MessageClass};
use crate::{MAX_OPTIONS, PACKET_MAX_SIZE};

verus! {

/// The mathematical value of one option: its absolute number and its value
/// bytes.
pub struct OptView {
    pub num: u16,
    pub value: Seq<u8>,
}

/// The mathematical value of a packet: the fields a decoded buffer carries.
pub struct PacketView {
    /// Version, message type and token length byte, kept verbatim.
    pub ver_type_tkl: u8,
    pub code: MessageClass,
    pub message_id: u16,
    pub token: Seq<u8>,
    pub options: Seq<OptView>,
    pub payload: Seq<u8>,
}

/// The high nibble of a byte: the delta selector of an option header.
pub open spec fn hi_nibble(b: u8) -> u8 {
    b / 16
}

/// The low nibble of a byte: the length selector of an option header, or the
/// token length of the first header byte.
pub open spec fn lo_nibble(b: u8) -> u8 {
    b % 16
}

/// Reads the delta or length field selected by `sel`, with its extension
/// bytes at position `i`: the field value and the position after it, or the
/// error when the buffer ends before the extension bytes.
pub open spec fn ext_value(b: Seq<u8>, i: int, sel: u8) -> Result<(int, int), MessageError>
    recommends
        0 <= sel <= 14,
{
    if sel <= 12 {
        Ok((sel as int, i))
    } else if sel == 13 {
        if i < b.len() {
            Ok((b[i] + 13, i + 1))
        } else {
            Err(MessageError::InvalidOptionLength)
        }
    } else {
        if i + 1 < b.len() {
            Ok((b[i] * 256 + b[i + 1] + 269, i + 2))
        } else {
            Err(MessageError::InvalidOptionLength)
        }
    }
}

/// Decodes the option block of `b` from position `i`, with `number` the
/// running option-number accumulator and `count` the options decoded so far:
/// the decoded options and the position where the block ends (the end of the
/// buffer, or the position of the payload marker), or the first error.
pub open spec fn decode_options(b: Seq<u8>, i: int, number: int, count: int) -> Result<
    (Seq<OptView>, int),
    MessageError,
>
    decreases b.len() - i,
    when 0 <= i <= b.len()
{
    if i >= b.len() {
        Ok((Seq::empty(), i))
    } else if b[i] == 255 {
        Ok((Seq::empty(), i))
    } else {
        let dsel = hi_nibble(b[i]);
        let lsel = lo_nibble(b[i]);
        if dsel == 15 {
            Err(MessageError::InvalidOptionDelta)
        } else {
            match ext_value(b, i + 1, dsel) {
                Err(e) => Err(e),
                Ok((delta, j)) => if lsel == 15 {
                    Err(MessageError::InvalidOptionLength)
                } else {
                    match ext_value(b, j, lsel) {
                        Err(e) => Err(e),
                        Ok((vlen, k)) => if number + delta > 0xFFFF {
                            Err(MessageError::InvalidOptionDelta)
                        } else if k + vlen > b.len() {
                            Err(MessageError::InvalidOptionLength)
                        } else if count >= MAX_OPTIONS {
                            Err(MessageError::OptionsLimitExceeded)
                        } else {
                            match decode_options(b, k + vlen, number + delta, count + 1) {
                                Err(e) => Err(e),
                                Ok((rest, end)) => Ok(
                                    (
                                        seq![
                                            OptView {
                                                num: (number + delta) as u16,
                                                value: b.subrange(k, k + vlen),
                                            },
                                        ] + rest,
                                        end,
                                    ),
                                ),
                            }
                        },
                    }
                },
            }
        }
    }
}

/// What any byte buffer decodes to: a packet value, or the error that
/// decoding reports.
pub open spec fn spec_decode(b: Seq<u8>) -> Result<PacketView, MessageError> {
    if b.len() < 4 {
        Err(MessageError::InvalidPacketLength)
    } else {
        let tkl = lo_nibble(b[0]) as int;
        if tkl > 8 {
            Err(MessageError::InvalidTokenLength)
        } else if 4 + tkl > b.len() {
            Err(MessageError::InvalidTokenLength)
        } else {
            match decode_options(b, 4 + tkl, 0, 0) {
                Err(e) => Err(e),
                Ok((opts, end)) => Ok(
                    PacketView {
                        ver_type_tkl: b[0],
                        code: class_of_byte(b[1]),
                        message_id: (b[2] * 256 + b[3]) as u16,
                        token: b.subrange(4, 4 + tkl),
                        options: opts,
                        payload: if end < b.len() {
                            b.subrange(end + 1, b.len() as int)
                        } else {
                            Seq::empty()
                        },
                    },
                ),
            }
        }
    }
}

/// The selector nibble that a delta or length field is written as.
pub open spec fn field_nibble(v: int) -> u8 {
    if v <= 12 {
        v as u8
    } else if v < 269 {
        13
    } else {
        14
    }
}

/// The extension bytes that a delta or length field is written as: none,
/// one, or two big-endian bytes.
pub open spec fn ext_bytes(v: int) -> Seq<u8> {
    if v <= 12 {
        Seq::empty()
    } else if v < 269 {
        seq![(v - 13) as u8]
    } else {
        seq![((v - 269) / 256) as u8, ((v - 269) % 256) as u8]
    }
}

/// The wire bytes of one option: its header byte, the extension bytes of
/// both fields, then the value bytes.
pub open spec fn encode_option(delta: int, value: Seq<u8>) -> Seq<u8> {
    seq![(field_nibble(delta) * 16 + field_nibble(value.len() as int)) as u8] + ext_bytes(delta)
        + ext_bytes(value.len() as int) + value
}

/// The wire bytes of an option sequence, with `prev` the number of the
/// previously emitted option.
pub open spec fn encode_options(opts: Seq<OptView>, prev: int) -> Seq<u8>
    decreases opts.len(),
{
    if opts.len() == 0 {
        Seq::empty()
    } else {
        encode_option(opts[0].num - prev, opts[0].value) + encode_options(
            opts.drop_first(),
            opts[0].num as int,
        )
    }
}

/// The wire bytes that a packet value is written as: the fixed header, the
/// token, the option block, then the payload after its marker byte. An
/// empty-class message or an empty payload never emits the marker.
pub open spec fn spec_encode(p: PacketView) -> Seq<u8> {
    seq![
        p.ver_type_tkl,
        byte_of_class(p.code),
        (p.message_id / 256) as u8,
        (p.message_id % 256) as u8,
    ] + p.token + encode_options(p.options, 0) + if p.code != MessageClass::Empty
        && p.payload.len() > 0 {
        seq![255u8] + p.payload
    } else {
        Seq::empty()
    }
}

/// The size that the encoder checks against the fixed maximum: the header,
/// token, option block and payload, and the marker byte when one would be
/// emitted. The payload counts towards the bound even for an empty-class
/// message, which never emits it.
pub open spec fn encoded_size_bound(p: PacketView) -> int {
    4 + p.token.len() + encode_options(p.options, 0).len() + (if p.code != MessageClass::Empty
        && p.payload.len() > 0 {
        1int
    } else {
        0int
    }) + p.payload.len()
}

/// The options are in ascending order of option number.
pub open spec fn options_sorted(opts: Seq<OptView>) -> bool {
    forall|i: int, j: int|
        0 <= i <= j < opts.len() ==> #[trigger] opts[i].num <= #[trigger] opts[j].num
}

/// Inserts `x` into the sorted sequence `s`, after every element whose
/// number is at most `x.num`: the insertion step of a stable sort.
pub open spec fn insert_sorted(s: Seq<OptView>, x: OptView) -> Seq<OptView>
    decreases s.len(),
{
    if s.len() == 0 || s.last().num <= x.num {
        s.push(x)
    } else {
        insert_sorted(s.drop_last(), x).push(s.last())
    }
}

/// Sorts an option sequence by ascending number with a stable insertion
/// sort: options that share a number keep their relative order.
pub open spec fn sort_options(s: Seq<OptView>) -> Seq<OptView>
    decreases s.len(),
{
    if s.len() == 0 {
        Seq::empty()
    } else {
        insert_sorted(sort_options(s.drop_last()), s.last())
    }
}

/// A two-part value recomposes from its quotient and remainder.
proof fn lemma_div_mod_recompose(a: int, b: int, m: int)
    by (nonlinear_arith)
    requires
        0 <= a,
        0 <= b < m,
        0 < m,
    ensures
        (a * m + b) / m == a,
        (a * m + b) % m == b,
{
}

/// A bounded value has a bounded quotient.
proof fn lemma_div_bound(d: int, m: int, c: int)
    by (nonlinear_arith)
    requires
        0 <= d < m * c,
        0 < m,
        0 < c,
    ensures
        0 <= d / m < c,
{
}

/// Reading back the selector nibble and extension bytes of an encoded delta
/// or length field yields the field's value.
proof fn lemma_ext_round_trip(b: Seq<u8>, i: int, v: int)
    requires
        0 <= v < 269 + 65536,
        0 <= i,
        i + ext_bytes(v).len() <= b.len(),
        b.subrange(i, i + ext_bytes(v).len()) == ext_bytes(v),
    ensures
        ext_value(b, i, field_nibble(v)) == Ok::<(int, int), MessageError>(
            (v, i + ext_bytes(v).len()),
        ),
{
    if v <= 12 {
    } else if v < 269 {
        assert(b[i] == ext_bytes(v)[0]) by {
            assert(b.subrange(i, i + 1)[0] == ext_bytes(v)[0]);
        }
        assert(b[i] == v - 13);
    } else {
        assert(b[i] == ext_bytes(v)[0] && b[i + 1] == ext_bytes(v)[1]) by {
            assert(b.subrange(i, i + 2)[0] == ext_bytes(v)[0]);
            assert(b.subrange(i, i + 2)[1] == ext_bytes(v)[1]);
        }
        let d = v - 269;
        lemma_div_bound(d, 256, 256);
        lemma_fundamental_div_mod(d, 256);
        assert(b[i] == d / 256 && b[i + 1] == d % 256);
        assert(b[i] * 256 + b[i + 1] + 269 == v);
    }
}

/// Every option value is no longer than the whole encoded option block.
proof fn lemma_encode_options_value_bound(opts: Seq<OptView>, prev: int, k: int)
    requires
        0 <= k < opts.len(),
    ensures
        encode_options(opts, prev).len() >= opts[k].value.len(),
    decreases opts.len(),
{
    if k > 0 {
        lemma_encode_options_value_bound(opts.drop_first(), opts[0].num as int, k - 1);
        assert(opts.drop_first()[k - 1] == opts[k]);
    }
}

/// Decoding an encoded option block yields exactly the options that were
/// encoded, ending at the block's end.
#[verifier::rlimit(60)]
pub proof fn lemma_decode_options_of_encode(
    b: Seq<u8>,
    i: int,
    opts: Seq<OptView>,
    prev: int,
    count: int,
)
    requires
        0 <= prev <= 0xFFFF,
        0 <= i,
        options_sorted(opts),
        opts.len() > 0 ==> prev <= opts[0].num,
        0 <= count,
        count + opts.len() <= MAX_OPTIONS,
        forall|k: int| 0 <= k < opts.len() ==> (#[trigger] opts[k].value).len() < 269 + 65536,
        i + encode_options(opts, prev).len() <= b.len(),
        b.subrange(i, i + encode_options(opts, prev).len()) == encode_options(opts, prev),
        i + encode_options(opts, prev).len() == b.len() || b[i + encode_options(opts, prev).len()]
            == 255,
    ensures
        decode_options(b, i, prev, count) == Ok::<(Seq<OptView>, int), MessageError>(
            (opts, i + encode_options(opts, prev).len()),
        ),
    decreases opts.len(),
{
    let enc = encode_options(opts, prev);
    if opts.len() == 0 {
        assert(opts =~= Seq::<OptView>::empty());
    } else {
        let x = opts[0];
        let delta = x.num - prev;
        let val = x.value;
        let vlen = val.len() as int;
        let eo = encode_option(delta, val);
        let rest = encode_options(opts.drop_first(), x.num as int);
        assert(enc == eo + rest);
        assert(b[i] == enc[0]) by {
            assert(b.subrange(i, i + enc.len())[0] == enc[0]);
        }
        let dn = field_nibble(delta);
        let ln = field_nibble(vlen);
        assert(dn <= 14 && ln <= 14);
        assert(eo[0] == (dn * 16 + ln) as u8);
        assert(b[i] == dn * 16 + ln);
        lemma_div_mod_recompose(dn as int, ln as int, 16);
        assert(hi_nibble(b[i]) == dn);
        assert(lo_nibble(b[i]) == ln);
        assert(b[i] != 255);
        let dext = ext_bytes(delta);
        let lext = ext_bytes(vlen);
        let j = i + 1 + dext.len();
        let k = j + lext.len();
        assert(eo.len() == 1 + dext.len() + lext.len() + vlen);
        assert forall|m: int| i + 1 <= m < i + 1 + dext.len() implies b[m] == dext[m - i - 1] by {
            assert(b.subrange(i, i + enc.len())[m - i] == enc[m - i]);
            assert(enc[m - i] == eo[m - i]);
            assert(eo[m - i] == dext[m - i - 1]);
        }
        assert(b.subrange(i + 1, i + 1 + dext.len()) =~= dext);
        lemma_ext_round_trip(b, i + 1, delta);
        assert forall|m: int| j <= m < j + lext.len() implies b[m] == lext[m - j] by {
            assert(b.subrange(i, i + enc.len())[m - i] == enc[m - i]);
            assert(enc[m - i] == eo[m - i]);
            assert(eo[m - i] == lext[m - j]);
        }
        assert(b.subrange(j, j + lext.len()) =~= lext);
        lemma_ext_round_trip(b, j, vlen);
        assert forall|m: int| k <= m < k + vlen implies b[m] == val[m - k] by {
            assert(b.subrange(i, i + enc.len())[m - i] == enc[m - i]);
            assert(enc[m - i] == eo[m - i]);
            assert(eo[m - i] == val[m - k]);
        }
        assert(b.subrange(k, k + vlen) =~= val);
        assert(prev + delta == x.num);
        assert(count < MAX_OPTIONS);
        assert(k + vlen == i + eo.len());
        assert(k + vlen <= b.len());
        assert(options_sorted(opts.drop_first())) by {
            assert forall|m: int, m2: int|
                0 <= m <= m2 < opts.drop_first().len() implies (
            #[trigger] opts.drop_first()[m].num) <= (#[trigger] opts.drop_first()[m2].num) by {
                assert(opts[m + 1].num <= opts[m2 + 1].num);
            }
        }
        assert(opts.drop_first().len() > 0 ==> x.num <= opts.drop_first()[0].num) by {
            if opts.len() > 1 {
                assert(opts[0].num <= opts[1].num);
                assert(opts.drop_first()[0] == opts[1]);
            }
        }
        assert forall|m: int| 0 <= m < opts.drop_first().len() implies (
        #[trigger] opts.drop_first()[m].value).len() < 269 + 65536 by {
            assert(opts.drop_first()[m] == opts[m + 1]);
            assert(opts[m + 1].value.len() < 269 + 65536);
        }
        assert(b.subrange(i + eo.len(), i + eo.len() + rest.len()) =~= rest) by {
            assert forall|m: int|
                i + eo.len() <= m < i + eo.len() + rest.len() implies b[m] == rest[m - i
                - eo.len()] by {
                assert(b.subrange(i, i + enc.len())[m - i] == enc[m - i]);
                assert(enc[m - i] == rest[m - i - eo.len()]);
            }
        }
        lemma_decode_options_of_encode(b, i + eo.len(), opts.drop_first(), x.num as int, count + 1);
        assert(seq![OptView { num: (prev + delta) as u16, value: b.subrange(k, k + vlen) }]
            + opts.drop_first() =~= opts);
    }
}

/// The fields on which encoding and decoding invert each other: the token
/// length nibble matches the token, the token is within the legal length,
/// the options are sorted and within capacity, the whole message fits the
/// fixed maximum size, the code byte maps back to the same class, and only
/// a non-empty class carries a payload.
pub open spec fn round_trip_valid(p: PacketView) -> bool {
    &&& p.token.len() == p.ver_type_tkl % 16
    &&& p.token.len() <= 8
    &&& options_sorted(p.options)
    &&& p.options.len() <= MAX_OPTIONS
    &&& spec_encode(p).len() <= PACKET_MAX_SIZE
    &&& class_of_byte(byte_of_class(p.code)) == p.code
    &&& (p.code == MessageClass::Empty ==> p.payload.len() == 0)
}

/// A packet that the constructor builds from valid fields is ready for the
/// round trip: the packed header byte carries the token length, and the
/// sorted options are in ascending order.
pub proof fn lemma_constructed_round_trip_valid(
    p: PacketView,
    version: u8,
    t: crate::packet::MessageType,
    opts0: Seq<OptView>,
)
    requires
        p.token.len() <= 8,
        p.ver_type_tkl == crate::packet::header_byte(version, t, p.token.len() as u8),
        p.options == sort_options(opts0),
        p.options.len() <= MAX_OPTIONS,
        spec_encode(p).len() <= PACKET_MAX_SIZE,
        class_of_byte(byte_of_class(p.code)) == p.code,
        p.code == MessageClass::Empty ==> p.payload.len() == 0,
    ensures
        round_trip_valid(p),
{
    crate::packet::lemma_header_byte_parts(version, t, p.token.len() as u8);
    lemma_sort_options_sorted(opts0);
}

/// Decoding inverts encoding: a message built from valid fields survives a
/// round trip through the wire format value for value.
#[verifier::rlimit(60)]
pub proof fn lemma_round_trip(p: PacketView)
    requires
        round_trip_valid(p),
    ensures
        spec_decode(spec_encode(p)) == Ok::<PacketView, MessageError>(p),
{
    let b = spec_encode(p);
    let hdr = seq![
        p.ver_type_tkl,
        byte_of_class(p.code),
        (p.message_id / 256) as u8,
        (p.message_id % 256) as u8,
    ];
    let eo = encode_options(p.options, 0);
    let tail = if p.code != MessageClass::Empty && p.payload.len() > 0 {
        seq![255u8] + p.payload
    } else {
        Seq::<u8>::empty()
    };
    assert(b == hdr + p.token + eo + tail);
    let tkl = p.token.len() as int;
    assert(b.len() == 4 + tkl + eo.len() + tail.len());
    assert(b[0] == p.ver_type_tkl);
    assert(b[1] == byte_of_class(p.code));
    assert(lo_nibble(b[0]) == tkl);
    assert(b.subrange(4, 4 + tkl) =~= p.token);
    let i0 = 4 + tkl;
    let end = i0 + eo.len();
    assert(b.subrange(i0, end) =~= eo);
    if p.code != MessageClass::Empty && p.payload.len() > 0 {
        assert(b[end] == tail[0]);
        assert(b[end] == 255);
    } else {
        assert(end == b.len());
    }
    assert forall|k: int| 0 <= k < p.options.len() implies (#[trigger] p.options[k].value).len()
        < 269 + 65536 by {
        lemma_encode_options_value_bound(p.options, 0, k);
    }
    lemma_decode_options_of_encode(b, i0, p.options, 0, 0);
    lemma_div_bound(p.message_id as int, 256, 256);
    lemma_fundamental_div_mod(p.message_id as int, 256);
    assert(b[2] == p.message_id / 256 && b[3] == p.message_id % 256);
    assert((b[2] * 256 + b[3]) as u16 == p.message_id);
    match spec_decode(b) {
        Ok(pv) => {
            assert(pv.ver_type_tkl == p.ver_type_tkl);
            assert(pv.code == p.code);
            assert(pv.message_id == p.message_id);
            assert(pv.token == p.token);
            assert(pv.options == p.options);
            if p.code != MessageClass::Empty && p.payload.len() > 0 {
                assert(end < b.len());
                assert(pv.payload =~= p.payload);
            } else {
                assert(pv.payload =~= p.payload);
            }
            assert(pv == p);
        },
        Err(_) => {
            assert(false);
        },
    }
}

/// Inserting one element grows the sequence by one.
pub proof fn lemma_insert_sorted_len(s: Seq<OptView>, x: OptView)
    ensures
        insert_sorted(s, x).len() == s.len() + 1,
    decreases s.len(),
{
    if !(s.len() == 0 || s.last().num <= x.num) {
        lemma_insert_sorted_len(s.drop_last(), x);
    }
}

/// Sorting keeps the length of the sequence.
pub proof fn lemma_sort_options_len(s: Seq<OptView>)
    ensures
        sort_options(s).len() == s.len(),
    decreases s.len(),
{
    if s.len() > 0 {
        lemma_sort_options_len(s.drop_last());
        lemma_insert_sorted_len(sort_options(s.drop_last()), s.last());
    }
}

/// Inserting into a sorted sequence keeps it sorted, and the last element
/// carries the largest number seen.
pub proof fn lemma_insert_sorted_sorted(s: Seq<OptView>, x: OptView)
    requires
        options_sorted(s),
    ensures
        options_sorted(insert_sorted(s, x)),
        insert_sorted(s, x).last().num == if s.len() == 0 {
            x.num as int
        } else {
            vstd::math::max(x.num as int, s.last().num as int)
        },
    decreases s.len(),
{
    lemma_insert_sorted_len(s, x);
    if s.len() == 0 || s.last().num <= x.num {
        let r = s.push(x);
        assert forall|i: int, j: int| 0 <= i <= j < r.len() implies #[trigger] r[i].num
            <= #[trigger] r[j].num by {
            if j < s.len() {
            } else if i < s.len() {
                assert(s[i].num <= s[s.len() - 1].num);
            }
        }
    } else {
        assert(options_sorted(s.drop_last())) by {
            assert forall|i: int, j: int| 0 <= i <= j < s.drop_last().len() implies (
            #[trigger] s.drop_last()[i].num) <= (#[trigger] s.drop_last()[j].num) by {
                assert(s[i].num <= s[j].num);
            }
        }
        lemma_insert_sorted_sorted(s.drop_last(), x);
        lemma_insert_sorted_len(s.drop_last(), x);
        let inner = insert_sorted(s.drop_last(), x);
        let r = inner.push(s.last());
        assert forall|i: int, j: int| 0 <= i <= j < r.len() implies #[trigger] r[i].num
            <= #[trigger] r[j].num by {
            if j < inner.len() {
                assert(inner[i].num <= inner[j].num);
            } else if i < inner.len() {
                assert(inner[i].num <= inner[inner.len() - 1].num);
                if s.len() > 1 {
                    assert(s.drop_last()[s.len() - 2] == s[s.len() - 2]);
                    assert(s[s.len() - 2].num <= s[s.len() - 1].num);
                }
            }
        }
    }
}

/// Sorting yields a sequence in ascending order of option number.
///
/// Together with [`lemma_sort_options_stable`] this pins the constructor's
/// option order down: ascending by number, and stable within equal numbers.
pub proof fn lemma_sort_options_sorted(s: Seq<OptView>)
    ensures
        options_sorted(sort_options(s)),
    decreases s.len(),
{
    if s.len() > 0 {
        lemma_sort_options_sorted(s.drop_last());
        lemma_insert_sorted_sorted(sort_options(s.drop_last()), s.last());
    }
}

/// Inserting keeps the subsequence of options with any given number, only
/// ever appending the new element at its end.
pub proof fn lemma_insert_sorted_filter(s: Seq<OptView>, x: OptView, n: u16)
    ensures
        insert_sorted(s, x).filter(|o: OptView| o.num == n) == if x.num == n {
            s.filter(|o: OptView| o.num == n).push(x)
        } else {
            s.filter(|o: OptView| o.num == n)
        },
    decreases s.len(),
{
    let pred = |o: OptView| o.num == n;
    reveal_with_fuel(Seq::filter, 2);
    if s.len() == 0 || s.last().num <= x.num {
        assert(s.push(x).drop_last() =~= s);
    } else {
        lemma_insert_sorted_filter(s.drop_last(), x, n);
        let inner = insert_sorted(s.drop_last(), x);
        assert(inner.push(s.last()).drop_last() =~= inner);
        assert(s.last().num != n || x.num != n);
        if x.num == n {
            assert(insert_sorted(s, x).filter(pred) =~= s.filter(pred).push(x));
        } else {
            assert(insert_sorted(s, x).filter(pred) =~= s.filter(pred));
        }
    }
}

/// The sort is stable: for every option number, the options that carry it
/// stand in the sorted sequence in the same order, with the same values, as
/// they stood in the input.
pub proof fn lemma_sort_options_stable(s: Seq<OptView>, n: u16)
    ensures
        sort_options(s).filter(|o: OptView| o.num == n) == s.filter(|o: OptView| o.num == n),
    decreases s.len(),
{
    let pred = |o: OptView| o.num == n;
    reveal_with_fuel(Seq::filter, 2);
    if s.len() > 0 {
        lemma_sort_options_stable(s.drop_last(), n);
        lemma_insert_sorted_filter(sort_options(s.drop_last()), s.last(), n);
    }
}

/// Where [`insert_sorted`] puts the new element: at the position `j` that
/// has every later element greater than `x` and every earlier one at most
/// `x`.
pub proof fn lemma_insert_sorted_at(s: Seq<OptView>, x: OptView, j: int)
    requires
        0 <= j <= s.len(),
        forall|k: int| j <= k < s.len() ==> (#[trigger] s[k].num) > x.num,
        j > 0 ==> s[j - 1].num <= x.num,
    ensures
        insert_sorted(s, x) == s.subrange(0, j) + seq![x] + s.subrange(j, s.len() as int),
    decreases s.len(),
{
    if j == s.len() {
        assert(insert_sorted(s, x) =~= s.subrange(0, j) + seq![x] + s.subrange(
            j,
            s.len() as int,
        ));
    } else {
        assert(s[s.len() - 1].num > x.num);
        lemma_insert_sorted_at(s.drop_last(), x, j);
        assert(insert_sorted(s, x) =~= s.subrange(0, j) + seq![x] + s.subrange(
            j,
            s.len() as int,
        ));
    }
}

} // verus!
