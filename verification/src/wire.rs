use vstd::prelude::*;

use crate::endian::be_bytes_of;
use crate::endian::be_value_of;
use crate::endian::lemma_be_round_trip;
use vstd::utf8::decode_utf8;
use vstd::utf8::encode_utf8;
use vstd::utf8::encode_utf8_decode_utf8;
use vstd::utf8::encode_utf8_valid_utf8;
use vstd::utf8::valid_utf8;

verus! {

// ---------------------------------------------------------------------------
// The frames that the protocol writes.
//
// Every variable-length field is preceded by its byte length as a 4-byte
// big-endian integer.  A call frame is the function name, then each
// serialized argument, then a zero length as terminator; because the zero
// length is the terminator, an argument with an empty serialized form
// cannot be represented.  A response frame is a zero length for a void
// result, or the length and bytes of the serialized result; a result with
// an empty serialized form cannot be represented either.
// ---------------------------------------------------------------------------
/// The frame of one argument: its length, then its payload.
pub open spec fn arg_frame(payload: Seq<u8>) -> Seq<u8>
    recommends
        payload.len() <= u32::MAX,
{
    be_bytes_of(payload.len() as u32) + payload
}

/// The frames of a sequence of arguments, without the terminator.
pub open spec fn arg_frames(payloads: Seq<Seq<u8>>) -> Seq<u8>
    decreases payloads.len(),
{
    if payloads.len() == 0 {
        Seq::empty()
    } else {
        arg_frame(payloads[0]) + arg_frames(payloads.drop_first())
    }
}

/// The frames of a sequence of arguments followed by the zero terminator.
pub open spec fn args_frames(payloads: Seq<Seq<u8>>) -> Seq<u8> {
    arg_frames(payloads) + be_bytes_of(0)
}

/// The complete frame of a call: name length, name bytes, argument frames,
/// terminator.
pub open spec fn call_frame(name: Seq<u8>, payloads: Seq<Seq<u8>>) -> Seq<u8>
    recommends
        name.len() <= u32::MAX,
{
    be_bytes_of(name.len() as u32) + name + args_frames(payloads)
}

/// The complete frame of a response: a zero length for a void result, else
/// the length and bytes of the serialized result.
pub open spec fn response_frame(payload: Option<Seq<u8>>) -> Seq<u8>
    recommends
        payload matches Some(b) ==> b.len() <= u32::MAX,
{
    match payload {
        Option::None => be_bytes_of(0),
        Option::Some(b) => be_bytes_of(b.len() as u32) + b,
    }
}

// ---------------------------------------------------------------------------
// The parser that recovers the frames from a byte stream.  Each function
// returns what it read together with the unread remainder of the stream,
// or `None` where the stream ends before the frame does.
// ---------------------------------------------------------------------------
/// Reads one 4-byte big-endian length field.
pub open spec fn parse_len(s: Seq<u8>) -> Option<(u32, Seq<u8>)> {
    if s.len() < 4 {
        Option::None
    } else {
        Option::Some((be_value_of(s.take(4)), s.skip(4)))
    }
}

/// Reads argument frames up to and including the zero terminator.
pub open spec fn parse_args(s: Seq<u8>) -> Option<(Seq<Seq<u8>>, Seq<u8>)>
    decreases s.len(),
{
    match parse_len(s) {
        Option::None => Option::None,
        Option::Some((n, rest)) => {
            if n == 0 {
                Option::Some((Seq::empty(), rest))
            } else if rest.len() < n {
                Option::None
            } else {
                match parse_args(rest.skip(n as int)) {
                    Option::None => Option::None,
                    Option::Some((more, tail)) => Option::Some(
                        (seq![rest.take(n as int)] + more, tail),
                    ),
                }
            }
        },
    }
}

/// Reads one complete call frame: name, then arguments.
pub open spec fn parse_call(s: Seq<u8>) -> Option<(Seq<u8>, Seq<Seq<u8>>, Seq<u8>)> {
    match parse_len(s) {
        Option::None => Option::None,
        Option::Some((n, rest)) => {
            if rest.len() < n {
                Option::None
            } else {
                match parse_args(rest.skip(n as int)) {
                    Option::None => Option::None,
                    Option::Some((payloads, tail)) => Option::Some(
                        (rest.take(n as int), payloads, tail),
                    ),
                }
            }
        },
    }
}

/// Reads one complete response frame.
pub open spec fn parse_response(s: Seq<u8>) -> Option<(Option<Seq<u8>>, Seq<u8>)> {
    match parse_len(s) {
        Option::None => Option::None,
        Option::Some((n, rest)) => {
            if n == 0 {
                Option::Some((Option::None, rest))
            } else if rest.len() < n {
                Option::None
            } else {
                Option::Some((Option::Some(rest.take(n as int)), rest.skip(n as int)))
            }
        },
    }
}

// ---------------------------------------------------------------------------
// Round-trip laws of the framing.
// ---------------------------------------------------------------------------
/// Appending one more argument extends the argument frames by that
/// argument's frame.
pub proof fn lemma_arg_frames_push(payloads: Seq<Seq<u8>>, payload: Seq<u8>)
    ensures
        arg_frames(payloads.push(payload)) == arg_frames(payloads) + arg_frame(payload),
    decreases payloads.len(),
{
    if payloads.len() == 0 {
        assert(payloads.push(payload).drop_first() =~= Seq::<Seq<u8>>::empty());
        assert(payloads.push(payload)[0] == payload);
        assert(arg_frames(payloads.push(payload)) == arg_frame(payload) + arg_frames(
            Seq::<Seq<u8>>::empty(),
        ));
        assert(arg_frames(payloads.push(payload)) =~= arg_frames(payloads) + arg_frame(payload));
    } else {
        assert(payloads.push(payload).drop_first() =~= payloads.drop_first().push(payload));
        lemma_arg_frames_push(payloads.drop_first(), payload);
        assert(arg_frame(payloads[0]) + (arg_frames(payloads.drop_first()) + arg_frame(payload))
            =~= (arg_frame(payloads[0]) + arg_frames(payloads.drop_first())) + arg_frame(
            payload,
        ));
    }
}

/// A length field prefixed to a stream parses back to the same length and
/// leaves the stream untouched.
pub proof fn lemma_parse_len_frame(n: u32, rest: Seq<u8>)
    ensures
        parse_len(be_bytes_of(n) + rest) == Option::Some((n, rest)),
{
    let s = be_bytes_of(n) + rest;
    assert(s.take(4) =~= be_bytes_of(n));
    assert(s.skip(4) =~= rest);
    lemma_be_round_trip(n);
}

/// Framed arguments followed by anything parse back to the same argument
/// payloads, leaving that remainder untouched.  Every payload must be
/// non-empty — an empty payload would be read as the terminator — and no
/// longer than a length field can say.
pub proof fn lemma_args_round_trip(payloads: Seq<Seq<u8>>, rest: Seq<u8>)
    requires
        forall|i: int| 0 <= i < payloads.len() ==> 0 < #[trigger] payloads[i].len() <= u32::MAX,
    ensures
        parse_args(args_frames(payloads) + rest) == Option::Some((payloads, rest)),
    decreases payloads.len(),
{
    if payloads.len() == 0 {
        assert(args_frames(payloads) + rest =~= be_bytes_of(0) + rest);
        lemma_parse_len_frame(0, rest);
    } else {
        let a0 = payloads[0];
        let n = a0.len() as u32;
        let tail = args_frames(payloads.drop_first()) + rest;
        assert(args_frames(payloads) + rest =~= be_bytes_of(n) + (a0 + tail));
        lemma_parse_len_frame(n, a0 + tail);
        assert(n as int == a0.len());
        assert((a0 + tail).take(n as int) =~= a0);
        assert((a0 + tail).skip(n as int) =~= tail);
        assert forall|i: int| 0 <= i < payloads.drop_first().len() implies 0
            < #[trigger] payloads.drop_first()[i].len() <= u32::MAX by {
            assert(payloads.drop_first()[i] == payloads[i + 1]);
        }
        lemma_args_round_trip(payloads.drop_first(), rest);
        assert(seq![a0] + payloads.drop_first() =~= payloads);
    }
}

/// A complete call frame followed by anything parses back to the same name
/// bytes and argument payloads, leaving the remainder untouched.
pub proof fn lemma_call_frame_round_trip(name: Seq<u8>, payloads: Seq<Seq<u8>>, rest: Seq<u8>)
    requires
        name.len() <= u32::MAX,
        forall|i: int| 0 <= i < payloads.len() ==> 0 < #[trigger] payloads[i].len() <= u32::MAX,
    ensures
        parse_call(call_frame(name, payloads) + rest) == Option::Some((name, payloads, rest)),
{
    let n = name.len() as u32;
    let tail = args_frames(payloads) + rest;
    assert(call_frame(name, payloads) + rest =~= be_bytes_of(n) + (name + tail));
    lemma_parse_len_frame(n, name + tail);
    assert(n as int == name.len());
    assert((name + tail).take(n as int) =~= name);
    assert((name + tail).skip(n as int) =~= tail);
    lemma_args_round_trip(payloads, rest);
}

/// Round-trip framing stated over the function name as text: encoding the
/// name's UTF-8 bytes and parsing them back yields bytes that decode to the
/// same text.
pub proof fn lemma_call_round_trip(name: Seq<char>, payloads: Seq<Seq<u8>>, rest: Seq<u8>)
    requires
        encode_utf8(name).len() <= u32::MAX,
        forall|i: int| 0 <= i < payloads.len() ==> 0 < #[trigger] payloads[i].len() <= u32::MAX,
    ensures
        parse_call(call_frame(encode_utf8(name), payloads) + rest) == Option::Some(
            (encode_utf8(name), payloads, rest),
        ),
        valid_utf8(encode_utf8(name)),
        decode_utf8(encode_utf8(name)) == name,
{
    lemma_call_frame_round_trip(encode_utf8(name), payloads, rest);
    encode_utf8_valid_utf8(name);
    encode_utf8_decode_utf8(name);
}

/// A complete response frame followed by anything parses back to the same
/// optional payload, leaving the remainder untouched.  A present payload
/// must be non-empty — an empty one would be read as a void response — and
/// no longer than a length field can say.
pub proof fn lemma_response_round_trip(payload: Option<Seq<u8>>, rest: Seq<u8>)
    requires
        payload matches Some(b) ==> 0 < b.len() <= u32::MAX,
    ensures
        parse_response(response_frame(payload) + rest) == Option::Some((payload, rest)),
{
    match payload {
        Option::None => {
            assert(response_frame(payload) + rest =~= be_bytes_of(0) + rest);
            lemma_parse_len_frame(0, rest);
        },
        Option::Some(b) => {
            let n = b.len() as u32;
            assert(response_frame(payload) + rest =~= be_bytes_of(n) + (b + rest));
            lemma_parse_len_frame(n, b + rest);
            assert(n as int == b.len());
            assert((b + rest).take(n as int) =~= b);
            assert((b + rest).skip(n as int) =~= rest);
        },
    }
}

/// Calls sent on one connection stand back to back on the stream in the
/// order they were issued: parsing yields the first call whole, leaving
/// the second call's frame untouched, and only then the second.
pub proof fn lemma_calls_in_order(
    name1: Seq<u8>,
    payloads1: Seq<Seq<u8>>,
    name2: Seq<u8>,
    payloads2: Seq<Seq<u8>>,
    rest: Seq<u8>,
)
    requires
        name1.len() <= u32::MAX,
        name2.len() <= u32::MAX,
        forall|i: int| 0 <= i < payloads1.len() ==> 0 < #[trigger] payloads1[i].len() <= u32::MAX,
        forall|i: int| 0 <= i < payloads2.len() ==> 0 < #[trigger] payloads2[i].len() <= u32::MAX,
    ensures
        parse_call(call_frame(name1, payloads1) + (call_frame(name2, payloads2) + rest))
            == Option::Some((name1, payloads1, call_frame(name2, payloads2) + rest)),
        parse_call(call_frame(name2, payloads2) + rest) == Option::Some(
            (name2, payloads2, rest),
        ),
{
    lemma_call_frame_round_trip(name1, payloads1, call_frame(name2, payloads2) + rest);
    lemma_call_frame_round_trip(name2, payloads2, rest);
}

/// Responses to the calls of one connection stand back to back on the
/// stream in the order the calls were made: parsing yields the first
/// call's response first, leaving the second's frame untouched, and only
/// then the second's.
pub proof fn lemma_responses_in_order(
    first: Option<Seq<u8>>,
    second: Option<Seq<u8>>,
    rest: Seq<u8>,
)
    requires
        first matches Some(b) ==> 0 < b.len() <= u32::MAX,
        second matches Some(b) ==> 0 < b.len() <= u32::MAX,
    ensures
        parse_response(response_frame(first) + (response_frame(second) + rest)) == Option::Some(
            (first, response_frame(second) + rest),
        ),
        parse_response(response_frame(second) + rest) == Option::Some((second, rest)),
{
    lemma_response_round_trip(first, response_frame(second) + rest);
    lemma_response_round_trip(second, rest);
}

/// A void response is exactly one zero length field: four bytes and
/// nothing more, so reading a void response consumes no payload bytes and
/// leaves the stream untouched.
pub proof fn lemma_void_response(rest: Seq<u8>)
    ensures
        response_frame(None).len() == 4,
        parse_response(response_frame(None) + rest) == Option::Some(
            (Option::None::<Seq<u8>>, rest),
        ),
{
    lemma_response_round_trip(None, rest);
}

} // verus!
