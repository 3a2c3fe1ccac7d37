use vstd::prelude::*;

use crate::endian::be_bytes_of;
use crate::endian::be_value_of;
use crate::endian::u32_from_be;
use crate::endian::u32_to_be;
use crate::error::Error;
use crate::json::from_json_bytes;
use crate::json::json_bytes_of;
use crate::json::json_value_of;
use crate::json::to_json_bytes;
use crate::wire::arg_frames;
use crate::wire::call_frame;
use crate::wire::lemma_arg_frames_push;
use crate::wire::response_frame;
use vstd::string::StringSliceAdditionalSpecFns;

verus! {

/// The serialized payloads of an argument list, in order.
pub open spec fn payloads_of(args: Seq<serde_json::Value>) -> Seq<Seq<u8>> {
    args.map_values(|v: serde_json::Value| json_bytes_of(v))
}

/// True when every field of a call — the name and each serialized
/// argument — fits in a 4-byte length field, so the call is representable
/// on the wire.
pub open spec fn call_fits(name: &str, args: Seq<serde_json::Value>) -> bool {
    &&& name.spec_bytes().len() <= u32::MAX
    &&& forall|i: int| 0 <= i < args.len() ==> #[trigger] json_bytes_of(args[i]).len() <= u32::MAX
}

fn push_all(out: &mut Vec<u8>, src: &[u8])
    ensures
        final(out)@ == old(out)@ + src@,
{
    let mut i: usize = 0;
    while i < src.len()
        invariant
            i <= src@.len(),
            out@ == old(out)@ + src@.take(i as int),
        decreases src@.len() - i,
    {
        out.push(src[i]);
        proof {
            assert(src@.take(i as int).push(src@[i as int]) =~= src@.take(i + 1));
        }
        i += 1;
    }
    proof {
        assert(src@.take(i as int) =~= src@);
    }
}

/// Encodes one call: the function name and the arguments, each argument
/// serialized by the collaborator, framed as the wire format asks.
/// Succeeds exactly when the name and every serialized argument fit in a
/// length field; a call that does not fit is unrepresentable and is
/// rejected as a `DecodeError`.
pub fn encode_call(fn_name: &str, args: &[serde_json::Value]) -> (r: Result<Vec<u8>, Error>)
    ensures
        r is Ok <==> call_fits(fn_name, args@),
        r matches Ok(b) ==> b@ == call_frame(fn_name.spec_bytes(), payloads_of(args@)),
        r is Err ==> r == Err::<Vec<u8>, Error>(Error::DecodeError),
{
    let name_bytes: &[u8] = fn_name.as_bytes();
    if name_bytes.len() > (u32::MAX as usize) {
        return Err(Error::DecodeError);
    }
    let mut out = u32_to_be(name_bytes.len() as u32);
    push_all(&mut out, name_bytes);
    let ghost prefix: Seq<u8> = be_bytes_of(fn_name.spec_bytes().len() as u32)
        + fn_name.spec_bytes();
    let mut i: usize = 0;
    while i < args.len()
        invariant
            i <= args@.len(),
            forall|j: int| 0 <= j < i ==> #[trigger] json_bytes_of(args@[j]).len() <= u32::MAX,
            out@ == prefix + arg_frames(payloads_of(args@).take(i as int)),
        decreases args@.len() - i,
    {
        let payload = match to_json_bytes(&args[i]) {
            Some(p) => p,
            None => {
                return Err(Error::DecodeError);
            },
        };
        if payload.len() > (u32::MAX as usize) {
            return Err(Error::DecodeError);
        }
        let lenb = u32_to_be(payload.len() as u32);
        push_all(&mut out, lenb.as_slice());
        push_all(&mut out, payload.as_slice());
        proof {
            lemma_arg_frames_push(payloads_of(args@).take(i as int), payload@);
            assert(payloads_of(args@).take(i as int).push(payload@) =~= payloads_of(
                args@,
            ).take(i + 1));
            assert(out@ =~= prefix + arg_frames(payloads_of(args@).take(i + 1)));
        }
        i += 1;
    }
    let term = u32_to_be(0);
    push_all(&mut out, term.as_slice());
    proof {
        assert(payloads_of(args@).take(args@.len() as int) =~= payloads_of(args@));
        assert(out@ =~= call_frame(fn_name.spec_bytes(), payloads_of(args@)));
    }
    Ok(out)
}

/// Encodes one response: four zero bytes for a void result, else the
/// serialized result behind its length.  A result whose serialized form
/// does not fit in a length field is unrepresentable and is rejected as a
/// `DecodeError`.
pub fn encode_response(result: &Option<serde_json::Value>) -> (r: Result<Vec<u8>, Error>)
    ensures
        (*result) is None ==> (r matches Ok(b) && b@ == response_frame(None)),
        (*result) matches Some(v) ==> (if json_bytes_of(v).len() <= u32::MAX {
            r matches Ok(b) && b@ == response_frame(Some(json_bytes_of(v)))
        } else {
            r == Err::<Vec<u8>, Error>(Error::DecodeError)
        }),
{
    match result {
        None => Ok(u32_to_be(0)),
        Some(v) => {
            let payload = match to_json_bytes(v) {
                Some(p) => p,
                None => {
                    return Err(Error::DecodeError);
                },
            };
            if payload.len() > (u32::MAX as usize) {
                return Err(Error::DecodeError);
            }
            let mut out = u32_to_be(payload.len() as u32);
            push_all(&mut out, payload.as_slice());
            proof {
                assert(out@ =~= response_frame(Some(json_bytes_of(*v))));
            }
            Ok(out)
        },
    }
}

/// What the 4-byte header of a response says: a void result, or how many
/// payload bytes follow.
#[derive(Debug, Clone, Copy, PartialEq, Eq, Structural)]
pub enum ResponseHeader {
    Void,
    Payload(u32),
}

/// Reads a response header.  A zero length means a void result; any other
/// length is the byte count of the serialized result that follows.
pub fn decode_response_header(b: &Vec<u8>) -> (r: ResponseHeader)
    requires
        b@.len() == 4,
    ensures
        r == (if be_value_of(b@) == 0 {
            ResponseHeader::Void
        } else {
            ResponseHeader::Payload(be_value_of(b@))
        }),
{
    let n = u32_from_be(b);
    if n == 0 {
        ResponseHeader::Void
    } else {
        ResponseHeader::Payload(n)
    }
}

/// Parses a response payload back into a structured value; bytes that are
/// not one well-formed serialized value are a `DecodeError`.
pub fn decode_response_payload(b: &Vec<u8>) -> (r: Result<serde_json::Value, Error>)
    ensures
        match json_value_of(b@) {
            Some(v) => r == Ok::<serde_json::Value, Error>(v),
            None => r == Err::<serde_json::Value, Error>(Error::DecodeError),
        },
{
    match from_json_bytes(b) {
        Some(v) => Ok(v),
        None => Err(Error::DecodeError),
    }
}

} // verus!
