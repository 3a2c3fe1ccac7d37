//! A small remote-procedure-call library.
//!
//! A server registers named functions in a [`Registry`]; a client invokes
//! them over a persistent byte stream.  The wire protocol frames every
//! variable-length field with a 4-byte big-endian length prefix: a call
//! carries the function name, then each serialized argument, then a zero
//! terminator; a response carries either a zero length (a void result) or
//! the serialized result value.
//!
//! This crate holds the verified core: the framing codec, the registry,
//! and the per-connection dispatch state machine.  Transport (sockets,
//! threads) is left to the embedding program, which drives [`Session`]
//! with the bytes it reads and writes out the bytes the session hands
//! back.

mod codec;
mod endian;
mod error;
mod json;
mod registry;
mod session;
mod wire;

pub use codec::call_fits;
pub use codec::decode_response_header;
pub use codec::decode_response_payload;
pub use codec::encode_call;
pub use codec::encode_response;
pub use codec::payloads_of;
pub use codec::ResponseHeader;
pub use endian::be_bytes_of;
pub use endian::be_value_of;
pub use endian::lemma_be_round_trip;
pub use endian::u32_from_be;
pub use endian::u32_to_be;
pub use error::Error;
pub use json::json_bytes_of;
pub use json::json_value_of;
pub use registry::Registry;
pub use session::Action;
pub use session::Session;
pub use wire::arg_frame;
pub use wire::arg_frames;
pub use wire::args_frames;
pub use wire::call_frame;
pub use wire::lemma_args_round_trip;
pub use wire::lemma_call_frame_round_trip;
pub use wire::lemma_call_round_trip;
pub use wire::lemma_calls_in_order;
pub use wire::lemma_response_round_trip;
pub use wire::lemma_responses_in_order;
pub use wire::lemma_void_response;
pub use wire::parse_args;
pub use wire::parse_call;
pub use wire::parse_len;
pub use wire::parse_response;
pub use wire::response_frame;
