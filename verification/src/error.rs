use vstd::prelude::*;

verus! {

/// The two failure kinds of the protocol.
///
/// `ConnectionError` covers transport-level failures: a connect, read or
/// write that fails, or a peer that closes mid-message.  `DecodeError`
/// covers malformed data: a frame that ends early, a function name that is
/// not valid UTF-8, a serialized payload that does not parse, or a value
/// whose serialized form cannot be represented in a 32-bit length field.
#[derive(Debug, Clone, Copy, PartialEq, Eq, Structural)]
pub enum Error {
    ConnectionError,
    DecodeError,
}

} // verus!
