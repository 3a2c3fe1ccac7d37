use vstd::prelude::*;

use crate::codec::encode_response;
use crate::endian::be_value_of;
use crate::error::Error;
use crate::json::from_json_bytes;
use crate::json::json_bytes_of;
use crate::json::json_value_of;
use crate::json::utf8_check;
use crate::registry::Registry;
use crate::wire::response_frame;
use vstd::utf8::valid_utf8;

verus! {

/// The per-connection state machine of the dispatch server.
///
/// The embedding program owns the transport.  It reads exactly
/// [`Session::needed`] bytes, hands them to [`Session::step`], performs the
/// action it gets back, and repeats.  All decisions — how the frames are
/// cut, when a message is complete, whether the name is well-formed and
/// registered, what closes the connection — are made here.
///
/// One call is processed at a time: only after [`Session::respond`] has
/// produced the response bytes does the machine return to awaiting the
/// next call, so on one connection every response precedes the reading of
/// the next call.
///
/// End of stream is the embedding program's to observe: at a message
/// boundary ([`Session::at_boundary`]) it is the peer ending the
/// connection, which is normal termination; anywhere else the message is
/// cut short, a `ConnectionError`.
pub enum Session {
    /// Awaiting the 4-byte length of a function name.
    AwaitNameLen,
    /// Awaiting the name itself.
    AwaitName { len: u32 },
    /// Awaiting a 4-byte argument length, or the zero terminator.
    AwaitArgLen { name: Vec<u8>, args: Vec<serde_json::Value> },
    /// Awaiting one serialized argument.
    AwaitArg { name: Vec<u8>, args: Vec<serde_json::Value>, len: u32 },
    /// A call was dispatched; awaiting its result via [`Session::respond`].
    Responding,
    /// Terminal: the connection is to be released.
    Closed,
}

/// What the embedding program must do after a [`Session::step`].
pub enum Action {
    /// Keep going: read the next [`Session::needed`] bytes.
    Continue,
    /// A complete call arrived and its name was registered when checked:
    /// invoke the handler bound to `name` with `args`, then hand the
    /// result to [`Session::respond`].
    Invoke { name: Vec<u8>, args: Vec<serde_json::Value> },
    /// The peer asked for a function that is not registered: drop the
    /// connection, sending nothing — the protocol has no error frame.
    CloseClean,
    /// The message was malformed — a name that is not UTF-8, or an
    /// argument that does not parse: report `DecodeError` to the operator
    /// and drop the connection, sending nothing.
    CloseError,
}

impl Session {
    /// The states in which the machine is waiting for bytes.
    pub open spec fn awaiting(self) -> bool {
        match self {
            Session::AwaitNameLen => true,
            Session::AwaitName { .. } => true,
            Session::AwaitArgLen { .. } => true,
            Session::AwaitArg { .. } => true,
            Session::Responding => false,
            Session::Closed => false,
        }
    }

    /// How many bytes the machine is waiting for.
    pub open spec fn spec_needed(self) -> int {
        match self {
            Session::AwaitNameLen => 4,
            Session::AwaitName { len } => len as int,
            Session::AwaitArgLen { .. } => 4,
            Session::AwaitArg { len, .. } => len as int,
            Session::Responding => 0,
            Session::Closed => 0,
        }
    }

    /// A fresh connection: awaiting the first call.
    pub fn new() -> (r: Session)
        ensures
            r == Session::AwaitNameLen,
    {
        Session::AwaitNameLen
    }

    /// How many bytes to read next.
    pub fn needed(&self) -> (r: usize)
        requires
            self.awaiting(),
        ensures
            r == self.spec_needed(),
    {
        match self {
            Session::AwaitNameLen => 4,
            Session::AwaitName { len } => *len as usize,
            Session::AwaitArgLen { .. } => 4,
            Session::AwaitArg { len, .. } => *len as usize,
            Session::Responding => 0,
            Session::Closed => 0,
        }
    }

    /// Whether the machine stands between messages, where the peer ending
    /// the stream is normal termination rather than a cut-off message.
    pub fn at_boundary(&self) -> (r: bool)
        ensures
            r == (*self matches Session::AwaitNameLen),
    {
        match self {
            Session::AwaitNameLen => true,
            _ => false,
        }
    }

    /// Consumes the bytes just read and moves the machine forward.
    ///
    /// The registry is consulted once, when the name arrives, exactly as
    /// the message is read off the stream: a malformed name closes with an
    /// error before the registry is asked; an unregistered name closes
    /// silently before any argument is read; otherwise the arguments are
    /// read and parsed one by one, and the zero terminator yields
    /// [`Action::Invoke`] with the handler's name and the parsed
    /// arguments.
    pub fn step<H>(self, registry: &Registry<H>, bytes: Vec<u8>) -> (r: (Session, Action))
        requires
            self.awaiting(),
            registry.wf(),
            bytes@.len() == self.spec_needed(),
        ensures
            match self {
                Session::AwaitNameLen => r.1 == Action::Continue && (r.0 matches Session::AwaitName
                    { len } && len == be_value_of(bytes@)),
                Session::AwaitName { len } => if !valid_utf8(bytes@) {
                    r.0 == Session::Closed && r.1 == Action::CloseError
                } else if !registry.spec_contains(bytes@) {
                    r.0 == Session::Closed && r.1 == Action::CloseClean
                } else {
                    r.1 == Action::Continue && (r.0 matches Session::AwaitArgLen { name, args }
                        && name@ == bytes@ && args@ == Seq::<serde_json::Value>::empty())
                },
                Session::AwaitArgLen { name, args } => if be_value_of(bytes@) == 0 {
                    r.0 == Session::Responding && (r.1 matches Action::Invoke { name: n2, args: a2 }
                        && n2@ == name@ && a2@ == args@)
                } else {
                    r.1 == Action::Continue && (r.0 matches Session::AwaitArg {
                        name: n2,
                        args: a2,
                        len,
                    } && n2@ == name@ && a2@ == args@ && len == be_value_of(bytes@))
                },
                Session::AwaitArg { name, args, len } => match json_value_of(bytes@) {
                    Option::Some(v) => r.1 == Action::Continue && (r.0
                        matches Session::AwaitArgLen { name: n2, args: a2 } && n2@ == name@ && a2@
                        == args@.push(v)),
                    Option::None => r.0 == Session::Closed && r.1 == Action::CloseError,
                },
                Session::Responding => false,
                Session::Closed => false,
            },
    {
        match self {
            Session::AwaitNameLen => {
                let n = crate::endian::u32_from_be(&bytes);
                (Session::AwaitName { len: n }, Action::Continue)
            },
            Session::AwaitName { len: _ } => {
                if !utf8_check(&bytes) {
                    (Session::Closed, Action::CloseError)
                } else if !registry.contains_key(&bytes) {
                    (Session::Closed, Action::CloseClean)
                } else {
                    (Session::AwaitArgLen { name: bytes, args: Vec::new() }, Action::Continue)
                }
            },
            Session::AwaitArgLen { name, args } => {
                let n = crate::endian::u32_from_be(&bytes);
                if n == 0 {
                    (Session::Responding, Action::Invoke { name, args })
                } else {
                    (Session::AwaitArg { name, args, len: n }, Action::Continue)
                }
            },
            Session::AwaitArg { name, mut args, len: _ } => {
                match from_json_bytes(&bytes) {
                    Some(v) => {
                        args.push(v);
                        (Session::AwaitArgLen { name, args }, Action::Continue)
                    },
                    None => (Session::Closed, Action::CloseError),
                }
            },
            Session::Responding => (Session::Closed, Action::CloseError),
            Session::Closed => (Session::Closed, Action::CloseError),
        }
    }

    /// Encodes the handler's result and returns to awaiting the next
    /// call.  A result whose serialized form does not fit in a length
    /// field is unrepresentable: the connection closes with `DecodeError`.
    pub fn respond(self, result: &Option<serde_json::Value>) -> (r: (
        Session,
        Result<Vec<u8>, Error>,
    ))
        requires
            self == Session::Responding,
        ensures
            (*result) is None ==> r.0 == Session::AwaitNameLen && (r.1 matches Ok(b) && b@
                == response_frame(None)),
            (*result) matches Some(v) ==> (if json_bytes_of(v).len() <= u32::MAX {
                r.0 == Session::AwaitNameLen && (r.1 matches Ok(b) && b@ == response_frame(
                    Some(json_bytes_of(v)),
                ))
            } else {
                r.0 == Session::Closed && r.1 == Err::<Vec<u8>, Error>(Error::DecodeError)
            }),
    {
        match encode_response(result) {
            Ok(b) => (Session::AwaitNameLen, Ok(b)),
            Err(e) => (Session::Closed, Err(e)),
        }
    }
}

} // verus!
