//! Error taxonomy of the client core.
//!
//! Validation failures never reach transport; decode failures carry the
//! raw offending token; HTTP failures carry the status; transport
//! failures mean no response arrived at all.

use vstd::prelude::*;
use crate::validate::ValidationError;

verus! {

/// A response that does not match the documented wire shape, or holds
/// an unrecognized enumerated value. `raw` is the offending token or
/// the name of the offending field.
#[derive(Clone, Debug, PartialEq)]
pub struct DecodeError {
    pub raw: String,
}

impl View for DecodeError {
    type V = Seq<char>;

    open spec fn view(&self) -> Seq<char> {
        self.raw@
    }
}

/// What a transport operation can fail with.
#[derive(Clone, Debug, PartialEq)]
pub enum ClientError {
    /// The service answered with a status outside `2xx`.
    Http(u16),
    /// No response arrived: connection, resolution or timeout failure.
    Transport,
    /// The response arrived but could not be decoded.
    Decode(DecodeError),
    /// A successful response without a `data` field.
    EmptyResult,
}

/// Mathematical view of a `ClientError`.
pub ghost enum ClientErrV {
    Http(u16),
    Transport,
    Decode(Seq<char>),
    EmptyResult,
}

impl View for ClientError {
    type V = ClientErrV;

    open spec fn view(&self) -> ClientErrV {
        match self {
            ClientError::Http(status) => ClientErrV::Http(*status),
            ClientError::Transport => ClientErrV::Transport,
            ClientError::Decode(e) => ClientErrV::Decode(e@),
            ClientError::EmptyResult => ClientErrV::EmptyResult,
        }
    }
}

/// What the command facade can fail with. The caller needs no
/// knowledge of HTTP statuses or JSON shapes beyond this taxonomy.
#[derive(Clone, Debug, PartialEq)]
pub enum CommandError {
    /// The supplied intensity or duration is out of range; nothing was
    /// sent.
    Invalid(ValidationError),
    /// No response arrived from the service.
    Unreachable,
    /// The service refused the command with this status.
    Rejected(u16),
    /// The service's response could not be decoded.
    MalformedResponse,
}

/// Acknowledgment that the service accepted a control request.
#[derive(Clone, Copy, Debug, PartialEq, Eq, Structural)]
pub struct Ack;

/// How transport errors appear to the facade's caller.
pub open spec fn spec_command_error_of(e: ClientError) -> CommandError {
    match e {
        ClientError::Http(status) => CommandError::Rejected(status),
        ClientError::Transport => CommandError::Unreachable,
        ClientError::Decode(_) => CommandError::MalformedResponse,
        ClientError::EmptyResult => CommandError::MalformedResponse,
    }
}

/// Map a transport failure into the facade's taxonomy.
pub fn command_error_of(e: ClientError) -> (r: CommandError)
    ensures
        r == spec_command_error_of(e),
{
    match e {
        ClientError::Http(status) => CommandError::Rejected(status),
        ClientError::Transport => CommandError::Unreachable,
        ClientError::Decode(_) => CommandError::MalformedResponse,
        ClientError::EmptyResult => CommandError::MalformedResponse,
    }
}

} // verus!
