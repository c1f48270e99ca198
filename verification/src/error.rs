//! The error type of the stack.
use crate::dialog::DialogId;
use crate::message::SipAddr;
use crate::transaction::key::TransactionKey;
use vstd::prelude::*;

verus! {

/// What went wrong, by layer. Errors that come from another crate keep that
/// crate's message.
#[derive(Debug, Clone)]
pub enum Error {
    /// A SIP message or header could not be read; the message is `rsip`'s.
    SipMessageError(String),
    DnsResolutionError(String),
    TransportLayerError(String, SipAddr),
    TransactionError(String, TransactionKey),
    EndpointError(String),
    /// A dialog-level error, with the dialog and the status code it
    /// concerns, when there is one.
    DialogError(String, DialogId, Option<u16>),
    IoError(String),
    AddrParseError(String),
    WebSocketError(String),
    Error(String),
}

} // verus!
