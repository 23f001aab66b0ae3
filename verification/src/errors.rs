//! The failure kinds that the protocol components report.

use vstd::prelude::*;

verus! {

/// Every component returns one of these instead of aborting: a transport
/// failure, a response whose declared lengths do not fit its bytes, bytes
/// that are not a canonical encoding (text or curve point), a Schnorr check
/// that came out false, or an instruction code outside the protocol.
#[derive(Clone, Copy, Debug, PartialEq, Eq, Structural)]
pub enum ProtocolError {
    DeviceCommunication,
    MalformedResponse,
    InvalidEncoding,
    VerificationFailed,
    UnsupportedOperation,
}

} // verus!
