//! Decoding and validating a Pedersen commitment point.
//!
//! A commitment arrives as 32 raw bytes.  Decoding checks the exact width
//! and the canonical point encoding and nothing more: opening the
//! commitment against a blinding factor is out of scope.

use vstd::prelude::*;

use tari_crypto::tari_utilities::ByteArray;
use vstd::slice::slice_to_vec;

use crate::errors::ProtocolError;

verus! {

/// Whether 32 bytes are the canonical encoding of a ristretto255 point,
/// as `PedersenCommitment::from_bytes` decides it.
pub uninterp spec fn commitment_decodes(b: Seq<u8>) -> bool;

/// Relies on `tari_crypto`'s `PedersenCommitment::from_bytes`: on 32 bytes
/// it succeeds exactly when they are a canonical point encoding, a
/// function of the bytes alone.
#[verifier::external_body]
fn pedersen_point_valid(b: &[u8]) -> (r: bool)
    requires
        b@.len() == 32,
    ensures
        r == commitment_decodes(b@),
{
    tari_crypto::ristretto::pedersen::PedersenCommitment::from_bytes(b).is_ok()
}

/// A validated commitment point, held as its canonical 32-byte encoding.
#[derive(Debug)]
pub struct PedersenCommitment {
    bytes: Vec<u8>,
}

impl View for PedersenCommitment {
    type V = Seq<u8>;

    closed spec fn view(&self) -> Seq<u8> {
        self.bytes@
    }
}

impl PedersenCommitment {
    /// A commitment is exactly 32 bytes that decode as a canonical point.
    pub open spec fn well_formed(self) -> bool {
        self@.len() == 32 && commitment_decodes(self@)
    }

    /// The canonical encoding this commitment was decoded from.
    pub fn as_bytes(&self) -> (r: &[u8])
        ensures
            r@ == self@,
    {
        self.bytes.as_slice()
    }
}

/// What decoding returns on each byte string: the bytes themselves when
/// they are a 32-byte canonical point encoding, nothing otherwise.
pub open spec fn spec_decode(b: Seq<u8>) -> Option<Seq<u8>> {
    if b.len() == 32 && commitment_decodes(b) {
        Some(b)
    } else {
        None
    }
}

/// Validates commitment points out of raw bytes.
pub struct CommitmentDecoder;

impl CommitmentDecoder {
    /// Decodes a commitment: a byte string of the wrong width is
    /// `MalformedResponse`, 32 bytes that are not a canonical point
    /// encoding are `InvalidEncoding`, and never a value; a canonical
    /// encoding yields the commitment holding exactly those bytes.
    pub fn decode(raw: &[u8]) -> (r: Result<PedersenCommitment, ProtocolError>)
        ensures
            r is Ok <==> spec_decode(raw@) is Some,
            r is Ok ==> r.unwrap()@ == spec_decode(raw@).unwrap() && r.unwrap().well_formed(),
            raw@.len() != 32 ==> r == Err::<PedersenCommitment, ProtocolError>(
                ProtocolError::MalformedResponse,
            ),
            raw@.len() == 32 && !commitment_decodes(raw@) ==> r == Err::<
                PedersenCommitment,
                ProtocolError,
            >(ProtocolError::InvalidEncoding),
    {
        if raw.len() != 32 {
            return Err(ProtocolError::MalformedResponse);
        }
        if !pedersen_point_valid(raw) {
            return Err(ProtocolError::InvalidEncoding);
        }
        Ok(PedersenCommitment { bytes: slice_to_vec(raw) })
    }
}

/// Decoding is a left inverse of a valid point's canonical encoding: a
/// commitment decoded from a canonical 32-byte encoding re-encodes to
/// exactly the bytes it was decoded from.
pub proof fn lemma_decode_left_inverse(b: Seq<u8>)
    ensures
        spec_decode(b) matches Some(c) ==> c == b,
{
}

} // verus!
