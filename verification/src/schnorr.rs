//! Schnorr signature verification over the ristretto255 curve.
//!
//! The curve arithmetic itself is an outside collaborator; this module
//! states its behaviour over the canonical 32-byte encodings of points and
//! scalars, rejects non-canonical encodings before any verification is
//! attempted, and otherwise returns exactly the truth of the verification
//! equation.

use vstd::prelude::*;

use tari_crypto::keys::SecretKey;
use tari_crypto::tari_utilities::ByteArray;

use crate::errors::ProtocolError;

verus! {

/// Whether 32 bytes are the canonical encoding of a ristretto255 point,
/// as `RistrettoPublicKey::from_bytes` decides it.
pub uninterp spec fn point_decodes(b: Seq<u8>) -> bool;

/// Whether the Schnorr relation `s·G == R + e·P` holds, over the 32-byte
/// encodings of the public key `P`, the challenge scalar `e`, the public
/// nonce `R` and the signature scalar `s` (the two scalars taken reduced
/// modulo the group order, as the curve library reads them).
pub uninterp spec fn schnorr_holds(pk: Seq<u8>, e: Seq<u8>, nonce: Seq<u8>, s: Seq<u8>) -> bool;

/// Relies on `RistrettoPublicKey::from_bytes`: on 32 bytes it succeeds
/// exactly when they are a canonical point encoding, a function of the
/// bytes alone.
#[verifier::external_body]
fn ristretto_point_valid(b: &[u8]) -> (r: bool)
    requires
        b@.len() == 32,
    ensures
        r == point_decodes(b@),
{
    tari_crypto::ristretto::RistrettoPublicKey::from_bytes(b).is_ok()
}

/// Relies on `RistrettoPublicKey::from_bytes`, `RistrettoSecretKey::
/// from_bytes` (which reduces 32 bytes modulo the group order and cannot
/// fail on them), `SchnorrSignature::new` and `SchnorrSignature::verify`:
/// the result is the truth of `s·G == R + e·P`, a function of the four
/// byte strings alone.
#[verifier::external_body]
fn schnorr_verify_raw(pk: &[u8], e: &[u8], nonce: &[u8], s: &[u8]) -> (r: bool)
    requires
        pk@.len() == 32,
        e@.len() == 32,
        nonce@.len() == 32,
        s@.len() == 32,
        point_decodes(pk@),
        point_decodes(nonce@),
    ensures
        r == schnorr_holds(pk@, e@, nonce@, s@),
{
    let pk = tari_crypto::ristretto::RistrettoPublicKey::from_bytes(pk).expect(
        "canonical point encoding",
    );
    let e = tari_crypto::ristretto::RistrettoSecretKey::from_bytes(e).expect("32 bytes");
    let nonce = tari_crypto::ristretto::RistrettoPublicKey::from_bytes(nonce).expect(
        "canonical point encoding",
    );
    let s = tari_crypto::ristretto::RistrettoSecretKey::from_bytes(s).expect("32 bytes");
    let signature = tari_crypto::ristretto::RistrettoSchnorr::new(nonce, s);
    signature.verify(&pk, &e)
}

/// Relies on `RistrettoSecretKey::random` over the operating system's
/// randomness source: a fresh secret scalar whose encoding is 32 bytes;
/// nothing else is assumed of the outcome.
#[verifier::external_body]
pub(crate) fn random_challenge() -> (r: Vec<u8>)
    ensures
        r@.len() == 32,
{
    let k = tari_crypto::ristretto::RistrettoSecretKey::random(&mut rand::rngs::OsRng);
    k.as_bytes().to_vec()
}

/// A signature as the device returns it: the 32-byte public nonce point
/// and the 32-byte signature scalar, still raw.
#[derive(Debug)]
pub struct SchnorrSignature {
    pub nonce: Vec<u8>,
    pub scalar: Vec<u8>,
}

impl SchnorrSignature {
    /// Both fields are 32 bytes wide.
    pub open spec fn sized(self) -> bool {
        self.nonce@.len() == 32 && self.scalar@.len() == 32
    }
}

/// Checks signatures against a public key and a message digest.
pub struct SchnorrVerifier;

impl SchnorrVerifier {
    /// Decides the Schnorr relation for a signature over a public key and
    /// a digest read as a challenge scalar.
    ///
    /// A field that is not 32 bytes wide is `MalformedResponse`; a public
    /// key or nonce that is not a canonical point encoding is
    /// `InvalidEncoding`, returned before any verification is attempted.
    /// Otherwise the result is exactly the truth of the verification
    /// equation — never an error in a boolean's clothing.
    pub fn verify(public_key: &[u8], digest: &[u8], signature: &SchnorrSignature) -> (r: Result<
        bool,
        ProtocolError,
    >)
        ensures
            r is Ok <==> {
                &&& public_key@.len() == 32
                &&& digest@.len() == 32
                &&& signature.sized()
                &&& point_decodes(public_key@)
                &&& point_decodes(signature.nonce@)
            },
            !(public_key@.len() == 32 && digest@.len() == 32 && signature.sized()) ==> r == Err::<
                bool,
                ProtocolError,
            >(ProtocolError::MalformedResponse),
            public_key@.len() == 32 && digest@.len() == 32 && signature.sized() && !(point_decodes(
                public_key@,
            ) && point_decodes(signature.nonce@)) ==> r == Err::<bool, ProtocolError>(
                ProtocolError::InvalidEncoding,
            ),
            r is Ok ==> r.unwrap() == schnorr_holds(
                public_key@,
                digest@,
                signature.nonce@,
                signature.scalar@,
            ),
    {
        if public_key.len() != 32 || digest.len() != 32 || signature.nonce.len() != 32
            || signature.scalar.len() != 32 {
            return Err(ProtocolError::MalformedResponse);
        }
        if !ristretto_point_valid(public_key) || !ristretto_point_valid(signature.nonce.as_slice())
        {
            return Err(ProtocolError::InvalidEncoding);
        }
        Ok(
            schnorr_verify_raw(
                public_key,
                digest,
                signature.nonce.as_slice(),
                signature.scalar.as_slice(),
            ),
        )
    }
}

} // verus!
