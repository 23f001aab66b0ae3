//! Sequencing the four-step exchange with the device.
//!
//! The orchestrator walks `Idle → Connected → Authenticated → Committed →
//! Terminated`, with an absorbing `Failed` state reachable from every
//! non-terminal state.  It builds each request, and judges each raw
//! response that the caller's transport hands back: parsing, digest
//! recomputation, signature verification and commitment decoding all
//! happen here.  The transport itself — sending a frame, receiving bytes —
//! is the caller's collaborator and never appears in this module.

use vstd::prelude::*;

use crate::codec::Command;
use crate::codec::Operation;
use crate::codec::ParsedResponse;
use crate::codec::RequestParams;
use crate::codec::build_command;
use crate::codec::get_info_name_bytes;
use crate::codec::get_info_package_bytes;
use crate::codec::get_info_parses;
use crate::codec::get_info_well_formed;
use crate::codec::parse_response;
use crate::commitment::CommitmentDecoder;
use crate::commitment::PedersenCommitment;
use crate::commitment::commitment_decodes;
use crate::errors::ProtocolError;
use crate::hashing::DomainSeparatedConsensusHasher;
use crate::hashing::DomainTag;
use crate::hashing::Encodable;
use crate::hashing::blake256_of;
use crate::hashing::domain_prefix;
use crate::hashing::encode_variable;
use crate::schnorr::SchnorrSignature;
use crate::schnorr::SchnorrVerifier;
use crate::schnorr::point_decodes;
use crate::schnorr::random_challenge;
use crate::schnorr::schnorr_holds;
use vstd::slice::slice_to_vec;
use vstd::utf8::decode_utf8;

verus! {

/// The bytes hashed for the authentication step: the domain prefix for
/// the tag and label, the length-prefixed public key and nonce, and the
/// raw 32-byte challenge.
pub open spec fn auth_preimage(
    domain: Seq<u8>,
    version: u8,
    label: Seq<u8>,
    pk: Seq<u8>,
    nonce: Seq<u8>,
    challenge: Seq<u8>,
) -> Seq<u8> {
    domain_prefix(domain, version, label) + encode_variable(pk) + encode_variable(nonce) + challenge
}

/// The digest the device's signature is checked against.
pub open spec fn auth_digest(
    domain: Seq<u8>,
    version: u8,
    label: Seq<u8>,
    pk: Seq<u8>,
    nonce: Seq<u8>,
    challenge: Seq<u8>,
) -> Seq<u8> {
    blake256_of(auth_preimage(domain, version, label, pk, nonce, challenge))
}

/// The authentication hash input is unambiguous: under one domain,
/// version and label, equal hash inputs come only from equal public keys,
/// nonces and challenges, each field 32 bytes wide.  Flipping any byte of
/// any of the three therefore changes the bytes that are hashed.
pub proof fn lemma_auth_preimage_injective(
    domain: Seq<u8>,
    version: u8,
    label: Seq<u8>,
    pk1: Seq<u8>,
    nonce1: Seq<u8>,
    challenge1: Seq<u8>,
    pk2: Seq<u8>,
    nonce2: Seq<u8>,
    challenge2: Seq<u8>,
)
    requires
        pk1.len() == 32,
        nonce1.len() == 32,
        challenge1.len() == 32,
        pk2.len() == 32,
        nonce2.len() == 32,
        challenge2.len() == 32,
        auth_preimage(domain, version, label, pk1, nonce1, challenge1) == auth_preimage(
            domain,
            version,
            label,
            pk2,
            nonce2,
            challenge2,
        ),
    ensures
        pk1 == pk2,
        nonce1 == nonce2,
        challenge1 == challenge2,
{
    let p = domain_prefix(domain, version, label);
    let pre1 = auth_preimage(domain, version, label, pk1, nonce1, challenge1);
    let pre2 = auth_preimage(domain, version, label, pk2, nonce2, challenge2);
    vstd::bytes::lemma_auto_spec_u32_to_from_le_bytes();
    assert(encode_variable(pk1).len() == 36);
    assert(encode_variable(pk2).len() == 36);
    assert(encode_variable(nonce1).len() == 36);
    assert(encode_variable(nonce2).len() == 36);
    assert(forall|i: int| 0 <= i < 32 ==> pre1[p.len() + 4 + i] == pk1[i]);
    assert(forall|i: int| 0 <= i < 32 ==> pre2[p.len() + 4 + i] == pk2[i]);
    assert(pk1 =~= pk2);
    assert(forall|i: int| 0 <= i < 32 ==> pre1[p.len() + 40 + i] == nonce1[i]);
    assert(forall|i: int| 0 <= i < 32 ==> pre2[p.len() + 40 + i] == nonce2[i]);
    assert(nonce1 =~= nonce2);
    assert(forall|i: int| 0 <= i < 32 ==> pre1[p.len() + 72 + i] == challenge1[i]);
    assert(forall|i: int| 0 <= i < 32 ==> pre2[p.len() + 72 + i] == challenge2[i]);
    assert(challenge1 =~= challenge2);
}

/// The session's states.
#[derive(Clone, Copy, Debug, PartialEq, Eq, Structural)]
pub enum SessionState {
    Idle,
    Connected,
    Authenticated,
    Committed,
    Terminated,
    /// Absorbing failure, carrying the originating error kind.
    Failed(ProtocolError),
}

/// One protocol run over an exclusively-owned transport.
pub struct ProtocolOrchestrator {
    state: SessionState,
    tag: DomainTag,
    label: Vec<u8>,
    device_name: Option<String>,
    device_package: Option<String>,
    challenge: Option<Vec<u8>>,
    commitment: Option<PedersenCommitment>,
}

impl ProtocolOrchestrator {
    /// The current state.
    pub closed spec fn spec_state(self) -> SessionState {
        self.state
    }

    /// The domain tag's application identifier.
    pub closed spec fn spec_domain(self) -> Seq<u8> {
        self.tag.application_identifier@
    }

    /// The domain tag's version.
    pub closed spec fn spec_version(self) -> u8 {
        self.tag.version
    }

    /// The label mixed into the authentication digest.
    pub closed spec fn spec_label(self) -> Seq<u8> {
        self.label@
    }

    /// The challenge of the current run, once one was drawn.
    pub closed spec fn spec_challenge(self) -> Option<Seq<u8>> {
        match self.challenge {
            Some(c) => Some(c@),
            None => None,
        }
    }

    /// The device name extracted on connecting.
    pub closed spec fn spec_device_name(self) -> Option<Seq<char>> {
        match self.device_name {
            Some(n) => Some(n@),
            None => None,
        }
    }

    /// The device package version extracted on connecting.
    pub closed spec fn spec_device_package(self) -> Option<Seq<char>> {
        match self.device_package {
            Some(p) => Some(p@),
            None => None,
        }
    }

    /// The decoded commitment, once one was accepted.
    pub closed spec fn spec_commitment(self) -> Option<Seq<u8>> {
        match self.commitment {
            Some(c) => Some(c@),
            None => None,
        }
    }

    /// A drawn challenge is always 32 bytes, and an accepted commitment a
    /// well-formed point.
    pub open spec fn wf(self) -> bool {
        &&& (self.spec_challenge() matches Some(c) ==> c.len() == 32)
        &&& (self.spec_commitment() matches Some(c) ==> c.len() == 32)
    }

    /// The session's configuration is untouched: tag, label and any drawn
    /// challenge are those of `pre`.
    pub open spec fn config_unchanged(self, pre: Self) -> bool {
        &&& self.spec_domain() == pre.spec_domain()
        &&& self.spec_version() == pre.spec_version()
        &&& self.spec_label() == pre.spec_label()
        &&& self.spec_challenge() == pre.spec_challenge()
    }

    /// A fresh run in `Idle`, over the given domain tag and label, with
    /// nothing drawn, extracted or decoded yet.
    pub fn new(tag: DomainTag, label: Vec<u8>) -> (o: Self)
        ensures
            o.wf(),
            o.spec_state() == SessionState::Idle,
            o.spec_domain() == tag.application_identifier@,
            o.spec_version() == tag.version,
            o.spec_label() == label@,
            o.spec_challenge() is None,
            o.spec_device_name() is None,
            o.spec_device_package() is None,
            o.spec_commitment() is None,
    {
        ProtocolOrchestrator {
            state: SessionState::Idle,
            tag,
            label,
            device_name: None,
            device_package: None,
            challenge: None,
            commitment: None,
        }
    }

    /// The `GetInfo` frame that opens the exchange.
    pub fn connect_request(&self) -> (c: Command)
        requires
            self.spec_state() == SessionState::Idle,
        ensures
            c.cla == 0x80,
            c.ins == 0x01,
            c.p1 == 0 && c.p2 == 0,
            c.data@ == Seq::<u8>::empty(),
    {
        match build_command(Operation::GetInfo, &RequestParams::Empty) {
            Ok(c) => c,
            Err(_) => {
                proof {
                    assert(false);
                }
                Command { cla: 0, ins: 0, p1: 0, p2: 0, data: Vec::new() }
            },
        }
    }

    /// Judges the `GetInfo` response: on a parsable response the run is
    /// `Connected` and the device's name and package strings are
    /// extracted; a malformed layout or invalid text fails the run with
    /// the parse error.
    pub fn on_connect_response(&mut self, raw: &[u8]) -> (r: Result<(), ProtocolError>)
        requires
            old(self).wf(),
            old(self).spec_state() == SessionState::Idle,
        ensures
            final(self).wf(),
            final(self).config_unchanged(*old(self)),
            r is Ok <==> get_info_parses(raw@),
            r is Ok ==> {
                &&& final(self).spec_state() == SessionState::Connected
                &&& final(self).spec_device_name() == Some(decode_utf8(get_info_name_bytes(raw@)))
                &&& final(self).spec_device_package() == Some(
                    decode_utf8(get_info_package_bytes(raw@)),
                )
            },
            !get_info_well_formed(raw@) ==> r == Err::<(), ProtocolError>(
                ProtocolError::MalformedResponse,
            ) && final(self).spec_state() == SessionState::Failed(ProtocolError::MalformedResponse),
            get_info_well_formed(raw@) && !get_info_parses(raw@) ==> r == Err::<(), ProtocolError>(
                ProtocolError::InvalidEncoding,
            ) && final(self).spec_state() == SessionState::Failed(ProtocolError::InvalidEncoding),
    {
        match parse_response(Operation::GetInfo, raw) {
            Ok(ParsedResponse::Info { name, package }) => {
                self.device_name = Some(name);
                self.device_package = Some(package);
                self.state = SessionState::Connected;
                Ok(())
            },
            Ok(_) => {
                proof {
                    assert(false);
                }
                Err(ProtocolError::MalformedResponse)
            },
            Err(e) => {
                self.state = SessionState::Failed(e);
                Err(e)
            },
        }
    }

    /// The `Authenticate` frame carrying a caller-supplied 32-byte
    /// challenge, which the run remembers for the verification step.
    pub fn authenticate_request_with_challenge(&mut self, challenge: Vec<u8>) -> (c: Command)
        requires
            old(self).wf(),
            old(self).spec_state() == SessionState::Connected,
            challenge@.len() == 32,
        ensures
            final(self).wf(),
            final(self).spec_state() == SessionState::Connected,
            final(self).spec_domain() == old(self).spec_domain(),
            final(self).spec_version() == old(self).spec_version(),
            final(self).spec_label() == old(self).spec_label(),
            final(self).spec_challenge() == Some(challenge@),
            c.cla == 0x80,
            c.ins == 0x02,
            c.p1 == 0 && c.p2 == 0,
            c.data@ == challenge@,
    {
        let payload = slice_to_vec(challenge.as_slice());
        self.challenge = Some(challenge);
        match build_command(Operation::Authenticate, &RequestParams::Challenge(payload)) {
            Ok(c) => c,
            Err(_) => {
                proof {
                    assert(false);
                }
                Command { cla: 0, ins: 0, p1: 0, p2: 0, data: Vec::new() }
            },
        }
    }

    /// The `Authenticate` frame over a challenge drawn fresh from the
    /// operating system's randomness.
    pub fn authenticate_request(&mut self) -> (c: Command)
        requires
            old(self).wf(),
            old(self).spec_state() == SessionState::Connected,
        ensures
            final(self).wf(),
            final(self).spec_state() == SessionState::Connected,
            final(self).spec_domain() == old(self).spec_domain(),
            final(self).spec_version() == old(self).spec_version(),
            final(self).spec_label() == old(self).spec_label(),
            final(self).spec_challenge() matches Some(ch) && ch.len() == 32 && c.data@ == ch,
            c.cla == 0x80,
            c.ins == 0x02,
            c.p1 == 0 && c.p2 == 0,
    {
        let challenge = random_challenge();
        self.authenticate_request_with_challenge(challenge)
    }

    /// Judges the `Authenticate` response: the three fields are parsed,
    /// the expected digest is recomputed over `(public key, nonce,
    /// challenge)` under the run's tag and label, and the signature is
    /// checked against it.  The run is `Authenticated` exactly when the
    /// response is long enough, both points decode, and the Schnorr
    /// relation holds over the recomputed digest; otherwise it fails with
    /// the originating error kind.
    pub fn on_authenticate_response(&mut self, raw: &[u8]) -> (r: Result<(), ProtocolError>)
        requires
            old(self).wf(),
            old(self).spec_state() == SessionState::Connected,
            old(self).spec_challenge() is Some,
        ensures
            final(self).wf(),
            final(self).config_unchanged(*old(self)),
            raw@.len() < 97 ==> r == Err::<(), ProtocolError>(ProtocolError::MalformedResponse)
                && final(self).spec_state() == SessionState::Failed(
                ProtocolError::MalformedResponse,
            ),
            raw@.len() >= 97 ==> {
                let pk = raw@.subrange(1, 33);
                let s = raw@.subrange(33, 65);
                let nonce = raw@.subrange(65, 97);
                let d = auth_digest(
                    old(self).spec_domain(),
                    old(self).spec_version(),
                    old(self).spec_label(),
                    pk,
                    nonce,
                    old(self).spec_challenge().unwrap(),
                );
                &&& !(point_decodes(pk) && point_decodes(nonce)) ==> r == Err::<(), ProtocolError>(
                    ProtocolError::InvalidEncoding,
                ) && final(self).spec_state() == SessionState::Failed(ProtocolError::InvalidEncoding)
                &&& point_decodes(pk) && point_decodes(nonce) && schnorr_holds(pk, d, nonce, s)
                    ==> r is Ok && final(self).spec_state() == SessionState::Authenticated
                &&& point_decodes(pk) && point_decodes(nonce) && !schnorr_holds(pk, d, nonce, s)
                    ==> r == Err::<(), ProtocolError>(ProtocolError::VerificationFailed)
                    && final(self).spec_state() == SessionState::Failed(
                    ProtocolError::VerificationFailed,
                )
            },
    {
        match parse_response(Operation::Authenticate, raw) {
            Ok(ParsedResponse::Auth { public_key, signature_scalar, nonce }) => {
                let pk_copy = Encodable::Variable(slice_to_vec(public_key.as_slice()));
                let nonce_copy = Encodable::Variable(slice_to_vec(nonce.as_slice()));
                let challenge_copy = Encodable::Fixed(
                    slice_to_vec(self.challenge.as_ref().unwrap().as_slice()),
                );
                let mut hasher = DomainSeparatedConsensusHasher::new(
                    &self.tag,
                    self.label.as_slice(),
                );
                hasher.update_consensus_encode(&pk_copy);
                hasher.update_consensus_encode(&nonce_copy);
                hasher.update_consensus_encode(&challenge_copy);
                let digest = hasher.finalize();
                let signature = SchnorrSignature { nonce, scalar: signature_scalar };
                match SchnorrVerifier::verify(public_key.as_slice(), digest.as_slice(), &signature)
                {
                    Ok(true) => {
                        self.state = SessionState::Authenticated;
                        Ok(())
                    },
                    Ok(false) => {
                        self.state = SessionState::Failed(ProtocolError::VerificationFailed);
                        Err(ProtocolError::VerificationFailed)
                    },
                    Err(e) => {
                        self.state = SessionState::Failed(e);
                        Err(e)
                    },
                }
            },
            Ok(_) => {
                proof {
                    assert(false);
                }
                Err(ProtocolError::MalformedResponse)
            },
            Err(e) => {
                self.state = SessionState::Failed(e);
                Err(e)
            },
        }
    }

    /// The `Commit` frame carrying the caller's value as 8 little-endian
    /// bytes.
    pub fn commit_request(&self, value: u64) -> (c: Command)
        requires
            self.spec_state() == SessionState::Authenticated,
        ensures
            c.cla == 0x80,
            c.ins == 0x03,
            c.p1 == 0 && c.p2 == 0,
            c.data@ == vstd::bytes::spec_u64_to_le_bytes(value),
    {
        match build_command(Operation::Commit, &RequestParams::Value(value)) {
            Ok(c) => c,
            Err(_) => {
                proof {
                    assert(false);
                }
                Command { cla: 0, ins: 0, p1: 0, p2: 0, data: Vec::new() }
            },
        }
    }

    /// Judges the `Commit` response: the run is `Committed`, holding the
    /// decoded commitment, exactly when the response is long enough and
    /// its 32-byte point field is a canonical encoding; otherwise it fails
    /// with the originating error kind.
    pub fn on_commit_response(&mut self, raw: &[u8]) -> (r: Result<(), ProtocolError>)
        requires
            old(self).wf(),
            old(self).spec_state() == SessionState::Authenticated,
        ensures
            final(self).wf(),
            final(self).config_unchanged(*old(self)),
            r is Ok <==> raw@.len() >= 33 && commitment_decodes(raw@.subrange(1, 33)),
            r is Ok ==> final(self).spec_state() == SessionState::Committed
                && final(self).spec_commitment() == Some(raw@.subrange(1, 33)),
            raw@.len() < 33 ==> r == Err::<(), ProtocolError>(ProtocolError::MalformedResponse)
                && final(self).spec_state() == SessionState::Failed(
                ProtocolError::MalformedResponse,
            ),
            raw@.len() >= 33 && !commitment_decodes(raw@.subrange(1, 33)) ==> r == Err::<
                (),
                ProtocolError,
            >(ProtocolError::InvalidEncoding) && final(self).spec_state() == SessionState::Failed(
                ProtocolError::InvalidEncoding,
            ),
    {
        match parse_response(Operation::Commit, raw) {
            Ok(ParsedResponse::Commit { point }) => {
                match CommitmentDecoder::decode(point.as_slice()) {
                    Ok(c) => {
                        self.commitment = Some(c);
                        self.state = SessionState::Committed;
                        Ok(())
                    },
                    Err(e) => {
                        self.state = SessionState::Failed(e);
                        Err(e)
                    },
                }
            },
            Ok(_) => {
                proof {
                    assert(false);
                }
                Err(ProtocolError::MalformedResponse)
            },
            Err(e) => {
                self.state = SessionState::Failed(e);
                Err(e)
            },
        }
    }

    /// The `Terminate` frame of the best-effort teardown.
    pub fn terminate_request(&self) -> (c: Command)
        requires
            self.spec_state() == SessionState::Committed,
        ensures
            c.cla == 0x80,
            c.ins == 0x04,
            c.p1 == 0 && c.p2 == 0,
            c.data@ == seq![0u8],
    {
        match build_command(Operation::Terminate, &RequestParams::Empty) {
            Ok(c) => c,
            Err(_) => {
                proof {
                    assert(false);
                }
                Command { cla: 0, ins: 0, p1: 0, p2: 0, data: Vec::new() }
            },
        }
    }

    /// Ends the run: the reply's content is device-defined and the run is
    /// `Terminated` whatever it held.
    pub fn on_terminate_response(&mut self, _raw: &[u8])
        requires
            old(self).wf(),
            old(self).spec_state() == SessionState::Committed,
        ensures
            final(self).wf(),
            final(self).config_unchanged(*old(self)),
            final(self).spec_state() == SessionState::Terminated,
    {
        self.state = SessionState::Terminated;
    }

    /// Records a transport failure: from any non-terminal state the run
    /// fails with `DeviceCommunication`, and is not resumed.
    pub fn on_transport_error(&mut self)
        requires
            old(self).wf(),
            !(old(self).spec_state() is Terminated),
            !(old(self).spec_state() is Failed),
        ensures
            final(self).wf(),
            final(self).config_unchanged(*old(self)),
            final(self).spec_state() == SessionState::Failed(ProtocolError::DeviceCommunication),
    {
        self.state = SessionState::Failed(ProtocolError::DeviceCommunication);
    }

    /// The current state.
    pub fn state(&self) -> (s: SessionState)
        ensures
            s == self.spec_state(),
    {
        self.state
    }

    /// The device name extracted on connecting, if any.
    pub fn device_name(&self) -> (r: &Option<String>)
        ensures
            r matches Some(n) <==> self.spec_device_name() matches Some(v),
            r matches Some(n) ==> self.spec_device_name() == Some(n@),
    {
        &self.device_name
    }

    /// The device package version extracted on connecting, if any.
    pub fn device_package(&self) -> (r: &Option<String>)
        ensures
            r matches Some(p) <==> self.spec_device_package() matches Some(v),
            r matches Some(p) ==> self.spec_device_package() == Some(p@),
    {
        &self.device_package
    }

    /// The accepted commitment, if any.
    pub fn commitment(&self) -> (r: &Option<PedersenCommitment>)
        ensures
            r matches Some(c) <==> self.spec_commitment() matches Some(v),
            r matches Some(c) ==> self.spec_commitment() == Some(c@),
    {
        &self.commitment
    }
}

} // verus!
