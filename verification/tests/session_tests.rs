use ledger_auth::errors::ProtocolError;
use ledger_auth::hashing::DomainSeparatedConsensusHasher;
use ledger_auth::hashing::DomainTag;
use ledger_auth::hashing::Encodable;
use ledger_auth::orchestrator::ProtocolOrchestrator;
use ledger_auth::orchestrator::SessionState;
use tari_crypto::keys::PublicKey;
use tari_crypto::keys::SecretKey;
use tari_crypto::ristretto::RistrettoPublicKey;
use tari_crypto::ristretto::RistrettoSchnorr;
use tari_crypto::ristretto::RistrettoSecretKey;
use tari_crypto::tari_utilities::ByteArray;

fn transaction_tag() -> DomainTag {
    DomainTag {
        application_identifier: b"com.tari.base_layer.core.transactions".to_vec(),
        version: 0,
    }
}

const LABEL: &[u8] = b"script_challenge";

fn info_response() -> Vec<u8> {
    vec![0x00, 0x04, b'T', b'e', b's', b't', 0x03, b'1', b'.', b'0']
}

/// What a well-behaved device would answer to an `Authenticate` frame:
/// it derives the digest over `(public key, nonce, challenge)` with the
/// shared tag and label, and signs it.
fn synthetic_auth_response(challenge: &[u8]) -> Vec<u8> {
    let secret = RistrettoSecretKey::from_bytes(&[11u8; 32]).unwrap();
    let public = RistrettoPublicKey::from_secret_key(&secret);
    let nonce_secret = RistrettoSecretKey::from_bytes(&[12u8; 32]).unwrap();
    let public_nonce = RistrettoPublicKey::from_secret_key(&nonce_secret);

    let digest = DomainSeparatedConsensusHasher::new(&transaction_tag(), LABEL)
        .chain(&Encodable::Variable(public.as_bytes().to_vec()))
        .chain(&Encodable::Variable(public_nonce.as_bytes().to_vec()))
        .chain(&Encodable::Fixed(challenge.to_vec()))
        .finalize();
    let signature = RistrettoSchnorr::sign_raw(&secret, nonce_secret, &digest).unwrap();

    let mut raw = vec![0u8];
    raw.extend_from_slice(public.as_bytes());
    raw.extend_from_slice(signature.get_signature().as_bytes());
    raw.extend_from_slice(signature.get_public_nonce().as_bytes());
    raw
}

fn connected_session_with_challenge(challenge: &[u8]) -> ProtocolOrchestrator {
    let mut session = ProtocolOrchestrator::new(transaction_tag(), LABEL.to_vec());
    let c = session.connect_request();
    assert_eq!(c.ins, 0x01);
    session.on_connect_response(&info_response()).unwrap();
    assert_eq!(session.state(), SessionState::Connected);
    let c = session.authenticate_request_with_challenge(challenge.to_vec());
    assert_eq!(c.ins, 0x02);
    assert_eq!(c.data, challenge.to_vec());
    session
}

#[test]
fn session_reaches_authenticated_on_valid_signature() {
    let challenge = [7u8; 32];
    let mut session = connected_session_with_challenge(&challenge);
    let response = synthetic_auth_response(&challenge);
    session.on_authenticate_response(&response).unwrap();
    assert_eq!(session.state(), SessionState::Authenticated);
}

#[test]
fn session_fails_verification_on_flipped_nonce_byte() {
    let challenge = [7u8; 32];
    let good = synthetic_auth_response(&challenge);
    let mut saw_verification_failure = false;
    for mask in 1u8..=255 {
        let mut response = good.clone();
        // The nonce field starts at offset 65.
        response[65] ^= mask;
        let mut session = connected_session_with_challenge(&challenge);
        let r = session.on_authenticate_response(&response);
        // A flipped byte either breaks the point encoding or falsifies the
        // Schnorr relation; it is never accepted.
        match r {
            Err(ProtocolError::VerificationFailed) => {
                assert_eq!(session.state(),
                    SessionState::Failed(ProtocolError::VerificationFailed));
                saw_verification_failure = true;
            },
            Err(ProtocolError::InvalidEncoding) => {
                assert_eq!(session.state(), SessionState::Failed(ProtocolError::InvalidEncoding));
            },
            other => panic!("a corrupted nonce was not rejected: {:?}", other),
        }
    }
    assert!(saw_verification_failure);
}

#[test]
fn session_fails_verification_on_different_challenge() {
    // The device signs over one challenge, the session expects another.
    let mut session = connected_session_with_challenge(&[8u8; 32]);
    let response = synthetic_auth_response(&[7u8; 32]);
    let r = session.on_authenticate_response(&response);
    assert_eq!(r, Err(ProtocolError::VerificationFailed));
    assert_eq!(session.state(), SessionState::Failed(ProtocolError::VerificationFailed));
}

#[test]
fn session_fails_on_short_auth_response() {
    let challenge = [7u8; 32];
    let mut session = connected_session_with_challenge(&challenge);
    let r = session.on_authenticate_response(&[0u8; 96]);
    assert_eq!(r, Err(ProtocolError::MalformedResponse));
    assert_eq!(session.state(), SessionState::Failed(ProtocolError::MalformedResponse));
}

#[test]
fn session_extracts_device_info() {
    let mut session = ProtocolOrchestrator::new(transaction_tag(), LABEL.to_vec());
    session.on_connect_response(&info_response()).unwrap();
    assert_eq!(session.device_name().as_deref(), Some("Test"));
    assert_eq!(session.device_package().as_deref(), Some("1.0"));
}

#[test]
fn session_fails_on_malformed_info_response() {
    let mut session = ProtocolOrchestrator::new(transaction_tag(), LABEL.to_vec());
    let r = session.on_connect_response(&[0x00, 0x08, b'T']);
    assert_eq!(r, Err(ProtocolError::MalformedResponse));
    assert_eq!(session.state(), SessionState::Failed(ProtocolError::MalformedResponse));
}

#[test]
fn session_runs_to_termination() {
    let challenge = [7u8; 32];
    let mut session = connected_session_with_challenge(&challenge);
    session.on_authenticate_response(&synthetic_auth_response(&challenge)).unwrap();

    let c = session.commit_request(60);
    assert_eq!(c.ins, 0x03);
    assert_eq!(c.data, 60u64.to_le_bytes().to_vec());

    let point = RistrettoPublicKey::from_secret_key(
        &RistrettoSecretKey::from_bytes(&[13u8; 32]).unwrap(),
    );
    let mut commit_response = vec![0u8];
    commit_response.extend_from_slice(point.as_bytes());
    session.on_commit_response(&commit_response).unwrap();
    assert_eq!(session.state(), SessionState::Committed);
    let held = session.commitment().as_ref().unwrap();
    assert_eq!(held.as_bytes(), point.as_bytes());

    let c = session.terminate_request();
    assert_eq!(c.ins, 0x04);
    assert_eq!(c.data, vec![0u8]);
    session.on_terminate_response(&[]);
    assert_eq!(session.state(), SessionState::Terminated);
}

#[test]
fn session_fails_on_non_canonical_commitment() {
    let challenge = [7u8; 32];
    let mut session = connected_session_with_challenge(&challenge);
    session.on_authenticate_response(&synthetic_auth_response(&challenge)).unwrap();
    let mut commit_response = vec![0u8];
    commit_response.extend_from_slice(&[0xFFu8; 32]);
    let r = session.on_commit_response(&commit_response);
    assert_eq!(r, Err(ProtocolError::InvalidEncoding));
    assert_eq!(session.state(), SessionState::Failed(ProtocolError::InvalidEncoding));
}

#[test]
fn session_records_transport_failure() {
    let mut session = ProtocolOrchestrator::new(transaction_tag(), LABEL.to_vec());
    session.on_transport_error();
    assert_eq!(session.state(), SessionState::Failed(ProtocolError::DeviceCommunication));
}

#[test]
fn session_random_challenge_is_32_bytes() {
    let mut session = ProtocolOrchestrator::new(transaction_tag(), LABEL.to_vec());
    session.on_connect_response(&info_response()).unwrap();
    let c = session.authenticate_request();
    assert_eq!(c.ins, 0x02);
    assert_eq!(c.data.len(), 32);
}
