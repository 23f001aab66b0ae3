use digest::Digest;
use ledger_auth::commitment::CommitmentDecoder;
use ledger_auth::errors::ProtocolError;
use ledger_auth::hashing::DomainSeparatedConsensusHasher;
use ledger_auth::hashing::DomainTag;
use ledger_auth::hashing::Encodable;
use ledger_auth::schnorr::SchnorrSignature;
use ledger_auth::schnorr::SchnorrVerifier;
use tari_crypto::hash::blake2::Blake256;
use tari_crypto::hashing::DomainSeparatedHasher;
use tari_crypto::keys::PublicKey;
use tari_crypto::keys::SecretKey;
use tari_crypto::ristretto::RistrettoPublicKey;
use tari_crypto::ristretto::RistrettoSchnorr;
use tari_crypto::ristretto::RistrettoSecretKey;
use tari_crypto::signatures::SchnorrSigChallenge;
use tari_crypto::tari_utilities::ByteArray;

fn transaction_tag() -> DomainTag {
    DomainTag {
        application_identifier: b"com.tari.base_layer.core.transactions".to_vec(),
        version: 0,
    }
}

fn fixed_keypair(seed: u8) -> (RistrettoSecretKey, RistrettoPublicKey) {
    let secret = RistrettoSecretKey::from_bytes(&[seed; 32]).unwrap();
    let public = RistrettoPublicKey::from_secret_key(&secret);
    (secret, public)
}

#[test]
fn hasher_matches_manual_blake2_preimage() {
    let tag_string = format!("{}.v{}.{}", "com.tari.base_layer.core.transactions", 0,
        "script_challenge");
    let mut preimage = (tag_string.len() as u64).to_le_bytes().to_vec();
    preimage.extend_from_slice(tag_string.as_bytes());
    preimage.extend_from_slice(&5u32.to_le_bytes());
    preimage.extend_from_slice(b"hello");
    preimage.extend_from_slice(&[1u8; 32]);
    let expected = Blake256::digest(&preimage).to_vec();

    let hasher = DomainSeparatedConsensusHasher::new(&transaction_tag(), b"script_challenge");
    let digest = hasher
        .chain(&Encodable::Variable(b"hello".to_vec()))
        .chain(&Encodable::Fixed(vec![1u8; 32]))
        .finalize();
    assert_eq!(digest, expected);
}

#[test]
fn hasher_prefix_matches_reference_implementation() {
    // The same tag and label as the curve library's own domain-separated
    // hasher over `com.tari.schnorr_signature`, version 1: with nothing
    // chained, both digest exactly the domain prefix.
    let reference = DomainSeparatedHasher::<Blake256, SchnorrSigChallenge>::new_with_label(
        "challenge",
    )
    .finalize();

    let tag = DomainTag { application_identifier: b"com.tari.schnorr_signature".to_vec(),
        version: 1 };
    let digest = DomainSeparatedConsensusHasher::new(&tag, b"challenge").finalize();
    assert_eq!(digest.as_slice(), reference.as_ref());
}

#[test]
fn hasher_is_deterministic() {
    let run = || {
        DomainSeparatedConsensusHasher::new(&transaction_tag(), b"script_challenge")
            .chain(&Encodable::Variable(vec![4u8; 3]))
            .chain(&Encodable::Fixed(vec![5u8; 32]))
            .finalize()
    };
    let first = run();
    let second = run();
    assert_eq!(first, second);
    assert_eq!(first.len(), 32);
}

#[test]
fn hasher_label_changes_digest() {
    let one = DomainSeparatedConsensusHasher::new(&transaction_tag(), b"script_challenge")
        .finalize();
    let other = DomainSeparatedConsensusHasher::new(&transaction_tag(), b"other_label")
        .finalize();
    assert_ne!(one, other);
}

#[test]
fn hasher_empty_label_drops_trailing_dot() {
    let tag_string = "com.tari.base_layer.core.transactions.v0";
    let mut preimage = (tag_string.len() as u64).to_le_bytes().to_vec();
    preimage.extend_from_slice(tag_string.as_bytes());
    let expected = Blake256::digest(&preimage).to_vec();
    let digest = DomainSeparatedConsensusHasher::new(&transaction_tag(), b"").finalize();
    assert_eq!(digest, expected);
}

#[test]
fn hasher_chain_all_matches_successive_chains() {
    let values = vec![Encodable::Variable(b"ab".to_vec()), Encodable::Fixed(vec![9u8; 4])];
    let folded = DomainSeparatedConsensusHasher::new(&transaction_tag(), b"x")
        .chain_all(&values)
        .finalize();
    let stepped = DomainSeparatedConsensusHasher::new(&transaction_tag(), b"x")
        .chain(&Encodable::Variable(b"ab".to_vec()))
        .chain(&Encodable::Fixed(vec![9u8; 4]))
        .finalize();
    assert_eq!(folded, stepped);
}

#[test]
fn hasher_three_digit_version_prefix() {
    let tag_string = format!("{}.v{}.{}", "com.example", 123, "label");
    let mut preimage = (tag_string.len() as u64).to_le_bytes().to_vec();
    preimage.extend_from_slice(tag_string.as_bytes());
    let expected = Blake256::digest(&preimage).to_vec();
    let tag = DomainTag { application_identifier: b"com.example".to_vec(), version: 123 };
    let digest = DomainSeparatedConsensusHasher::new(&tag, b"label").finalize();
    assert_eq!(digest, expected);
}

#[test]
fn schnorr_verify_accepts_valid_signature() {
    let (secret, public) = fixed_keypair(1);
    let (nonce_secret, _) = fixed_keypair(2);
    let digest = Blake256::digest(b"challenge digest").to_vec();
    let signature = RistrettoSchnorr::sign_raw(&secret, nonce_secret, &digest).unwrap();
    let sig = SchnorrSignature {
        nonce: signature.get_public_nonce().as_bytes().to_vec(),
        scalar: signature.get_signature().as_bytes().to_vec(),
    };
    let r = SchnorrVerifier::verify(public.as_bytes(), &digest, &sig);
    assert_eq!(r, Ok(true));
}

#[test]
fn schnorr_verify_rejects_wrong_digest() {
    let (secret, public) = fixed_keypair(1);
    let (nonce_secret, _) = fixed_keypair(2);
    let digest = Blake256::digest(b"challenge digest").to_vec();
    let signature = RistrettoSchnorr::sign_raw(&secret, nonce_secret, &digest).unwrap();
    let sig = SchnorrSignature {
        nonce: signature.get_public_nonce().as_bytes().to_vec(),
        scalar: signature.get_signature().as_bytes().to_vec(),
    };
    let other_digest = Blake256::digest(b"a different digest").to_vec();
    let r = SchnorrVerifier::verify(public.as_bytes(), &other_digest, &sig);
    assert_eq!(r, Ok(false));
}

#[test]
fn schnorr_verify_rejects_wrong_public_key() {
    let (secret, _) = fixed_keypair(1);
    let (nonce_secret, _) = fixed_keypair(2);
    let (_, other_public) = fixed_keypair(3);
    let digest = Blake256::digest(b"challenge digest").to_vec();
    let signature = RistrettoSchnorr::sign_raw(&secret, nonce_secret, &digest).unwrap();
    let sig = SchnorrSignature {
        nonce: signature.get_public_nonce().as_bytes().to_vec(),
        scalar: signature.get_signature().as_bytes().to_vec(),
    };
    let r = SchnorrVerifier::verify(other_public.as_bytes(), &digest, &sig);
    assert_eq!(r, Ok(false));
}

#[test]
fn schnorr_verify_mutated_key_bytes_never_accept() {
    let (secret, public) = fixed_keypair(1);
    let (nonce_secret, _) = fixed_keypair(2);
    let digest = Blake256::digest(b"challenge digest").to_vec();
    let signature = RistrettoSchnorr::sign_raw(&secret, nonce_secret, &digest).unwrap();
    let nonce_bytes = signature.get_public_nonce().as_bytes().to_vec();
    let scalar_bytes = signature.get_signature().as_bytes().to_vec();
    for mask in 1u8..=255 {
        let mut pk = public.as_bytes().to_vec();
        pk[0] ^= mask;
        let sig = SchnorrSignature { nonce: nonce_bytes.clone(), scalar: scalar_bytes.clone() };
        let r = SchnorrVerifier::verify(&pk, &digest, &sig);
        assert_ne!(r, Ok(true));
    }
}

#[test]
fn schnorr_verify_rejects_short_fields() {
    let sig = SchnorrSignature { nonce: vec![0u8; 32], scalar: vec![0u8; 31] };
    let r = SchnorrVerifier::verify(&[0u8; 32], &[0u8; 32], &sig);
    assert_eq!(r, Err(ProtocolError::MalformedResponse));
}

#[test]
fn schnorr_verify_rejects_non_canonical_key() {
    let sig = SchnorrSignature { nonce: vec![0u8; 32], scalar: vec![0u8; 32] };
    let r = SchnorrVerifier::verify(&[0xFFu8; 32], &[0u8; 32], &sig);
    assert_eq!(r, Err(ProtocolError::InvalidEncoding));
}

#[test]
fn commitment_decode_round_trips_canonical_bytes() {
    let (_, public) = fixed_keypair(4);
    let bytes = public.as_bytes().to_vec();
    let commitment = CommitmentDecoder::decode(&bytes).unwrap();
    assert_eq!(commitment.as_bytes(), bytes.as_slice());
}

#[test]
fn commitment_decode_accepts_identity_point() {
    let commitment = CommitmentDecoder::decode(&[0u8; 32]).unwrap();
    assert_eq!(commitment.as_bytes(), &[0u8; 32]);
}

#[test]
fn commitment_decode_rejects_wrong_length() {
    assert!(matches!(CommitmentDecoder::decode(&[0u8; 31]),
        Err(ProtocolError::MalformedResponse)));
    assert!(matches!(CommitmentDecoder::decode(&[0u8; 33]),
        Err(ProtocolError::MalformedResponse)));
    assert!(matches!(CommitmentDecoder::decode(&[]), Err(ProtocolError::MalformedResponse)));
}

#[test]
fn commitment_decode_rejects_non_canonical_bytes() {
    let r = CommitmentDecoder::decode(&[0xFFu8; 32]);
    assert!(matches!(r, Err(ProtocolError::InvalidEncoding)));
}
