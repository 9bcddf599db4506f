use ed25519_dalek::Signer;
use rings_core::bip137;
use rings_core::ecc::SecretKey;
use rings_core::eip191;
use rings_core::error::Error;
use rings_core::secp256k1;
use rings_core::session::{
    decode_dump, encode_dump, pack_session, Authorizer, SessionManager, SessionManagerBuilder,
    DEFAULT_SESSION_TTL_MS,
};
use rings_core::did::Did;

#[test]
pub fn test_session_verify() {
    let key = SecretKey::random();
    let sm = SessionManager::new_with_seckey(&key).unwrap();
    let session = sm.session();
    assert!(session.verify_self().is_ok());
}

#[test]
pub fn test_authorizer_pubkey() {
    let key = SecretKey::random();
    let sm = SessionManager::new_with_seckey(&key).unwrap();
    let session = sm.session();
    let pubkey = session.authorizer_pubkey().unwrap();
    assert_eq!(key.pubkey(), pubkey);
}

#[test]
fn session_text_layout() {
    let id = Did::new(0xdeadbeef, 1);
    assert_eq!(
        pack_session(id, 1700000000123, 30),
        "0xdeadbeef00000000000000000000000000000001\n1700000000123\n30"
    );
    assert_eq!(pack_session(Did::new(0, 0), 0, 0), "0x0000000000000000000000000000000000000000\n0\n0");
}

#[test]
fn session_authorizer_is_the_signing_key() {
    let key = SecretKey::random();
    let sm = SessionManager::new_with_seckey(&key).unwrap();
    assert_eq!(sm.authorizer_did(), key.address());
    assert_eq!(sm.session().authorizer, Authorizer::Secp256k1(key.address()));
    assert_eq!(sm.session().session_id, sm.session_key().address());
    assert_eq!(sm.session().ttl_ms, DEFAULT_SESSION_TTL_MS);
}

#[test]
fn expired_session_is_rejected() {
    let key = SecretKey::random();
    let session_key = SecretKey::random();
    let entity = key.address().to_string();
    let builder = SessionManagerBuilder::with_key(entity, "secp256k1".to_string(), session_key, 1000)
        .ttl(500);
    let sig = secp256k1::sign_raw(&key, &builder.pack_session());
    let builder = builder.sig(sig);
    let sm = builder.build_at(1500).unwrap();
    let session = sm.session();
    assert_eq!(session.verify_self_at(1500), Ok(()));
    assert!(!session.is_expired_at(1500));
    assert!(session.is_expired_at(1501));
    assert_eq!(session.verify_self_at(1501), Err(Error::SessionExpired));
    assert_eq!(session.verify_self(), Err(Error::SessionExpired));
}

#[test]
fn wrong_signer_is_rejected() {
    let key = SecretKey::random();
    let other = SecretKey::random();
    let mut builder = SessionManagerBuilder::new(key.address().to_string(), "secp256k1".to_string());
    let sig = secp256k1::sign_raw(&other, &builder.pack_session());
    builder = builder.sig(sig);
    assert_eq!(builder.build().err(), Some(Error::VerifySignatureFailed));
}

#[test]
fn eip191_session_builds() {
    let key = SecretKey::random();
    let mut builder = SessionManagerBuilder::new(key.address().to_string(), "eip191".to_string());
    assert!(builder.validate_authorizer());
    let sig = eip191::sign(&key, &builder.pack_session());
    builder = builder.sig(sig);
    let sm = builder.build().unwrap();
    assert_eq!(sm.session().authorizer_pubkey().unwrap(), key.pubkey());
    assert_eq!(sm.authorizer_did(), key.address());
}

#[test]
fn bip137_session_builds() {
    let key = SecretKey::random();
    let mut builder = SessionManagerBuilder::new(key.address().to_string(), "bip137".to_string());
    let digest = bip137::magic_hash(&builder.pack_session());
    let rsv = key.sign_digest(&digest);
    let mut sig = vec![rsv[64] + 27];
    sig.extend_from_slice(&rsv[..64]);
    builder = builder.sig(sig);
    let sm = builder.build().unwrap();
    assert_eq!(sm.session().authorizer_pubkey().unwrap(), key.pubkey());
}

#[test]
fn unknown_authorizer_type() {
    let builder = SessionManagerBuilder::new("whatever".to_string(), "rsa".to_string());
    assert!(!builder.validate_authorizer());
    assert_eq!(builder.build().err(), Some(Error::UnknownAuthorizer));
    assert_eq!(Authorizer::from_entity("0x12", "secp256k1"), Err(Error::InvalidDid));
    assert_eq!(Authorizer::from_entity("0OIl", "ed25519"), Err(Error::InvalidPublicKey));
}

#[test]
fn session_signs_messages() {
    let key = SecretKey::random();
    let sm = SessionManager::new_with_seckey(&key).unwrap();
    let sig = sm.sign("hello").unwrap();
    let session = sm.session();
    assert_eq!(session.verify("hello", &sig), Ok(()));
    assert_eq!(session.verify("hullo", &sig), Err(Error::VerifySignatureFailed));
}

#[test]
fn dump_framing_round_trip() {
    let body = b"{\"session\":1,\"session_key\":2}".to_vec();
    let text = encode_dump(&body).unwrap();
    assert_ne!(text.as_bytes(), &body[..]);
    assert_eq!(decode_dump(&text), Ok(body));
    assert_eq!(decode_dump(""), Err(Error::Decode));
    assert_eq!(decode_dump("11111111111"), Err(Error::Decode));
}

#[test]
fn ed25519_session_builds() {
    let signing = ed25519_dalek::SigningKey::from_bytes(&[7u8; 32]);
    let public = signing.verifying_key().to_bytes();
    let entity = bs58::encode(public).into_string();
    let mut builder = SessionManagerBuilder::new(entity, "ed25519".to_string());
    assert!(builder.validate_authorizer());
    let sig = signing.sign(builder.pack_session().as_bytes()).to_bytes().to_vec();
    builder = builder.sig(sig);
    let sm = builder.build().unwrap();
    let pk = sm.session().authorizer_pubkey().unwrap();
    assert_eq!(pk.as_bytes(), &public.to_vec());
    assert_eq!(sm.authorizer_did(), pk.address());

    let mut bad = SessionManagerBuilder::new(bs58::encode(public).into_string(), "ed25519".to_string());
    let other = ed25519_dalek::SigningKey::from_bytes(&[8u8; 32]);
    let sig = other.sign(bad.pack_session().as_bytes()).to_bytes().to_vec();
    bad = bad.sig(sig);
    assert_eq!(bad.build().err(), Some(Error::VerifySignatureFailed));
}

#[test]
fn from_parts_requires_matching_key() {
    let key = SecretKey::random();
    let sm = SessionManager::new_with_seckey(&key).unwrap();
    let again = SessionManager::from_parts(sm.session(), sm.session_key().clone()).unwrap();
    assert_eq!(again, sm);
    assert_eq!(
        SessionManager::from_parts(sm.session(), SecretKey::random()).err(),
        Some(Error::Deserialize)
    );
}
