use rings_core::ecc::SecretKey;
use rings_core::session::SessionManager;
use rings_core::verification::MessageVerification;

#[test]
fn signed_payload_verifies() {
    let key = SecretKey::random();
    let sm = SessionManager::new_with_seckey(&key).unwrap();
    let body = "{\"text\":\"hello\"}";
    let v = MessageVerification::sign(&sm, body, 1234, 60000).unwrap();
    assert!(v.verify(body));
    assert!(!v.verify("{\"text\":\"hullo\"}"));
    let pk = v.session_pubkey(body).unwrap();
    assert_eq!(pk.address(), sm.session().session_id);
}

#[test]
fn message_text_layout() {
    assert_eq!(MessageVerification::pack_msg("{}", 17, 3), "{}\n17\n3");
}
