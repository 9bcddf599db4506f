use rings_core::chord::ChordState;
use rings_core::did::Did;
use rings_core::ecc::SecretKey;
use rings_core::error::Error;
use rings_core::payload::{decode_frame, encode_frame, Inbound, MessagePayload};
use rings_core::session::SessionManager;

#[test]
fn frame_layout_and_round_trip() {
    let f = encode_frame(b"{\"a\":1}", b"xy").unwrap();
    assert_eq!(
        f,
        vec![1, 0, 0, 0, 7, b'{', b'"', b'a', b'"', b':', b'1', b'}', 0, 0, 0, 2, b'x', b'y']
    );
    assert_eq!(decode_frame(&f), Ok((b"{\"a\":1}".to_vec(), b"xy".to_vec())));
    let empty = encode_frame(b"", b"").unwrap();
    assert_eq!(empty, vec![1, 0, 0, 0, 0, 0, 0, 0, 0]);
    assert_eq!(decode_frame(&empty), Ok((vec![], vec![])));
}

#[test]
fn frame_errors() {
    assert_eq!(decode_frame(&[]), Err(Error::Decode));
    assert_eq!(decode_frame(&[2, 0, 0, 0, 0, 0, 0, 0, 0]), Err(Error::UnsupportedVersion));
    assert_eq!(decode_frame(&[1, 0, 0]), Err(Error::Decode));
    assert_eq!(decode_frame(&[1, 0, 0, 0, 9, 1, 2]), Err(Error::Decode));
    assert_eq!(decode_frame(&[1, 0, 0, 0, 0, 0, 0, 0, 1]), Err(Error::Decode));
    assert_eq!(decode_frame(&[1, 0, 0, 0, 0, 0, 0, 0, 0, 5]), Err(Error::Decode));
}

#[test]
fn payload_proof_and_origin() {
    let key = SecretKey::random();
    let sm = SessionManager::new_with_seckey(&key).unwrap();
    let dest = Did::new(0, 42);
    let mut p = MessagePayload::new(&sm, 1, dest, "{\"text\":\"hello\"}".to_string(), 60000).unwrap();
    assert_eq!(p.tx_id.len(), 32);
    assert_eq!(p.origin, sm.session().session_id);
    assert_eq!(p.verify(), Ok(()));
    p.relay(Did::new(0, 7), Did::new(0, 9));
    assert_eq!(p.path, vec![Did::new(0, 7)]);
    assert_eq!(p.next_hop, Some(Did::new(0, 9)));
    assert_eq!(p.verify(), Ok(()));
    p.body = "{\"text\":\"hullo\"}".to_string();
    assert_eq!(p.verify(), Err(Error::VerifySignatureFailed));
    p.origin = Did::new(0, 1);
    assert_eq!(p.verify(), Err(Error::VerifyOriginMismatch));
    assert_eq!(p.remote_did(p.verify()), Err(Error::VerifyOriginMismatch));
    assert_eq!(p.remote_did(Ok(())), Ok(sm.session().session_id));
}

#[test]
fn inbound_routing_decisions() {
    let key = SecretKey::random();
    let sm = SessionManager::new_with_seckey(&key).unwrap();
    let me = Did::new(0, 100);
    let mut c = ChordState::new(me, 3);
    let to_me = MessagePayload::with_tx_id(&sm, vec![0; 32], 1, me, "{}".to_string(), 0, 10).unwrap();
    assert_eq!(c.route_inbound(&to_me, Ok(()), 8), Inbound::Deliver);
    assert_eq!(
        c.route_inbound(&to_me, Err(Error::VerifySignatureFailed), 8),
        Inbound::Drop(Error::VerifySignatureFailed)
    );
    let mut away =
        MessagePayload::with_tx_id(&sm, vec![0; 32], 1, Did::new(0, 250), "{}".to_string(), 0, 10).unwrap();
    assert_eq!(c.route_inbound(&away, Ok(()), 8), Inbound::Drop(Error::NoNextHop));
    c.add_successor(Did::new(0, 300));
    assert_eq!(c.route_inbound(&away, Ok(()), 8), Inbound::Forward(Did::new(0, 300)));
    away.relay(Did::new(0, 1), me);
    away.relay(Did::new(0, 2), me);
    assert_eq!(c.route_inbound(&away, Ok(()), 2), Inbound::Drop(Error::RelayLoop));
}
