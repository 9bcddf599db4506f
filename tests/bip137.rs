use rings_core::bip137;
use rings_core::ecc::PublicKey;
use rings_core::error::Error;

#[test]
fn test_verify() {
    let pubkey = PublicKey::from_hex_string(
        "026a626503429a973dc4fcde64fa7932158a20c69b79c9eab1245577dd43674dc5",
    )
    .unwrap();

    let msg = "Hello World 42";
    let sig = vec![
        27, 204, 122, 109, 87, 84, 60, 195, 135, 84, 231, 22, 77, 88, 215, 161, 77, 74, 181, 192,
        19, 219, 188, 251, 142, 104, 2, 233, 132, 82, 171, 102, 125, 114, 45, 23, 202, 59, 86, 236,
        76, 169, 164, 164, 179, 221, 206, 54, 32, 106, 81, 115, 217, 42, 93, 114, 131, 115, 128,
        227, 45, 231, 30, 111, 34,
    ];
    assert_eq!(sig.len(), 65);

    let pk = bip137::recover(msg, &sig).unwrap();
    assert_eq!(pk, pubkey);
    assert_eq!(pk.address(), pubkey.address());
}

fn fixture_sig() -> Vec<u8> {
    vec![
        27, 204, 122, 109, 87, 84, 60, 195, 135, 84, 231, 22, 77, 88, 215, 161, 77, 74, 181, 192,
        19, 219, 188, 251, 142, 104, 2, 233, 132, 82, 171, 102, 125, 114, 45, 23, 202, 59, 86, 236,
        76, 169, 164, 164, 179, 221, 206, 54, 32, 106, 81, 115, 217, 42, 93, 114, 131, 115, 128,
        227, 45, 231, 30, 111, 34,
    ]
}

#[test]
fn bip137_verify_accepts_the_signer_address() {
    let pubkey = PublicKey::from_hex_string(
        "026a626503429a973dc4fcde64fa7932158a20c69b79c9eab1245577dd43674dc5",
    )
    .unwrap();
    assert!(bip137::verify("Hello World 42", &pubkey.address(), &fixture_sig()));
    assert!(!bip137::verify("Hello World 43", &pubkey.address(), &fixture_sig()));
}

#[test]
fn bip137_rejects_malformed_signatures() {
    let mut short = fixture_sig();
    short.pop();
    assert_eq!(bip137::recover("Hello World 42", &short), Err(Error::BadSignature));
    let mut low = fixture_sig();
    low[0] = 26;
    assert_eq!(bip137::recover("Hello World 42", &low), Err(Error::BadRecoveryId));
    let mut high = fixture_sig();
    high[0] = 31;
    assert_eq!(bip137::recover("Hello World 42", &high), Err(Error::BadRecoveryId));
}

#[test]
fn varint_sizes() {
    assert_eq!(bip137::varint_buf_num(0), vec![0]);
    assert_eq!(bip137::varint_buf_num(24), vec![24]);
    assert_eq!(bip137::varint_buf_num(252), vec![252]);
    assert_eq!(bip137::varint_buf_num(253), vec![253, 253, 0]);
    assert_eq!(bip137::varint_buf_num(0xffff), vec![253, 0xff, 0xff]);
    assert_eq!(bip137::varint_buf_num(0x10000), vec![254, 0, 0, 1, 0]);
    assert_eq!(bip137::varint_buf_num(0x1234_5678), vec![254, 0x78, 0x56, 0x34, 0x12]);
    assert_eq!(
        bip137::varint_buf_num(0x1_0000_0000),
        vec![255, 0, 0, 0, 0, 1, 0, 0, 0]
    );
    assert_eq!(
        bip137::varint_buf_num(u64::MAX),
        vec![255, 255, 255, 255, 255, 255, 255, 255, 255]
    );
}

#[test]
fn magic_hash_is_a_32_byte_digest_of_the_message() {
    let a = bip137::magic_hash("Hello World 42");
    let b = bip137::magic_hash("Hello World 43");
    assert_eq!(a.len(), 32);
    assert_ne!(a, b);
    assert_eq!(a, bip137::magic_hash("Hello World 42"));
}
