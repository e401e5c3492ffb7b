use dezap::crypto::{decrypt_text, encrypt_text, open_text, seal_text, CryptoCtx, CryptoError};
use dezap::protocol::{CipherFrame, TextMessage, WireMessage};

fn msg(body: &str) -> TextMessage {
    TextMessage { id: 1, author: "alice".into(), body: body.into(), timestamp: 3 }
}

fn pair() -> (CryptoCtx, CryptoCtx) {
    let mut a = CryptoCtx::new().unwrap();
    let mut b = CryptoCtx::new().unwrap();
    let pa = a.public_key();
    let pb = b.public_key();
    assert_eq!(a.accept_remote(&pb), Ok(true));
    assert_eq!(b.accept_remote(&pa), Ok(true));
    (a, b)
}

#[test]
fn both_ends_derive_the_same_key() {
    let (a, b) = pair();
    let ka = a.shared_key().unwrap();
    let kb = b.shared_key().unwrap();
    assert_eq!(ka, kb);
}

#[test]
fn second_hello_leaves_the_key() {
    let (mut a, _b) = pair();
    let before = a.shared_key();
    let other = CryptoCtx::new().unwrap().public_key();
    assert_eq!(a.accept_remote(&other), Ok(false));
    assert_eq!(a.shared_key(), before);
}

#[test]
fn key_before_hello_is_absent() {
    let a = CryptoCtx::new().unwrap();
    assert!(a.shared_key().is_none());
    assert_eq!(encrypt_text(&a, &msg("x")).unwrap_err(), CryptoError::NoKey);
    let frame = CipherFrame { nonce: [0; 12], body: vec![1, 2, 3] };
    assert_eq!(decrypt_text(&a, &frame).unwrap_err(), CryptoError::NoKey);
}

#[test]
fn malformed_remote_key_is_refused() {
    let mut a = CryptoCtx::new().unwrap();
    assert_eq!(a.accept_remote(&[1u8; 31]), Err(CryptoError::BadKeyLength));
    assert!(a.shared_key().is_none());
}

#[test]
fn public_key_is_the_x25519_of_the_secret() {
    let secret = [5u8; 32];
    let ctx = CryptoCtx::from_secret(secret);
    let expected = x25519_dalek::x25519(secret, x25519_dalek::X25519_BASEPOINT_BYTES);
    assert_eq!(ctx.public_key(), expected);
}

#[test]
fn ciphertext_hides_the_text() {
    let (a, b) = pair();
    let sealed = encrypt_text(&a, &msg("hello")).unwrap();
    let frame = match sealed {
        WireMessage::Ciphertext(f) => f,
        _ => panic!("not a ciphertext"),
    };
    let wire = dezap::protocol::encode_message(&WireMessage::Ciphertext(frame.clone()));
    assert!(!wire.windows(5).any(|w| w == b"hello"));
    let opened = decrypt_text(&b, &frame).unwrap();
    assert_eq!(opened.body, "hello");
    assert_eq!(opened.author, "alice");
    assert_eq!(opened.id, 1);
}

#[test]
fn tampered_ciphertext_fails() {
    let key = [3u8; 32];
    let sealed = seal_text(&key, [1u8; 12], &msg("hi")).unwrap();
    let mut frame = match sealed {
        WireMessage::Ciphertext(f) => f,
        _ => panic!("not a ciphertext"),
    };
    assert_eq!(open_text(&key, &frame).unwrap().body, "hi");
    frame.body[0] ^= 1;
    assert_eq!(open_text(&key, &frame).unwrap_err(), CryptoError::AeadFailure);
    assert_eq!(open_text(&[4u8; 32], &frame).unwrap_err(), CryptoError::AeadFailure);
}

#[test]
fn sealed_body_is_plaintext_plus_tag() {
    let key = [3u8; 32];
    let m = msg("hi");
    let sealed = seal_text(&key, [1u8; 12], &m).unwrap();
    let plain_len = dezap::protocol::encode_message(&WireMessage::Text(m.clone())).len() - 1;
    match sealed {
        WireMessage::Ciphertext(f) => {
            assert_eq!(f.nonce, [1u8; 12]);
            assert_eq!(f.body.len(), plain_len + 16);
        }
        _ => panic!("not a ciphertext"),
    }
}

#[test]
fn text_payload_decodes_exactly() {
    let m = msg("yo");
    let full = dezap::protocol::encode_message(&WireMessage::Text(m.clone()));
    let t = dezap::crypto::decode_text(&full[1..]).unwrap();
    assert_eq!(t, m);
    assert!(dezap::crypto::decode_text(&full).is_none());
}

#[test]
fn sealing_succeeds_on_ordinary_text() {
    let key = [7u8; 32];
    assert!(seal_text(&key, [0u8; 12], &msg("")).is_ok());
    assert!(seal_text(&key, [0u8; 12], &msg(&"z".repeat(10_000))).is_ok());
}
