use harbour_chat::crypto::EnvelopeCrypto;
use harbour_chat::envelope::{decode_envelope, encode_envelope, Envelope};
use harbour_chat::error::AppError;

const TEST_KEY: &str = "QkJCQkJCQkJCQkJCQkJCQkJCQkJCQkJCQkJCQkJCQkI=";

fn crypto() -> EnvelopeCrypto {
    EnvelopeCrypto::new("test-v1".into(), Some(TEST_KEY.into())).unwrap()
}

#[test]
fn master_key_must_be_32_bytes_of_base64() {
    assert!(!EnvelopeCrypto::new("k".into(), None).unwrap().is_encryption_enabled());
    assert!(crypto().is_encryption_enabled());
    assert!(matches!(EnvelopeCrypto::new("k".into(), Some("QkJC".into())), Err(AppError::Validation(m)) if m == "CHAT_MASTER_KEY_B64 must decode to 32 bytes"));
    assert!(matches!(EnvelopeCrypto::new("k".into(), Some("not base64!".into())), Err(AppError::Validation(_))));
}

#[test]
fn text_round_trip() {
    let c = crypto();
    let sealed = c.encrypt_text("héllo \"world\"\n").unwrap();
    assert!(sealed.starts_with("enc:v1:"));
    assert!(!sealed.contains("world"));
    assert_eq!(c.decrypt_text(&sealed).unwrap(), "héllo \"world\"\n");
    assert_eq!(c.decrypt_text("legacy plain").unwrap(), "legacy plain");
}

#[test]
fn bytes_round_trip() {
    let c = crypto();
    let data = vec![0u8, 1, 2, 255, 254];
    let sealed = c.encrypt_bytes(&data).unwrap();
    assert!(sealed.starts_with(b"encb:v1:"));
    assert_eq!(c.decrypt_bytes(&sealed).unwrap(), data);
    assert_eq!(c.decrypt_bytes(b"raw").unwrap(), b"raw".to_vec());
}

#[test]
fn without_key_text_is_unchanged_and_sealed_text_refused() {
    let plain = EnvelopeCrypto::new("k".into(), None).unwrap();
    assert_eq!(plain.encrypt_text("x").unwrap(), "x");
    assert_eq!(plain.encrypt_bytes(b"x").unwrap(), b"x".to_vec());
    let sealed = crypto().encrypt_text("secret").unwrap();
    assert!(matches!(plain.decrypt_text(&sealed), Err(AppError::Validation(m)) if m == "encrypted payload encountered without master key"));
}

#[test]
fn tampered_ciphertext_is_refused() {
    let c = crypto();
    let sealed = c.encrypt_text("secret").unwrap();
    let env = decode_envelope(&sealed["enc:v1:".len()..]).unwrap();
    let other = c.encrypt_text("other").unwrap();
    let env2 = decode_envelope(&other["enc:v1:".len()..]).unwrap();
    let mixed = Envelope { ciphertext_b64: env2.ciphertext_b64, ..env };
    let text = format!("enc:v1:{}", encode_envelope(&mixed));
    assert!(c.decrypt_text(&text).is_err());
    let wrong_key = EnvelopeCrypto::new("k".into(), Some("QUFBQUFBQUFBQUFBQUFBQUFBQUFBQUFBQUFBQUFBQUE=".into())).unwrap();
    assert!(wrong_key.decrypt_text(&sealed).is_err());
}

#[test]
fn envelope_text_round_trip() {
    let e = Envelope {
        key_id: "k\"1\\".into(),
        wrap_nonce_b64: "AAAA".into(),
        wrapped_dek_b64: "BB==".into(),
        data_nonce_b64: "\u{1}\n".into(),
        ciphertext_b64: "é".into(),
    };
    let text = encode_envelope(&e);
    assert_eq!(decode_envelope(&text), Some(e.clone()));
    let value: serde_json::Value = serde_json::from_str(&text).expect("valid json");
    assert_eq!(value["key_id"], "k\"1\\");
    assert_eq!(value["data_nonce_b64"], "\u{1}\n");
    assert_eq!(decode_envelope("{}"), None);
}

#[test]
fn stored_text_differs_from_the_plaintext() {
    let c = crypto();
    for p in ["", "a", "enc:v1:", "hello harbour"] {
        let sealed = c.encrypt_text(p).unwrap();
        assert!(sealed.starts_with("enc:v1:"));
        assert_ne!(sealed, p);
        assert_eq!(c.decrypt_text(&sealed).unwrap(), p);
    }
    let bytes = c.encrypt_bytes(b"abc").unwrap();
    assert_ne!(bytes, b"abc".to_vec());
}

#[test]
fn envelope_with_short_nonces_is_a_validation_error() {
    let c = EnvelopeCrypto::new("k".into(), Some(TEST_KEY.into())).unwrap();
    let value = r#"enc:v1:{"key_id":"k","wrap_nonce_b64":"AA==","wrapped_dek_b64":"AA==","data_nonce_b64":"AA==","ciphertext_b64":"AA=="}"#;
    assert!(matches!(c.decrypt_text(value), Err(AppError::Validation(_))));
    let bad_b64 = r#"enc:v1:{"key_id":"k","wrap_nonce_b64":"!!","wrapped_dek_b64":"AA==","data_nonce_b64":"AA==","ciphertext_b64":"AA=="}"#;
    match c.decrypt_text(bad_b64) {
        Err(AppError::Validation(m)) => assert!(m.starts_with("invalid wrap nonce: ") && m.len() > "invalid wrap nonce: ".len()),
        other => panic!("expected a validation error, got {other:?}"),
    }
    assert!(matches!(c.decrypt_bytes(b"encb:v1:{}"), Err(AppError::Validation(_))));
}
