//! Envelope encryption at rest: message text and attachment bytes are
//! sealed under a fresh data key, itself sealed under the master key.
use base64::Engine;
use chacha20poly1305::aead::rand_core::RngCore;
use chacha20poly1305::aead::{Aead, KeyInit};
use vstd::prelude::*;
use vstd::utf8::{decode_utf8, encode_utf8, valid_utf8};

use crate::envelope::{
    decode_envelope, encode_envelope, envelope_text, fields_of, parse_envelope_text, Envelope,
    EnvelopeFields,
};
use crate::error::{AppError, AppResult};
use crate::text::{chars_of, has_prefix, owned, skip_chars, string_of};

verus! {

/// The bytes a base64 (standard alphabet, padded) text decodes to, if it is valid base64.
pub uninterp spec fn b64_decode_spec(text: Seq<char>) -> Option<Seq<u8>>;

/// The standard padded base64 text of some bytes.
pub uninterp spec fn b64_encode_spec(bytes: Seq<u8>) -> Seq<char>;

/// The ciphertext (with tag) XChaCha20-Poly1305 produces for a key, nonce and plaintext.
pub uninterp spec fn aead_seal_spec(key: Seq<u8>, nonce: Seq<u8>, plaintext: Seq<u8>) -> Seq<u8>;

/// The plaintext XChaCha20-Poly1305 recovers from a ciphertext under a key
/// and nonce, or none when authentication fails.
pub uninterp spec fn aead_open_spec(key: Seq<u8>, nonce: Seq<u8>, ciphertext: Seq<u8>) -> Option<Seq<u8>>;

/// Standard padded base64 (base64 `STANDARD.encode`).
/// Claimed: the result is `b64_encode_spec(bytes)`, four characters for
/// every started group of three bytes (padded), and decoding it gives the
/// bytes back.
#[verifier::external_body]
pub(crate) fn b64_encode(bytes: &[u8]) -> (r: String)
    ensures
        r@ == b64_encode_spec(bytes@),
        r@.len() == 4 * ((bytes@.len() + 2) / 3),
        b64_decode_spec(r@) == Some(bytes@),
{
    base64::engine::general_purpose::STANDARD.encode(bytes)
}

/// Standard padded base64 decoding (base64 `STANDARD.decode`).
/// Claimed: succeeds exactly when `b64_decode_spec` is defined, with those
/// bytes; the error text is the crate's message and is not specified.
#[verifier::external_body]
pub(crate) fn b64_decode(text: &str) -> (r: Result<Vec<u8>, String>)
    ensures
        r is Ok <==> b64_decode_spec(text@) is Some,
        r is Ok ==> Some(r->Ok_0@) == b64_decode_spec(text@),
{
    base64::engine::general_purpose::STANDARD.decode(text).map_err(|e| e.to_string())
}

/// XChaCha20-Poly1305 encryption (`XChaCha20Poly1305::encrypt` with
/// `Key::from_slice`, `XNonce::from_slice`), which rejects plaintexts of
/// 2^32-1 or more 64-byte blocks.
/// Claimed: on success the ciphertext is `aead_seal_spec(..)`, the
/// plaintext's length plus the 16-byte tag, and opening it under the same
/// key and nonce gives the plaintext back.
#[verifier::external_body]
fn aead_seal(key: &[u8], nonce: &[u8], plaintext: &[u8]) -> (r: Option<Vec<u8>>)
    requires
        key@.len() == 32,
        nonce@.len() == 24,
    ensures
        r is Some <==> plaintext@.len() / 64 < 0xFFFF_FFFF,
        r is Some ==> r->0@.len() == plaintext@.len() + 16,
        r is Some ==> r->0@ == aead_seal_spec(key@, nonce@, plaintext@) && aead_open_spec(
            key@,
            nonce@,
            r->0@,
        ) == Some(plaintext@),
{
    let cipher = chacha20poly1305::XChaCha20Poly1305::new(chacha20poly1305::Key::from_slice(key));
    cipher.encrypt(chacha20poly1305::XNonce::from_slice(nonce), plaintext).ok()
}

/// XChaCha20-Poly1305 decryption (`XChaCha20Poly1305::decrypt`).
/// Claimed: the result is `aead_open_spec(..)`.
#[verifier::external_body]
fn aead_open(key: &[u8], nonce: &[u8], ciphertext: &[u8]) -> (r: Option<Vec<u8>>)
    requires
        key@.len() == 32,
        nonce@.len() == 24,
    ensures
        match aead_open_spec(key@, nonce@, ciphertext@) {
            Some(p) => r is Some && r->0@ == p,
            None => r is None,
        },
{
    let cipher = chacha20poly1305::XChaCha20Poly1305::new(chacha20poly1305::Key::from_slice(key));
    cipher.decrypt(chacha20poly1305::XNonce::from_slice(nonce), ciphertext).ok()
}

/// Fresh random bytes from the operating system (`OsRng::fill_bytes`).
/// Claimed: only the length; the bytes are unpredictable.
#[verifier::external_body]
fn random_bytes(n: usize) -> (r: Vec<u8>)
    ensures
        r@.len() == n,
{
    let mut buf = vec![0u8; n];
    chacha20poly1305::aead::OsRng.fill_bytes(&mut buf);
    buf
}

/// Text from UTF-8 bytes (std `String::from_utf8`).
/// Claimed: succeeds exactly on valid UTF-8, with the decoded characters.
#[verifier::external_body]
pub(crate) fn utf8_string(bytes: Vec<u8>) -> (r: Option<String>)
    ensures
        r is Some <==> valid_utf8(bytes@),
        r is Some ==> r->0@ == decode_utf8(bytes@),
{
    String::from_utf8(bytes).ok()
}

/// Prefix of encrypted message text.
pub const MSG_PREFIX: &'static str = "enc:v1:";

/// Prefix of encrypted attachment bytes.
pub open spec fn bin_prefix() -> Seq<u8> {
    seq![101u8, 110, 99, 98, 58, 118, 49, 58]
}

/// Opens envelope fields under the master key: decode the base64 fields,
/// unwrap the data key (24-byte nonces, 32-byte data key), and decrypt.
pub open spec fn open_envelope(kek: Seq<u8>, f: EnvelopeFields) -> Option<Seq<u8>> {
    match (b64_decode_spec(f.1), b64_decode_spec(f.2), b64_decode_spec(f.3), b64_decode_spec(f.4)) {
        (Some(wn), Some(wd), Some(dn), Some(ct)) => if wn.len() == 24 && dn.len() == 24 {
            match aead_open_spec(kek, wn, wd) {
                Some(dek) => if dek.len() == 32 {
                    aead_open_spec(dek, dn, ct)
                } else {
                    None
                },
                None => None,
            }
        } else {
            None
        },
        _ => None,
    }
}

/// What reading stored message text gives: text without the encryption
/// prefix as is; encrypted text needs the master key, a valid envelope
/// that opens, and UTF-8 plaintext.
pub open spec fn decrypt_text_spec(kek: Option<Seq<u8>>, value: Seq<char>) -> Option<Seq<char>> {
    if !has_prefix(value, "enc:v1:"@) {
        Some(value)
    } else {
        match kek {
            None => None,
            Some(k) => match parse_envelope_text(value.skip(7)) {
                None => None,
                Some(f) => match open_envelope(k, f) {
                    None => None,
                    Some(p) => if valid_utf8(p) {
                        Some(decode_utf8(p))
                    } else {
                        None
                    },
                },
            },
        }
    }
}

/// Whether stored message text is an envelope that opens under the master
/// key (its plaintext may still fail to be UTF-8).
pub open spec fn text_payload_opens(kek: Option<Seq<u8>>, value: Seq<char>) -> bool {
    &&& has_prefix(value, "enc:v1:"@)
    &&& kek is Some
    &&& parse_envelope_text(value.skip(7)) matches Some(f) && open_envelope(kek->0, f) is Some
}

/// What reading stored attachment bytes gives, as for text.
pub open spec fn decrypt_bytes_spec(kek: Option<Seq<u8>>, value: Seq<u8>) -> Option<Seq<u8>> {
    if !(value.len() >= 8 && value.take(8) == bin_prefix()) {
        Some(value)
    } else {
        match kek {
            None => None,
            Some(k) => {
                let rest = value.skip(8);
                if !valid_utf8(rest) {
                    None
                } else {
                    match parse_envelope_text(decode_utf8(rest)) {
                        None => None,
                        Some(f) => open_envelope(k, f),
                    }
                }
            },
        }
    }
}

/// The envelope encryption settings: the id of the master key and, when
/// encryption is enabled, the 32-byte master key.
#[derive(Debug)]
pub struct EnvelopeCrypto {
    key_id: String,
    kek: Option<Vec<u8>>,
}

fn copy_bytes(v: &Vec<u8>) -> (r: Vec<u8>)
    ensures
        r@ == v@,
{
    let mut out: Vec<u8> = Vec::new();
    let mut i: usize = 0;
    while i < v.len()
        invariant
            i <= v.len(),
            out@ == v@.take(i as int),
        decreases v.len() - i,
    {
        out.push(v[i]);
        i = i + 1;
        assert(out@ =~= v@.take(i as int));
    }
    assert(v@.take(v.len() as int) =~= v@);
    out
}

/// A validation error whose message is `prefix`, `: ` and the decoder's
/// own message.
fn validation_with(prefix: &str, detail: &str) -> (r: AppError)
    ensures
        r is Validation,
{
    let head = crate::text::concat_chars(&chars_of(prefix), &chars_of(": "));
    AppError::Validation(string_of(&crate::text::concat_chars(&head, &chars_of(detail))))
}

impl Clone for EnvelopeCrypto {
    /// The same key id and master key.
    fn clone(&self) -> (r: Self)
        ensures
            r.master_key() == self.master_key(),
            r.key_id_view() == self.key_id_view(),
    {
        proof {
            use_type_invariant(self);
        }
        let kek = match &self.kek {
            Some(k) => Some(copy_bytes(k)),
            None => None,
        };
        EnvelopeCrypto { key_id: self.key_id.clone(), kek }
    }
}

impl EnvelopeCrypto {
    #[verifier::type_invariant]
    spec fn key_len_ok(self) -> bool {
        self.kek is Some ==> self.kek->0@.len() == 32
    }

    /// The master key, when encryption is enabled.
    pub closed spec fn master_key(self) -> Option<Seq<u8>> {
        match self.kek {
            Some(k) => Some(k@),
            None => None,
        }
    }

    /// The id of the master key.
    pub closed spec fn key_id_view(self) -> Seq<char> {
        self.key_id@
    }

    /// Builds the settings from the key id and the optional base64 master
    /// key, which must decode to exactly 32 bytes.
    pub fn new(key_id: String, master_key_b64: Option<String>) -> (r: AppResult<EnvelopeCrypto>)
        ensures
            master_key_b64 is None ==> r is Ok && r->Ok_0.master_key() is None && r->Ok_0.key_id_view()
                == key_id@,
            master_key_b64 is Some && b64_decode_spec(master_key_b64->0@) is None ==> r is Err
                && r->Err_0 is Validation,
            master_key_b64 is Some && b64_decode_spec(master_key_b64->0@) is Some
                && b64_decode_spec(master_key_b64->0@)->0.len() != 32 ==> r is Err
                && crate::error::is_validation(r->Err_0, "CHAT_MASTER_KEY_B64 must decode to 32 bytes"@),
            master_key_b64 is Some && b64_decode_spec(master_key_b64->0@) is Some
                && b64_decode_spec(master_key_b64->0@)->0.len() == 32 ==> r is Ok
                && r->Ok_0.master_key() == b64_decode_spec(master_key_b64->0@)
                && r->Ok_0.key_id_view() == key_id@,
    {
        let kek = match master_key_b64 {
            Some(k) => {
                let bytes = match b64_decode(k.as_str()) {
                    Ok(b) => b,
                    Err(e) => {
                        let msg = crate::text::concat_chars(
                            &chars_of("invalid CHAT_MASTER_KEY_B64: "),
                            &chars_of(e.as_str()),
                        );
                        return Err(AppError::Validation(string_of(&msg)));
                    },
                };
                if bytes.len() != 32 {
                    return Err(AppError::Validation(owned("CHAT_MASTER_KEY_B64 must decode to 32 bytes")));
                }
                Some(bytes)
            },
            None => None,
        };
        Ok(EnvelopeCrypto { key_id, kek })
    }

    /// Whether a master key is configured.
    pub fn is_encryption_enabled(&self) -> (r: bool)
        ensures
            r == self.master_key() is Some,
    {
        self.kek.is_some()
    }

    /// Seals `plaintext` under a fresh data key and nonces; the envelope
    /// opens under the master key to the plaintext.
    fn seal(&self, kek: &Vec<u8>, plaintext: &[u8]) -> (r: AppResult<Envelope>)
        requires
            kek@.len() == 32,
        ensures
            r is Ok <==> plaintext@.len() / 64 < 0xFFFF_FFFF,
            r is Err ==> r->Err_0 is Internal,
            r is Ok ==> fields_of(r->Ok_0).0 == self.key_id_view() && open_envelope(kek@, fields_of(r->Ok_0))
                == Some(plaintext@),
            r is Ok ==> fields_of(r->Ok_0).4.len() > plaintext@.len(),
    {
        let dek = random_bytes(32);
        let wrap_nonce = random_bytes(24);
        let data_nonce = random_bytes(24);
        let wrapped_dek = match aead_seal(kek.as_slice(), wrap_nonce.as_slice(), dek.as_slice()) {
            Some(c) => c,
            None => {
                return Err(AppError::Internal(owned("failed to wrap DEK")));
            },
        };
        let ciphertext = match aead_seal(dek.as_slice(), data_nonce.as_slice(), plaintext) {
            Some(c) => c,
            None => {
                return Err(AppError::Internal(owned("failed to encrypt payload")));
            },
        };
        Ok(
            Envelope {
                key_id: self.key_id.clone(),
                wrap_nonce_b64: b64_encode(wrap_nonce.as_slice()),
                wrapped_dek_b64: b64_encode(wrapped_dek.as_slice()),
                data_nonce_b64: b64_encode(data_nonce.as_slice()),
                ciphertext_b64: b64_encode(ciphertext.as_slice()),
            },
        )
    }

    /// Opens an envelope under the master key.
    fn open(&self, kek: &Vec<u8>, env: &Envelope) -> (r: AppResult<Vec<u8>>)
        requires
            kek@.len() == 32,
        ensures
            match open_envelope(kek@, fields_of(*env)) {
                Some(p) => r is Ok && r->Ok_0@ == p,
                None => r is Err && r->Err_0 is Validation,
            },
    {
        let wrap_nonce = match b64_decode(env.wrap_nonce_b64.as_str()) {
            Ok(b) => b,
            Err(e) => {
                return Err(validation_with("invalid wrap nonce", e.as_str()));
            },
        };
        let wrapped_dek = match b64_decode(env.wrapped_dek_b64.as_str()) {
            Ok(b) => b,
            Err(e) => {
                return Err(validation_with("invalid wrapped dek", e.as_str()));
            },
        };
        let data_nonce = match b64_decode(env.data_nonce_b64.as_str()) {
            Ok(b) => b,
            Err(e) => {
                return Err(validation_with("invalid data nonce", e.as_str()));
            },
        };
        let ciphertext = match b64_decode(env.ciphertext_b64.as_str()) {
            Ok(b) => b,
            Err(e) => {
                return Err(validation_with("invalid ciphertext", e.as_str()));
            },
        };
        if wrap_nonce.len() != 24 {
            return Err(AppError::Validation(owned("invalid wrap nonce")));
        }
        if data_nonce.len() != 24 {
            return Err(AppError::Validation(owned("invalid data nonce")));
        }
        let dek = match aead_open(kek.as_slice(), wrap_nonce.as_slice(), wrapped_dek.as_slice()) {
            Some(d) => d,
            None => {
                return Err(AppError::Validation(owned("invalid wrapped DEK")));
            },
        };
        if dek.len() != 32 {
            return Err(AppError::Validation(owned("invalid wrapped DEK")));
        }
        match aead_open(dek.as_slice(), data_nonce.as_slice(), ciphertext.as_slice()) {
            Some(p) => Ok(p),
            None => Err(AppError::Validation(owned("invalid ciphertext"))),
        }
    }

    /// Encrypts message text for storage: unchanged without a master key;
    /// otherwise `enc:v1:` followed by the envelope text. Reading the result
    /// back with `decrypt_text` gives the plaintext.
    pub fn encrypt_text(&self, plaintext: &str) -> (r: AppResult<String>)
        ensures
            self.master_key() is None ==> r is Ok && r->Ok_0@ == plaintext@,
            self.master_key() is Some ==> (r is Ok <==> encode_utf8(plaintext@).len() / 64 < 0xFFFF_FFFF),
            self.master_key() is Some && r is Err ==> r->Err_0 is Internal,
            self.master_key() is Some && r is Ok ==> has_prefix(r->Ok_0@, "enc:v1:"@) && decrypt_text_spec(
                self.master_key(),
                r->Ok_0@,
            ) == Some(plaintext@) && (parse_envelope_text(r->Ok_0@.skip(7)) matches Some(f) && f.0
                == self.key_id_view()),
            self.master_key() is Some && r is Ok ==> r->Ok_0@.len() > plaintext@.len() && r->Ok_0@
                != plaintext@,
    {
        proof {
            use_type_invariant(self);
        }
        let kek = match &self.kek {
            None => {
                return Ok(owned(plaintext));
            },
            Some(k) => k,
        };
        let bytes = plaintext.as_bytes();
        let env = match self.seal(kek, bytes) {
            Ok(e) => e,
            Err(e) => {
                return Err(e);
            },
        };
        let json = encode_envelope(&env);
        let out = crate::text::concat_chars(&chars_of(MSG_PREFIX), &chars_of(json.as_str()));
        proof {
            reveal_strlit("enc:v1:");
            let p = "enc:v1:"@;
            assert(out@.take(7) =~= p);
            assert(out@.skip(7) =~= json@);
            crate::envelope::law_envelope_round_trip(fields_of(env));
            crate::envelope::lemma_envelope_text_len(fields_of(env));
            crate::text::lemma_utf8_len_at_least(plaintext@);
            vstd::utf8::encode_utf8_valid_utf8(plaintext@);
            vstd::utf8::encode_utf8_decode_utf8(plaintext@);
        }
        Ok(string_of(&out))
    }

    /// Reads stored message text: text without the `enc:v1:` prefix is
    /// returned as is; encrypted text is opened under the master key.
    pub fn decrypt_text(&self, value: &str) -> (r: AppResult<String>)
        ensures
            match decrypt_text_spec(self.master_key(), value@) {
                Some(t) => r is Ok && r->Ok_0@ == t,
                None => r is Err && if text_payload_opens(self.master_key(), value@) {
                    r->Err_0 is Internal
                } else {
                    r->Err_0 is Validation
                },
            },
            has_prefix(value@, "enc:v1:"@) && self.master_key() is None ==> r is Err
                && crate::error::is_validation(r->Err_0, "encrypted payload encountered without master key"@),
    {
        proof {
            use_type_invariant(self);
            reveal_strlit("enc:v1:");
        }
        let v = chars_of(value);
        let prefix = chars_of(MSG_PREFIX);
        if !crate::text::starts_with(&v, &prefix) {
            return Ok(owned(value));
        }
        let kek = match &self.kek {
            None => {
                return Err(AppError::Validation(owned("encrypted payload encountered without master key")));
            },
            Some(k) => k,
        };
        let rest = string_of(&skip_chars(&v, 7));
        let env = match decode_envelope(rest.as_str()) {
            Some(e) => e,
            None => {
                return Err(AppError::Validation(owned("invalid encrypted message payload")));
            },
        };
        let plain = match self.open(kek, &env) {
            Ok(p) => p,
            Err(e) => {
                return Err(e);
            },
        };
        match utf8_string(plain) {
            Some(s) => Ok(s),
            None => Err(AppError::Internal(owned("invalid utf-8 in decrypted message"))),
        }
    }

    /// Encrypts attachment bytes for storage: unchanged without a master
    /// key; otherwise `encb:v1:` followed by the envelope text's bytes.
    /// Reading the result back with `decrypt_bytes` gives the plaintext.
    pub fn encrypt_bytes(&self, plaintext: &[u8]) -> (r: AppResult<Vec<u8>>)
        ensures
            self.master_key() is None ==> r is Ok && r->Ok_0@ == plaintext@,
            self.master_key() is Some ==> (r is Ok <==> plaintext@.len() / 64 < 0xFFFF_FFFF),
            self.master_key() is Some && r is Err ==> r->Err_0 is Internal,
            self.master_key() is Some && r is Ok ==> decrypt_bytes_spec(self.master_key(), r->Ok_0@) == Some(
                plaintext@,
            ),
            self.master_key() is Some && r is Ok ==> r->Ok_0@.len() > plaintext@.len() && r->Ok_0@
                != plaintext@,
    {
        proof {
            use_type_invariant(self);
        }
        let kek = match &self.kek {
            None => {
                let mut out: Vec<u8> = Vec::new();
                let mut i: usize = 0;
                while i < plaintext.len()
                    invariant
                        i <= plaintext@.len(),
                        out@ == plaintext@.take(i as int),
                    decreases plaintext@.len() - i,
                {
                    out.push(plaintext[i]);
                    i = i + 1;
                    assert(out@ =~= plaintext@.take(i as int));
                }
                assert(plaintext@.take(plaintext@.len() as int) =~= plaintext@);
                return Ok(out);
            },
            Some(k) => k,
        };
        let env = match self.seal(kek, plaintext) {
            Ok(e) => e,
            Err(e) => {
                return Err(e);
            },
        };
        let json = encode_envelope(&env);
        let json_bytes = json.as_str().as_bytes_vec();
        let mut out: Vec<u8> = Vec::new();
        out.push(101u8);
        out.push(110u8);
        out.push(99u8);
        out.push(98u8);
        out.push(58u8);
        out.push(118u8);
        out.push(49u8);
        out.push(58u8);
        let mut i: usize = 0;
        while i < json_bytes.len()
            invariant
                i <= json_bytes.len(),
                out@ == bin_prefix() + json_bytes@.take(i as int),
            decreases json_bytes.len() - i,
        {
            out.push(json_bytes[i]);
            i = i + 1;
            assert(out@ =~= bin_prefix() + json_bytes@.take(i as int));
        }
        proof {
            assert(json_bytes@.take(json_bytes.len() as int) =~= json_bytes@);
            assert(out@.take(8) =~= bin_prefix());
            assert(out@.skip(8) =~= json_bytes@);
            vstd::utf8::encode_utf8_valid_utf8(json@);
            vstd::utf8::encode_utf8_decode_utf8(json@);
            crate::envelope::law_envelope_round_trip(fields_of(env));
            crate::envelope::lemma_envelope_text_len(fields_of(env));
            crate::text::lemma_utf8_len_at_least(json@);
        }
        Ok(out)
    }

    /// Reads stored attachment bytes: bytes without the `encb:v1:` prefix
    /// are returned as is; encrypted bytes are opened under the master key.
    pub fn decrypt_bytes(&self, value: &[u8]) -> (r: AppResult<Vec<u8>>)
        ensures
            match decrypt_bytes_spec(self.master_key(), value@) {
                Some(p) => r is Ok && r->Ok_0@ == p,
                None => r is Err && r->Err_0 is Validation,
            },
    {
        proof {
            use_type_invariant(self);
        }
        let has_prefix = value.len() >= 8 && value[0] == 101u8 && value[1] == 110u8 && value[2] == 99u8
            && value[3] == 98u8 && value[4] == 58u8 && value[5] == 118u8 && value[6] == 49u8 && value[7]
            == 58u8;
        proof {
            if value@.len() >= 8 {
                if has_prefix {
                    assert(value@.take(8) =~= bin_prefix());
                } else {
                    if value@.take(8) == bin_prefix() {
                        assert(value@.take(8)[0] == value@[0]);
                        assert(value@.take(8)[7] == value@[7]);
                    }
                }
            }
        }
        let mut copy: Vec<u8> = Vec::new();
        let start: usize = if has_prefix {
            8
        } else {
            0
        };
        let mut i: usize = start;
        while i < value.len()
            invariant
                start <= i <= value@.len(),
                copy@ == value@.subrange(start as int, i as int),
            decreases value@.len() - i,
        {
            copy.push(value[i]);
            i = i + 1;
            assert(copy@ =~= value@.subrange(start as int, i as int));
        }
        if !has_prefix {
            assert(copy@ =~= value@);
            return Ok(copy);
        }
        let kek = match &self.kek {
            None => {
                return Err(AppError::Validation(owned("encrypted attachment encountered without master key")));
            },
            Some(k) => k,
        };
        assert(copy@ =~= value@.skip(8));
        let text = match utf8_string(copy) {
            Some(t) => t,
            None => {
                return Err(AppError::Validation(owned("invalid encrypted attachment payload")));
            },
        };
        let env = match decode_envelope(text.as_str()) {
            Some(e) => e,
            None => {
                return Err(AppError::Validation(owned("invalid encrypted attachment payload")));
            },
        };
        self.open(kek, &env)
    }
}

} // verus!
