//! Voice media rules: TURN credentials, the ICE servers offered to
//! clients, SFU endpoint URLs, and what an SFU reply turns into.
use hmac::Mac;
use vstd::prelude::*;
use vstd::utf8::encode_utf8;

use crate::crypto::{b64_encode, b64_encode_spec};
use crate::entities::IceServer;
use crate::error::{AppError, AppResult};
use crate::num::{signed_decimal, signed_decimal_chars};
use crate::text::{chars_of, concat_chars, owned, string_of};

verus! {

/// Largest Unix timestamp (seconds) the date library represents: the end
/// of year 262142.
pub const MAX_TIMESTAMP_SECS: i64 = 8_210_266_876_799;

/// Largest whole number of seconds a time span can hold.
pub const MAX_SPAN_SECS: i64 = 9_223_372_036_854_775;

/// Public STUN server offered when no TURN server is configured.
pub const DEFAULT_STUN_URL: &'static str = "stun:stun.l.google.com:19302";

/// The HMAC-SHA1 tag of a message under a key.
pub uninterp spec fn hmac_sha1_spec(key: Seq<u8>, message: Seq<u8>) -> Seq<u8>;

/// HMAC-SHA1 (hmac `Hmac::<Sha1>::new_from_slice`, `update`, `finalize`).
/// Claimed: the 20-byte tag is `hmac_sha1_spec(key, message)`; keys of any
/// length are accepted, so creating the MAC never fails.
#[verifier::external_body]
fn hmac_sha1(key: &[u8], message: &[u8]) -> (r: Vec<u8>)
    ensures
        r@ == hmac_sha1_spec(key@, message@),
        r@.len() == 20,
{
    let mut mac = hmac::Hmac::<sha1::Sha1>::new_from_slice(key).expect(
        "HMAC can take key of any size",
    );
    mac.update(message);
    mac.finalize().into_bytes().to_vec()
}

/// The current time as a Unix timestamp in seconds (chrono `Utc::now().timestamp()`).
/// Claimed: only that it lies in the range the date library represents.
#[verifier::external_body]
fn now_unix_seconds() -> (r: i64)
    ensures
        -8_334_601_228_800 <= r <= MAX_TIMESTAMP_SECS,
{
    chrono::Utc::now().timestamp()
}

/// The lifetime of TURN credentials: the configured one, at least a minute.
pub open spec fn turn_ttl(ttl: int) -> int {
    if ttl < 60 {
        60
    } else {
        ttl
    }
}

/// The TURN user name: the expiry timestamp, `:`, and the user id.
pub open spec fn turn_username(expiry: int, user_id: Seq<char>) -> Seq<char> {
    signed_decimal(expiry) + ":"@ + user_id
}

/// The TURN password: base64 of the HMAC-SHA1 of the user name under the
/// shared secret.
pub open spec fn turn_credential(secret: Seq<char>, username: Seq<char>) -> Seq<char> {
    b64_encode_spec(hmac_sha1_spec(encode_utf8(secret), encode_utf8(username)))
}

/// Whether credentials can be issued at `now`: the lifetime fits in a
/// time span and the expiry stays in the representable range.
pub open spec fn turn_window_ok(ttl: int, now: int) -> bool {
    turn_ttl(ttl) <= MAX_SPAN_SECS && now + turn_ttl(ttl) <= MAX_TIMESTAMP_SECS
}

/// Time-limited TURN credentials (user name and password) for `user_id`
/// issued at `now` (Unix seconds), valid for the TTL but at least a minute.
pub fn turn_credentials_at(secret: &str, ttl: i64, user_id: &str, now: i64) -> (r: (String, String))
    requires
        turn_window_ok(ttl as int, now as int),
    ensures
        r.0@ == turn_username(now + turn_ttl(ttl as int), user_id@),
        r.1@ == turn_credential(secret@, r.0@),
{
    let lifetime: i64 = if ttl < 60 {
        60
    } else {
        ttl
    };
    let expiry: i64 = now + lifetime;
    let head = concat_chars(&signed_decimal_chars(expiry), &chars_of(":"));
    let username = string_of(&concat_chars(&head, &chars_of(user_id)));
    let tag = hmac_sha1(secret.as_bytes(), username.as_str().as_bytes());
    let credential = b64_encode(tag.as_slice());
    (username, credential)
}

/// TURN credentials issued now; `None` where the clock puts the expiry
/// out of the representable range, where the date arithmetic would fail.
pub fn signed_turn_credentials(secret: &str, ttl: i64, user_id: &str) -> (r: Option<(String, String)>)
    ensures
        turn_ttl(ttl as int) > MAX_SPAN_SECS ==> r is None,
        match r {
            Some(pair) => exists|now: int|
                turn_window_ok(ttl as int, now) && pair.0@ == turn_username(
                    now + turn_ttl(ttl as int),
                    user_id@,
                ) && pair.1@ == turn_credential(secret@, pair.0@),
            None => true,
        },
{
    let now = now_unix_seconds();
    let lifetime: i64 = if ttl < 60 {
        60
    } else {
        ttl
    };
    if lifetime > MAX_SPAN_SECS || now > MAX_TIMESTAMP_SECS - lifetime {
        return None;
    }
    let creds = turn_credentials_at(secret, ttl, user_id, now);
    assert(turn_window_ok(ttl as int, now as int));
    Some(creds)
}

fn copy_strings(v: &Vec<String>) -> (r: Vec<String>)
    ensures
        r@ == v@,
{
    let mut out: Vec<String> = Vec::new();
    let mut i: usize = 0;
    while i < v.len()
        invariant
            i <= v.len(),
            out@ == v@.take(i as int),
        decreases v.len() - i,
    {
        out.push(v[i].clone());
        i = i + 1;
        assert(out@ =~= v@.take(i as int));
    }
    assert(v@.take(v.len() as int) =~= v@);
    out
}

/// The ICE servers offered to a voice client: the public STUN server when
/// no TURN server is configured, else the TURN servers with the
/// credentials.
pub fn ice_servers(turn_urls: &Vec<String>, username: String, credential: String) -> (r: Vec<IceServer>)
    ensures
        r.len() == 1,
        turn_urls.len() == 0 ==> r[0].urls.len() == 1 && r[0].urls[0]@ == DEFAULT_STUN_URL@
            && r[0].username is None && r[0].credential is None,
        turn_urls.len() > 0 ==> r[0].urls@ == turn_urls@ && r[0].username == Some(username)
            && r[0].credential == Some(credential),
{
    if turn_urls.len() == 0 {
        let mut urls: Vec<String> = Vec::new();
        urls.push(owned(DEFAULT_STUN_URL));
        vec![IceServer { urls, username: None, credential: None }]
    } else {
        vec![
            IceServer {
                urls: copy_strings(turn_urls),
                username: Some(username),
                credential: Some(credential),
            },
        ]
    }
}

/// `s` without its trailing `c` characters (as `trim_end_matches(c)`).
pub open spec fn trim_trailing(s: Seq<char>, c: char) -> Seq<char>
    decreases s.len(),
{
    if s.len() > 0 && s.last() == c {
        trim_trailing(s.drop_last(), c)
    } else {
        s
    }
}

/// The URL of an SFU endpoint: the base URL without trailing slashes,
/// then the path.
pub fn sfu_url(base: &str, path: &str) -> (r: String)
    ensures
        r@ == trim_trailing(base@, '/') + path@,
{
    let v = chars_of(base);
    let mut n: usize = v.len();
    assert(v@.take(n as int) =~= v@);
    while n > 0 && v[n - 1] == '/'
        invariant
            n <= v.len(),
            trim_trailing(v@.take(n as int), '/') == trim_trailing(v@, '/'),
        decreases n,
    {
        assert(v@.take(n as int).drop_last() =~= v@.take(n - 1));
        n = n - 1;
    }
    let head = crate::text::take_chars(&v, n);
    string_of(&concat_chars(&head, &chars_of(path)))
}

/// The reply of the SFU to a request.
pub enum SfuReply<T> {
    /// A success status with a readable payload.
    Accepted(T),
    /// A success status whose payload could not be read (the reason).
    Malformed(String),
    /// Another status (its text) and the response body.
    Rejected { status: String, body: String },
    /// The SFU could not be reached.
    Unreachable,
}

/// `context: status body`.
pub open spec fn rejection_msg(context: Seq<char>, status: Seq<char>, body: Seq<char>) -> Seq<char> {
    context + ": "@ + status + " "@ + body
}

/// What an SFU reply turns into: the payload when accepted; an internal
/// error when the payload is unreadable (`malformed_context: reason`) or
/// the request was rejected (`rejected_context: status body`); and the
/// local fallback when the SFU cannot be reached.
pub fn sfu_outcome<T>(rejected_context: &str, malformed_context: &str, reply: SfuReply<T>, fallback: T) -> (r:
    AppResult<T>)
    ensures
        match reply {
            SfuReply::Accepted(p) => r == Ok::<T, AppError>(p),
            SfuReply::Malformed(reason) => r matches Err(AppError::Internal(m)) && m@
                == malformed_context@ + ": "@ + reason@,
            SfuReply::Rejected { status, body } => r matches Err(AppError::Internal(m)) && m@
                == rejection_msg(rejected_context@, status@, body@),
            SfuReply::Unreachable => r == Ok::<T, AppError>(fallback),
        },
{
    match reply {
        SfuReply::Accepted(p) => Ok(p),
        SfuReply::Malformed(reason) => {
            let m = concat_chars(&chars_of(malformed_context), &chars_of(": "));
            let m = concat_chars(&m, &chars_of(reason.as_str()));
            Err(AppError::Internal(string_of(&m)))
        },
        SfuReply::Rejected { status, body } => {
            let m = concat_chars(&chars_of(rejected_context), &chars_of(": "));
            let m = concat_chars(&m, &chars_of(status.as_str()));
            let m = concat_chars(&m, &chars_of(" "));
            let m = concat_chars(&m, &chars_of(body.as_str()));
            Err(AppError::Internal(string_of(&m)))
        },
        SfuReply::Unreachable => Ok(fallback),
    }
}

/// A voice session must exist and be open.
pub fn require_open_session(found: bool) -> (r: AppResult<()>)
    ensures
        found ==> r is Ok,
        !found ==> (r matches Err(AppError::NotFound(m)) && m@ == "voice session not found"@),
{
    if found {
        Ok(())
    } else {
        Err(AppError::NotFound(owned("voice session not found")))
    }
}

/// Lifetime of a voice media session, in milliseconds (15 minutes).
pub const SESSION_TTL_MS: i64 = 900_000;

/// When a voice media session created at `now_ms` expires.
pub fn session_expiry_ms(now_ms: i64) -> (r: i64)
    requires
        now_ms + SESSION_TTL_MS <= i64::MAX,
    ensures
        r == now_ms + SESSION_TTL_MS,
{
    now_ms + SESSION_TTL_MS
}

} // verus!
