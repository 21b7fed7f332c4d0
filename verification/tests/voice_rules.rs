use harbour_chat::error::AppError;
use harbour_chat::voice::{
    ice_servers, require_open_session, session_expiry_ms, sfu_outcome, sfu_url,
    signed_turn_credentials, turn_credentials_at, SfuReply,
};

#[test]
fn turn_credentials_use_at_least_a_minute() {
    let (user, cred) = turn_credentials_at("harbour-dev-turn-secret", 30, "user-1", 1_700_000_000);
    assert_eq!(user, "1700000060:user-1");
    assert_eq!(cred, "6iDAlJvkzqvURhc0iF1SdV38H8s=");
    let (user, cred) = turn_credentials_at("harbour-dev-turn-secret", 3600, "user-1", 1_700_000_000);
    assert_eq!(user, "1700003600:user-1");
    assert_eq!(cred, "VoQndZHm0/7vZ9iWVSC2WMyRfvE=");
}

#[test]
fn turn_credentials_now() {
    let (user, cred) = signed_turn_credentials("s", 3600, "u").expect("in range");
    assert!(user.ends_with(":u"));
    assert_eq!(cred.len(), 28);
    assert!(signed_turn_credentials("s", i64::MAX, "u").is_none());
}

#[test]
fn ice_server_choice() {
    let stun = ice_servers(&vec![], "u".into(), "c".into());
    assert_eq!(stun.len(), 1);
    assert_eq!(stun[0].urls, vec!["stun:stun.l.google.com:19302"]);
    assert!(stun[0].username.is_none());
    let turn = ice_servers(&vec!["turn:a".to_string()], "u".into(), "c".into());
    assert_eq!(turn[0].urls, vec!["turn:a"]);
    assert_eq!(turn[0].username.as_deref(), Some("u"));
    assert_eq!(turn[0].credential.as_deref(), Some("c"));
}

#[test]
fn sfu_urls_drop_trailing_slashes() {
    assert_eq!(sfu_url("http://sfu:4000//", "/v1/transports"), "http://sfu:4000/v1/transports");
    assert_eq!(sfu_url("http://sfu:4000", "/v1/sessions/bootstrap"), "http://sfu:4000/v1/sessions/bootstrap");
    assert_eq!(sfu_url("/", "/x"), "/x");
}

#[test]
fn sfu_reply_outcomes() {
    assert_eq!(sfu_outcome("r", "m", SfuReply::Accepted(5), 0).unwrap(), 5);
    assert_eq!(sfu_outcome("r", "m", SfuReply::Unreachable, 7).unwrap(), 7);
    match sfu_outcome("sfu create transport rejected", "m", SfuReply::Rejected { status: "502 Bad Gateway".into(), body: "down".into() }, 0) {
        Err(AppError::Internal(m)) => assert_eq!(m, "sfu create transport rejected: 502 Bad Gateway down"),
        other => panic!("unexpected {other:?}"),
    }
    match sfu_outcome("r", "invalid transport payload", SfuReply::<i32>::Malformed("missing field".into()), 0) {
        Err(AppError::Internal(m)) => assert_eq!(m, "invalid transport payload: missing field"),
        other => panic!("unexpected {other:?}"),
    }
}

#[test]
fn sessions_must_be_open() {
    assert!(require_open_session(true).is_ok());
    match require_open_session(false) {
        Err(AppError::NotFound(m)) => assert_eq!(m, "voice session not found"),
        other => panic!("unexpected {other:?}"),
    }
    assert_eq!(session_expiry_ms(1_000), 901_000);
}
