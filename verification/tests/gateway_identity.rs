use harbour_chat::error::AppError;
use harbour_chat::gateway::{
    decide_identity, has_board_scope, identity_from_headers, security_headers, session_identity,
    GatewayRequest, IdentityDecision, TrustSettings,
};

fn settings(trust: bool, https: bool, token: Option<&str>) -> TrustSettings {
    TrustSettings {
        trust_gateway_headers: trust,
        require_https_forwarded_proto: https,
        trusted_proxy_token: token.map(|t| t.to_string()),
        dev_user_id: Some("dev-user".into()),
        dev_user_email: None,
        dev_user_display_name: Some("Dev User".into()),
    }
}

fn request(path: &str, proto: Option<&str>, token: Option<&str>, user: Option<&str>) -> GatewayRequest {
    GatewayRequest {
        path: path.into(),
        forwarded_proto: proto.map(|s| s.to_string()),
        proxy_token: token.map(|s| s.to_string()),
        has_user_id_header: user.is_some(),
        user_id: user.map(|s| s.to_string()),
        email: Some(" a@b.c ".into()),
        scopes: Some("app:chat app:board".into()),
        display_name: Some("Alice".into()),
        cookie: Some("harbour_session=abc".into()),
    }
}

#[test]
fn trusted_header_mode_rejects_non_https_proto() {
    let s = settings(true, true, None);
    let r = decide_identity(&s, &request("/api/me", Some("http"), None, Some("u1")));
    assert!(matches!(r, IdentityDecision::Reject(AppError::Unauthorized)));
    let r = decide_identity(&s, &request("/api/me", None, None, Some("u1")));
    assert!(matches!(r, IdentityDecision::Reject(AppError::Unauthorized)));
}

#[test]
fn trusted_headers_give_the_identity() {
    let s = settings(true, true, Some("tok"));
    match decide_identity(&s, &request("/api/me", Some("https"), Some("tok"), Some(" u1 "))) {
        IdentityDecision::Accept(id) => {
            assert_eq!(id.id, "u1");
            assert_eq!(id.email, "a@b.c");
            assert_eq!(id.display_name.as_deref(), Some("Alice"));
        }
        _ => panic!("expected accept"),
    }
    let r = decide_identity(&s, &request("/api/me", Some("https"), Some("bad"), Some("u1")));
    assert!(matches!(r, IdentityDecision::Reject(AppError::Unauthorized)));
}

#[test]
fn websocket_without_headers_looks_up_the_session() {
    let s = settings(true, false, None);
    match decide_identity(&s, &request("/api/ws", None, None, None)) {
        IdentityDecision::LookupSession(v) => assert_eq!(v, "abc"),
        _ => panic!("expected session lookup"),
    }
    let r = decide_identity(&s, &request("/api/me", None, None, None));
    assert!(matches!(r, IdentityDecision::Reject(AppError::Unauthorized)));
}

#[test]
fn dev_mode_uses_the_dev_user() {
    let s = settings(false, true, None);
    match decide_identity(&s, &request("/api/me", Some("http"), None, None)) {
        IdentityDecision::Accept(id) => {
            assert_eq!(id.id, "dev-user");
            assert_eq!(id.email, "dev-user@dev.local");
        }
        _ => panic!("expected dev user"),
    }
    let mut s = s;
    s.dev_user_id = None;
    let r = decide_identity(&s, &request("/api/me", None, None, None));
    assert!(matches!(r, IdentityDecision::Reject(AppError::Unauthorized)));
}

#[test]
fn scope_and_headers_required() {
    assert!(has_board_scope("app:board"));
    assert!(has_board_scope("x app:board\ty"));
    assert!(!has_board_scope("app:boards"));
    assert!(!has_board_scope("xapp:board"));
    let r = identity_from_headers(&Some("u".into()), &Some("e".into()), &Some("app:chat".into()), &None);
    assert!(matches!(r, Err(AppError::Unauthorized)));
    let r = identity_from_headers(&Some("  ".into()), &Some("e".into()), &Some("app:board".into()), &None);
    assert!(matches!(r, Err(AppError::Unauthorized)));
    assert!(matches!(session_identity(false, &Some("u".into()), &Some("e".into()), &Some("app:board".into()), &None), Err(AppError::Unauthorized)));
    assert!(session_identity(true, &Some("u".into()), &Some("e".into()), &Some("app:board".into()), &None).is_ok());
}

#[test]
fn api_sets_transport_security_headers() {
    let h = security_headers();
    assert_eq!(h.len(), 4);
    assert!(h.contains(&("x-content-type-options", "nosniff")));
    assert!(h.contains(&("x-frame-options", "DENY")));
    assert!(h.contains(&("referrer-policy", "no-referrer")));
    assert!(h.contains(&("strict-transport-security", "max-age=31536000; includeSubDomains")));
}
