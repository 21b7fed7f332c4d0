use harbour_chat::config::{migration_path_hint, split_url_list, Config, EnvVars};
use harbour_chat::error::AppError;

fn s(v: &str) -> Option<String> {
    Some(v.to_string())
}

#[test]
fn defaults_when_nothing_is_set() {
    let c = Config::from_env_vars(EnvVars::default(), "1.2.3".into());
    assert_eq!(c.port, 3004);
    assert_eq!(c.db_path, "./data/chat.db");
    assert_eq!(c.data_dir, "./data");
    assert!(c.trust_gateway_headers);
    assert_eq!(c.package_name, "harbour-chat");
    assert_eq!(c.package_version, "1.2.3");
    assert_eq!(c.max_attachment_bytes, 10 * 1024 * 1024);
    assert!(c.require_https_forwarded_proto);
    assert!(c.enable_security_audit_log);
    assert!(c.quarantine_suspicious_attachments);
    assert_eq!(c.master_key_id, "local-v1");
    assert_eq!(c.voice_sfu_base_url, "http://harbour-chat-sfu:4000");
    assert!(c.voice_turn_urls.is_empty());
    assert_eq!(c.voice_turn_secret, "harbour-dev-turn-secret");
    assert_eq!(c.voice_turn_ttl_seconds, 3600);
    assert_eq!(c.portcullis_forward_url, "http://harbour-portcullis:3000/auth/forward");
    assert_eq!(c.forward_auth_host, "chat.harbour.local");
}

#[test]
fn values_read_from_variables() {
    let vars = EnvVars {
        port: s("8080"),
        trust_gateway_headers: s("TRUE"),
        chat_max_attachment_bytes: s("+2048"),
        chat_require_https_forwarded_proto: s("0"),
        chat_enable_security_audit_log: s("false"),
        chat_quarantine_suspicious_attachments: s("no"),
        chat_voice_turn_urls: s(" turn:a:3478 , ,turn:b:3478,"),
        chat_voice_turn_ttl_seconds: s("-5"),
        chat_master_key_id: s("prod-v2"),
        ..EnvVars::default()
    };
    let c = Config::from_env_vars(vars, "x".into());
    assert_eq!(c.port, 8080);
    assert!(!c.trust_gateway_headers);
    assert_eq!(c.max_attachment_bytes, 2048);
    assert!(!c.require_https_forwarded_proto);
    assert!(!c.enable_security_audit_log);
    assert!(c.quarantine_suspicious_attachments);
    assert_eq!(c.voice_turn_urls, vec!["turn:a:3478", "turn:b:3478"]);
    assert_eq!(c.voice_turn_ttl_seconds, -5);
    assert_eq!(c.master_key_id, "prod-v2");
}

#[test]
fn unreadable_numbers_fall_back() {
    let vars = EnvVars {
        port: s("70000"),
        chat_max_attachment_bytes: s("12MB"),
        chat_voice_turn_ttl_seconds: s(""),
        ..EnvVars::default()
    };
    let c = Config::from_env_vars(vars, "x".into());
    assert_eq!(c.port, 3004);
    assert_eq!(c.max_attachment_bytes, 10 * 1024 * 1024);
    assert_eq!(c.voice_turn_ttl_seconds, 3600);
}

#[test]
fn url_list_pieces() {
    assert_eq!(split_url_list("a,b"), vec!["a", "b"]);
    assert!(split_url_list("").is_empty());
    assert!(split_url_list(" , ").is_empty());
    assert_eq!(split_url_list("  one  "), vec!["one"]);
}

#[test]
fn test_settings() {
    let c = Config::for_test("/tmp/t.db".into(), "/tmp/harbour-chat-test".into());
    assert_eq!(c.port, 0);
    assert_eq!(c.db_path, "/tmp/t.db");
    assert!(!c.trust_gateway_headers);
    assert_eq!(c.dev_user_id.as_deref(), Some("dev-user"));
    assert_eq!(c.master_key_id, "test-v1");
    assert_eq!(c.voice_turn_urls, vec!["stun:stun.l.google.com:19302"]);
    assert!(c.validate_runtime().is_ok());
}

#[test]
fn gateway_mode_rejects_startup_without_proxy_token() {
    let mut config = Config::for_test("/tmp/invalid.db".into(), "/tmp/harbour-chat-test".into());
    config.trust_gateway_headers = true;
    config.trusted_proxy_token = None;
    assert!(matches!(config.validate_runtime(), Err(AppError::Validation(_))));
    config.trusted_proxy_token = Some("secret".into());
    assert!(config.validate_runtime().is_ok());
}

#[test]
fn gateway_mode_needs_a_master_key_too() {
    let mut config = Config::for_test("/tmp/invalid.db".into(), "/tmp/harbour-chat-test".into());
    config.trust_gateway_headers = true;
    config.trusted_proxy_token = Some("secret".into());
    config.master_key_b64 = Some("  ".into());
    assert!(matches!(config.validate_runtime(), Err(AppError::Validation(m)) if m == "CHAT_MASTER_KEY_B64 is required when TRUST_GATEWAY_HEADERS=true"));
    config.trusted_proxy_token = None;
    assert!(matches!(config.validate_runtime(), Err(AppError::Validation(m)) if m == "CHAT_TRUSTED_PROXY_TOKEN is required when TRUST_GATEWAY_HEADERS=true"));
    config.trust_gateway_headers = false;
    assert!(config.validate_runtime().is_ok());
}

#[test]
fn migration_hint_is_the_path() {
    assert_eq!(migration_path_hint("./migrations"), "./migrations");
}
