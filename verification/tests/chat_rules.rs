use harbour_chat::chat::{
    channel_access, check_add_member, check_create_channel, check_delete_target, check_dm_peer,
    check_editable, check_reply_target, check_voice_channel, dm_inbox_preview, dm_pair,
    dm_share_target, home_join, inbox_preview, member_lookup, message_page_limit, open_inbox_previews,
    open_message, open_messages, parse_channel_kind, parse_presence_status, reactions_for_message,
    str_lt, subscribe_needs_channel_access,
    typing_expiry, validate_emoji, validate_message_content, ChannelAccess, MemberLookup,
    BOARD_FEED_TOPIC, HARBOUR_HOME_SERVER_ID,
};
use harbour_chat::crypto::EnvelopeCrypto;
use harbour_chat::entities::{
    Channel, ChannelType, DmInboxEntry, Member, MemberRole, Message, PresenceStatus, ReplyPreview,
};
use harbour_chat::error::AppError;

const TEST_KEY: &str = "QkJCQkJCQkJCQkJCQkJCQkJCQkJCQkJCQkJCQkJCQkI=";

fn crypto() -> EnvelopeCrypto {
    EnvelopeCrypto::new("test-v1".into(), Some(TEST_KEY.into())).unwrap()
}

fn member(role: MemberRole) -> Member {
    Member {
        server_id: "s1".into(),
        user_id: "u1".into(),
        role,
        joined_at: 0,
        display_name: None,
    }
}

fn channel(kind: ChannelType, server: Option<&str>) -> Channel {
    Channel {
        id: "c1".into(),
        server_id: server.map(|s| s.to_string()),
        category_id: None,
        channel_type: kind,
        name: "general".into(),
        position: 0,
        created_at: 0,
        updated_at: 0,
    }
}

fn message(content: &str, reply_to: Option<ReplyPreview>) -> Message {
    Message {
        id: "m1".into(),
        channel_id: "c1".into(),
        author_user_id: "u1".into(),
        author_display_name: Some("Alice".into()),
        content: content.into(),
        created_at: 1,
        edited_at: None,
        deleted_at: None,
        reply_to_message_id: reply_to.as_ref().map(|r| r.id.clone()),
        reply_to,
        reactions: vec![],
        attachment: None,
    }
}

#[test]
fn message_content_rules() {
    assert_eq!(validate_message_content("  hi  ").unwrap(), "hi");
    assert!(matches!(validate_message_content("   "), Err(AppError::Validation(m)) if m == "content is required"));
    let long = "a".repeat(4001);
    assert!(matches!(validate_message_content(&long), Err(AppError::Validation(m)) if m == "content must be at most 4000 characters"));
    assert!(validate_message_content(&"a".repeat(4000)).is_ok());
}

#[test]
fn reply_target_rules() {
    let parent = message("x", None);
    assert!(check_reply_target(Some(&parent), "c1").is_ok());
    assert!(matches!(check_reply_target(Some(&parent), "c2"), Err(AppError::Validation(_))));
    assert!(matches!(check_reply_target(None, "c1"), Err(AppError::NotFound(m)) if m == "reply target not found"));
}

#[test]
fn membership_and_access() {
    assert!(matches!(member_lookup("s1", Some(member(MemberRole::Member))), MemberLookup::Member(_)));
    assert!(matches!(member_lookup(HARBOUR_HOME_SERVER_ID, None), MemberLookup::JoinHome));
    assert!(matches!(member_lookup("s1", None), MemberLookup::Forbidden));
    assert!(matches!(home_join(true), Ok(MemberRole::Member)));
    assert!(matches!(home_join(false), Err(AppError::Forbidden)));
    assert!(matches!(channel_access(None), ChannelAccess::Deny(AppError::NotFound(_))));
    let c = channel(ChannelType::Text, Some("s1"));
    assert!(matches!(channel_access(Some(&c)), ChannelAccess::CheckMember(s) if s == "s1"));
    assert!(!subscribe_needs_channel_access(BOARD_FEED_TOPIC));
    assert!(subscribe_needs_channel_access("c1"));
}

#[test]
fn server_and_channel_management() {
    assert!(matches!(check_delete_target(HARBOUR_HOME_SERVER_ID), Err(AppError::Forbidden)));
    assert!(check_delete_target("s1").is_ok());
    assert!(matches!(check_add_member(&member(MemberRole::Member), "u2"), Err(AppError::Forbidden)));
    assert!(matches!(check_add_member(&member(MemberRole::Admin), "  "), Err(AppError::Validation(m)) if m == "userId is required"));
    assert!(check_add_member(&member(MemberRole::Owner), "u2").is_ok());
    assert_eq!(check_create_channel(HARBOUR_HOME_SERVER_ID, &member(MemberRole::Member), " voice ").unwrap(), "voice");
    assert!(matches!(check_create_channel("s1", &member(MemberRole::Member), "x"), Err(AppError::Forbidden)));
}

#[test]
fn harbour_home_member_can_create_voice_channel_rule() {
    assert_eq!(
        check_create_channel(HARBOUR_HOME_SERVER_ID, &member(MemberRole::Member), "Lounge").unwrap(),
        "Lounge"
    );
    assert!(check_voice_channel(Some(&channel(ChannelType::Voice, Some("s1")))).is_ok());
    assert!(matches!(check_voice_channel(Some(&channel(ChannelType::Text, Some("s1")))), Err(AppError::Validation(m)) if m == "channel is not voice"));
}

#[test]
fn misc_limits() {
    assert_eq!(message_page_limit(0), 1);
    assert_eq!(message_page_limit(50), 50);
    assert_eq!(message_page_limit(500), 100);
    assert_eq!(typing_expiry(1_000), 9_000);
    assert_eq!(validate_emoji(" 👍 ").unwrap(), "👍");
    assert!(matches!(check_dm_peer("u1", "u1"), Err(AppError::Validation(m)) if m == "cannot DM yourself"));
    let mut deleted = message("x", None);
    deleted.deleted_at = Some(5);
    assert!(matches!(check_editable(&deleted), Err(AppError::Conflict(m)) if m == "message is deleted"));
}

#[test]
fn dm_pairs_are_ordered_and_symmetric() {
    let (a, b, id) = dm_pair("zed", "amy");
    assert_eq!((a.as_str(), b.as_str(), id.as_str()), ("amy", "zed", "dm-amy-zed"));
    let (a2, b2, id2) = dm_pair("amy", "zed");
    assert_eq!((a2, b2, id2), (a, b, id));
    assert!(str_lt("ab", "b"));
    assert!(!str_lt("b", "ab"));
    assert!(str_lt("a", "ab"));
}

#[test]
fn reaction_summaries_group_by_emoji() {
    let rows = vec![
        ("m1".to_string(), "👍".to_string(), "u1".to_string()),
        ("m2".to_string(), "👍".to_string(), "u9".to_string()),
        ("m1".to_string(), "🎉".to_string(), "u2".to_string()),
        ("m1".to_string(), "👍".to_string(), "u3".to_string()),
    ];
    let sums = reactions_for_message(&rows, "m1");
    assert_eq!(sums.len(), 2);
    assert_eq!(sums[0].emoji, "👍");
    assert_eq!(sums[0].count, 2);
    assert_eq!(sums[0].user_ids, vec!["u1", "u3"]);
    assert_eq!(sums[1].emoji, "🎉");
    assert_eq!(sums[1].user_ids, vec!["u2"]);
}

#[test]
fn reply_message_includes_quoted_preview_opened() {
    let c = crypto();
    let sealed_parent = c.encrypt_text("parent text").unwrap();
    let sealed = c.encrypt_text("child text").unwrap();
    let preview = ReplyPreview {
        id: "p1".into(),
        author_user_id: "u2".into(),
        author_display_name: None,
        content: sealed_parent,
        deleted_at: None,
    };
    let mut m = message(&sealed, Some(preview));
    open_message(&c, &mut m).unwrap();
    assert_eq!(m.content, "child text");
    assert_eq!(m.reply_to.as_ref().unwrap().content, "parent text");
    assert_eq!(m.reply_to.as_ref().unwrap().id, "p1");
}

#[test]
fn deleted_parent_preview_is_blank() {
    let c = crypto();
    let preview = ReplyPreview {
        id: "p1".into(),
        author_user_id: "u2".into(),
        author_display_name: None,
        content: "enc:v1:not even valid".into(),
        deleted_at: Some(3),
    };
    let mut m = message("plain", Some(preview));
    open_message(&c, &mut m).unwrap();
    assert_eq!(m.content, "plain");
    assert_eq!(m.reply_to.unwrap().content, "");
}

#[test]
fn unopenable_message_fails_the_list() {
    let c = crypto();
    let good = c.encrypt_text("ok").unwrap();
    let mut list = vec![message(&good, None), message("enc:v1:{broken", None)];
    assert!(matches!(open_messages(&c, &mut list), Err(AppError::Validation(_))));
    let mut list = vec![message(&good, None), message("plain", None)];
    open_messages(&c, &mut list).unwrap();
    assert_eq!(list[0].content, "ok");
    assert_eq!(list[1].content, "plain");
}

#[test]
fn inbox_previews_fall_back_to_encrypted_marker() {
    let c = crypto();
    let sealed = c.encrypt_text("hello").unwrap();
    assert_eq!(dm_inbox_preview(&c, &sealed), "hello");
    let no_key = EnvelopeCrypto::new("k".into(), None).unwrap();
    assert_eq!(dm_inbox_preview(&no_key, &sealed), "[encrypted]");
    assert_eq!(inbox_preview(Err(AppError::Forbidden)), "[encrypted]");
    let mut entries = vec![
        DmInboxEntry {
            channel_id: "c".into(),
            other_user_id: "u2".into(),
            other_display_name: Some("Bo".into()),
            last_message_preview: Some(sealed.clone()),
            unread_count: 2,
            updated_at: 9,
        },
        DmInboxEntry {
            channel_id: "d".into(),
            other_user_id: "u3".into(),
            other_display_name: None,
            last_message_preview: None,
            unread_count: 0,
            updated_at: 1,
        },
    ];
    open_inbox_previews(&c, &mut entries);
    assert_eq!(entries[0].last_message_preview.as_deref(), Some("hello"));
    assert_eq!(entries[0].unread_count, 2);
    assert!(entries[1].last_message_preview.is_none());
    let target = dm_share_target(&entries[1]);
    assert_eq!(target.label, "Direct · u3");
    assert_eq!(target.kind, "dm");
}

#[test]
fn request_kinds_and_statuses() {
    assert_eq!(parse_channel_kind(None).unwrap(), ChannelType::Text);
    assert_eq!(parse_channel_kind(Some("voice")).unwrap(), ChannelType::Voice);
    assert!(matches!(parse_channel_kind(Some("dm")), Err(AppError::Validation(m)) if m == "unsupported channel type: dm"));
    assert_eq!(parse_presence_status(None).unwrap(), PresenceStatus::Online);
    assert_eq!(parse_presence_status(Some("dnd")).unwrap(), PresenceStatus::Dnd);
    assert!(matches!(parse_presence_status(Some("busy")), Err(AppError::Validation(m)) if m == "invalid presence status"));
}
