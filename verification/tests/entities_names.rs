use harbour_chat::entities::{ChannelType, MemberRole, PresenceStatus, UserSettings};

#[test]
fn channel_type_names() {
    for t in [ChannelType::Text, ChannelType::Voice, ChannelType::Dm] {
        assert_eq!(ChannelType::from_str(t.as_str()), Some(t));
    }
    assert_eq!(ChannelType::Voice.as_str(), "voice");
    assert_eq!(ChannelType::from_str("Voice"), None);
}

#[test]
fn presence_names() {
    for p in [PresenceStatus::Online, PresenceStatus::Idle, PresenceStatus::Dnd, PresenceStatus::Offline] {
        assert_eq!(PresenceStatus::from_str(p.as_str()), Some(p));
    }
    assert_eq!(PresenceStatus::Dnd.as_str(), "dnd");
    assert_eq!(PresenceStatus::from_str("away"), None);
}

#[test]
fn member_roles() {
    assert_eq!(MemberRole::from_str("admin"), Some(MemberRole::Admin));
    assert_eq!(MemberRole::Owner.as_str(), "owner");
    assert!(MemberRole::Owner.can_moderate());
    assert!(MemberRole::Admin.can_moderate());
    assert!(!MemberRole::Member.can_moderate());
}

#[test]
fn user_settings_push_to_talk_default() {
    let s = UserSettings::default();
    assert!(!s.push_to_talk);
    assert_eq!(s.push_to_talk_key, "Space");
}
