use harbour_chat::contracts::events::{MessageSentV1, MESSAGE_SENT_V1};

#[test]
fn message_sent_v1_holds_its_fields() {
    let event = MessageSentV1::new(
        "msg-1".into(),
        "chan-1".into(),
        "srv-1".into(),
        "user-1".into(),
        "2026-05-27T12:00:00Z".into(),
    );
    assert_eq!(event.schema, MESSAGE_SENT_V1);
    assert_eq!(event.schema, "harbour.message-sent.v1");
    assert_eq!(event.message_id, "msg-1");
    assert_eq!(event.channel_id, "chan-1");
    assert_eq!(event.server_id, "srv-1");
    assert_eq!(event.author_user_id, "user-1");
    let copy = event.clone();
    assert_eq!(copy, event);
}
