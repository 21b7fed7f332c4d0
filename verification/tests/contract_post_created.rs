use harbour_chat::contracts::events::{PostCreatedV1, POST_CREATED_V1};

#[test]
fn post_created_contract_holds_its_fields() {
    let event = PostCreatedV1::new(
        "post-1".into(),
        "user-1".into(),
        "2026-01-01T00:00:00Z".into(),
    );
    assert_eq!(event.schema, POST_CREATED_V1);
    assert_eq!(event.post_id, "post-1");
    assert_eq!(event.author_user_id, "user-1");
    assert_eq!(event.occurred_at, "2026-01-01T00:00:00Z");
}
