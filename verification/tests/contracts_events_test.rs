use harbour_chat::contracts::events::{
    PresenceChangedV1, TypingStartedV1, VoiceConsumerCreatedV1, VoiceParticipantUpdatedV1,
    VoiceSessionCreatedV1, VoiceTransportCreatedV1, PRESENCE_CHANGED_V1, TYPING_STARTED_V1,
    VOICE_CONSUMER_CREATED_V1, VOICE_PARTICIPANT_UPDATED_V1, VOICE_SESSION_CREATED_V1,
    VOICE_TRANSPORT_CREATED_V1,
};
use harbour_chat::contracts::voice_signaling::{
    VoiceSignalEnvelope, VoiceSignalKind, VoiceSignalResponse,
};

fn json(text: &str) -> serde_json::Value {
    serde_json::from_str(text).expect("valid json")
}

#[test]
fn typing_started_contract_holds_its_fields() {
    let event = TypingStartedV1 {
        schema: TYPING_STARTED_V1.to_string(),
        channel_id: "c1".into(),
        user_id: "u1".into(),
        occurred_at: "2026-01-01T00:00:00Z".into(),
        expires_at: "2026-01-01T00:00:08Z".into(),
    };
    assert_eq!(event.schema, TYPING_STARTED_V1);
    assert_eq!(event.schema, "harbour.typing-started.v1");
    assert_eq!(event.channel_id, "c1");
    assert_eq!(event.user_id, "u1");
    assert_eq!(event.expires_at, "2026-01-01T00:00:08Z");
}

#[test]
fn presence_changed_contract_holds_its_fields() {
    let event = PresenceChangedV1 {
        schema: PRESENCE_CHANGED_V1.to_string(),
        server_id: "s1".into(),
        user_id: "u1".into(),
        status: "online".into(),
        occurred_at: "2026-01-01T00:00:00Z".into(),
    };
    assert_eq!(event.schema, PRESENCE_CHANGED_V1);
    assert_eq!(event.status, "online");
}

#[test]
fn voice_updated_contract_holds_its_fields() {
    let event = VoiceParticipantUpdatedV1 {
        schema: VOICE_PARTICIPANT_UPDATED_V1.to_string(),
        channel_id: "c1".into(),
        user_id: "u1".into(),
        connected: true,
        muted: false,
        deafened: true,
        occurred_at: "2026-01-01T00:00:00Z".into(),
    };
    assert_eq!(event.schema, VOICE_PARTICIPANT_UPDATED_V1);
    assert!(event.connected);
    assert!(event.deafened);
}

#[test]
fn voice_session_contract_holds_its_fields() {
    let event = VoiceSessionCreatedV1 {
        schema: VOICE_SESSION_CREATED_V1.to_string(),
        session_id: "sess-1".into(),
        channel_id: "c1".into(),
        user_id: "u1".into(),
        occurred_at: "2026-01-01T00:00:00Z".into(),
    };
    assert_eq!(event.schema, VOICE_SESSION_CREATED_V1);
    assert_eq!(event.session_id, "sess-1");
}

#[test]
fn voice_transport_contract_holds_its_fields() {
    let event = VoiceTransportCreatedV1 {
        schema: VOICE_TRANSPORT_CREATED_V1.to_string(),
        session_id: "sess-1".into(),
        transport_id: "transport-1".into(),
        direction: "send".into(),
        occurred_at: "2026-01-01T00:00:00Z".into(),
    };
    assert_eq!(event.schema, VOICE_TRANSPORT_CREATED_V1);
    assert_eq!(event.direction, "send");
}

#[test]
fn voice_consumer_contract_holds_its_fields() {
    let event = VoiceConsumerCreatedV1 {
        schema: VOICE_CONSUMER_CREATED_V1.to_string(),
        session_id: "sess-1".into(),
        consumer_id: "consumer-1".into(),
        producer_id: "producer-1".into(),
        transport_id: "transport-1".into(),
        kind: "audio".into(),
        occurred_at: "2026-01-01T00:00:00Z".into(),
    };
    assert_eq!(event.schema, VOICE_CONSUMER_CREATED_V1);
    assert_eq!(event.kind, "audio");
}

#[test]
fn signaling_envelope_and_response_hold_their_fields() {
    let req = VoiceSignalEnvelope {
        request_id: "req-1".to_string(),
        kind: VoiceSignalKind::CreateTransport,
        payload: json(r#"{ "sessionId": "sess-1" }"#),
    };
    assert_eq!(req.request_id, "req-1");
    assert_eq!(req.kind.as_str(), "create_transport");

    let res = VoiceSignalResponse::ok(
        "req-1".into(),
        VoiceSignalKind::CreateTransport,
        json(r#"{ "transportId": "t1" }"#),
    );
    assert_eq!(res.frame_type, "signal_response");
    assert_eq!(res.request_id, "req-1");
    assert!(res.ok);
    assert_eq!(res.payload.unwrap()["transportId"], "t1");
    assert!(res.error.is_none());

    let err = VoiceSignalResponse::err(
        "req-2".into(),
        VoiceSignalKind::CreateConsumer,
        "producer missing".into(),
    );
    assert_eq!(err.frame_type, "signal_response");
    assert!(!err.ok);
    assert_eq!(err.error.as_deref(), Some("producer missing"));
    assert!(err.payload.is_none());
}

#[test]
fn signal_kind_names_read_back() {
    let kinds = [
        VoiceSignalKind::SessionBootstrap,
        VoiceSignalKind::CreateTransport,
        VoiceSignalKind::ConnectTransport,
        VoiceSignalKind::CreateProducer,
        VoiceSignalKind::CreateConsumer,
        VoiceSignalKind::AddIceCandidate,
        VoiceSignalKind::RestartIce,
    ];
    for k in kinds {
        assert_eq!(VoiceSignalKind::from_name(k.as_str()), Some(k));
    }
    assert_eq!(VoiceSignalKind::AddIceCandidate.as_str(), "add_ice_candidate");
    assert_eq!(VoiceSignalKind::from_name("createTransport"), None);
}
