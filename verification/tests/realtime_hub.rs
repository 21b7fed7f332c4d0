use harbour_chat::contracts::voice_signaling::{
    VoiceSignalEnvelope, VoiceSignalKind, VoiceSignalRequest,
};
use harbour_chat::realtime::{
    after_send, incoming_action, joined_topics, socket_step, IncomingTextAction, SocketFrame, SocketStep,
    SubscribeFrame, SIGNAL_ACK_NOTE,
};

fn subscribe(kind: &str, ids: &[&str]) -> SubscribeFrame {
    SubscribeFrame {
        kind: kind.to_string(),
        channel_ids: ids.iter().map(|s| s.to_string()).collect(),
    }
}

#[test]
fn subscribe_frame_joins_all_its_channels() {
    let action = incoming_action(Some(subscribe("subscribe", &["c1", "c2"])), None, "user-1");
    match action {
        IncomingTextAction::Subscribe(ids) => assert_eq!(ids, vec!["c1", "c2"]),
        _ => panic!("expected subscribe action"),
    }
}

#[test]
fn subscribe_frame_with_one_channel() {
    let action = incoming_action(Some(subscribe("subscribe", &["c1"])), None, "user-1");
    match action {
        IncomingTextAction::Subscribe(ids) => assert_eq!(ids, vec!["c1"]),
        _ => panic!("expected subscribe action"),
    }
}

#[test]
fn signal_request_is_acknowledged_for_the_user() {
    let request = VoiceSignalRequest {
        frame_type: "signal_request".to_string(),
        envelope: VoiceSignalEnvelope {
            request_id: "r-1".to_string(),
            kind: VoiceSignalKind::SessionBootstrap,
            payload: serde_json::Value::Object(serde_json::Map::new()),
        },
    };
    let action = incoming_action(None, Some(request), "user-1");
    match action {
        IncomingTextAction::SignalAck(ack) => {
            assert_eq!(ack.request_id, "r-1");
            assert_eq!(ack.kind.as_str(), "session_bootstrap");
            assert_eq!(ack.user_id, "user-1");
            assert_eq!(ack.note, SIGNAL_ACK_NOTE);
        }
        _ => panic!("expected signal ack"),
    }
}

#[test]
fn other_frame_types_are_ignored() {
    let action = incoming_action(Some(subscribe("unsubscribe", &["c1"])), None, "user-1");
    assert!(matches!(action, IncomingTextAction::Ignore));
    let action = incoming_action(None, None, "user-1");
    assert!(matches!(action, IncomingTextAction::Ignore));
}

#[test]
fn ping_is_answered_with_the_same_payload() {
    match socket_step(SocketFrame::Ping(vec![1, 2, 3])) {
        SocketStep::SendPong(p) => assert_eq!(p, vec![1, 2, 3]),
        _ => panic!("expected a pong"),
    }
}

#[test]
fn pong_and_other_frames_are_ignored() {
    assert!(matches!(socket_step(SocketFrame::Pong), SocketStep::Continue));
    assert!(matches!(socket_step(SocketFrame::Other), SocketStep::Continue));
}

#[test]
fn close_or_end_of_stream_stops_the_session() {
    assert!(matches!(socket_step(SocketFrame::Close), SocketStep::Stop));
    assert!(matches!(socket_step(SocketFrame::Ended), SocketStep::Stop));
}

#[test]
fn text_frames_are_handed_on() {
    match socket_step(SocketFrame::Text("hello".to_string())) {
        SocketStep::HandleText(t) => assert_eq!(t, "hello"),
        _ => panic!("expected text"),
    }
}

#[test]
fn failed_write_stops_the_session() {
    assert!(matches!(after_send(true), SocketStep::Continue));
    assert!(matches!(after_send(false), SocketStep::Stop));
}

#[test]
fn only_authorized_channels_are_joined() {
    let requested = vec!["c1".to_string(), "c2".to_string(), "c3".to_string()];
    let joined = joined_topics(&requested, &vec![true, false, true]);
    assert_eq!(joined, vec!["c1", "c3"]);
    assert!(joined_topics(&requested, &vec![false, false, false]).is_empty());
}
