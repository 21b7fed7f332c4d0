//! Voice signaling frames exchanged over the realtime socket.
use vstd::prelude::*;

use crate::entities::str_is;
use crate::text::owned;

verus! {

/// A JSON document carried through unchanged.
#[verifier::external_type_specification]
#[verifier::external_body]
pub struct ExJsonValue(serde_json::Value);

/// The operation a signaling frame asks for.
#[derive(Clone, Copy, Debug, PartialEq, Eq, Structural)]
pub enum VoiceSignalKind {
    SessionBootstrap,
    CreateTransport,
    ConnectTransport,
    CreateProducer,
    CreateConsumer,
    AddIceCandidate,
    RestartIce,
}

/// The wire name of a signal kind (snake case).
pub open spec fn signal_kind_name(k: VoiceSignalKind) -> Seq<char> {
    match k {
        VoiceSignalKind::SessionBootstrap => "session_bootstrap"@,
        VoiceSignalKind::CreateTransport => "create_transport"@,
        VoiceSignalKind::ConnectTransport => "connect_transport"@,
        VoiceSignalKind::CreateProducer => "create_producer"@,
        VoiceSignalKind::CreateConsumer => "create_consumer"@,
        VoiceSignalKind::AddIceCandidate => "add_ice_candidate"@,
        VoiceSignalKind::RestartIce => "restart_ice"@,
    }
}

/// The signal kind with wire name `s`, if any.
pub open spec fn signal_kind_from_name(s: Seq<char>) -> Option<VoiceSignalKind> {
    if s == "session_bootstrap"@ {
        Some(VoiceSignalKind::SessionBootstrap)
    } else if s == "create_transport"@ {
        Some(VoiceSignalKind::CreateTransport)
    } else if s == "connect_transport"@ {
        Some(VoiceSignalKind::ConnectTransport)
    } else if s == "create_producer"@ {
        Some(VoiceSignalKind::CreateProducer)
    } else if s == "create_consumer"@ {
        Some(VoiceSignalKind::CreateConsumer)
    } else if s == "add_ice_candidate"@ {
        Some(VoiceSignalKind::AddIceCandidate)
    } else if s == "restart_ice"@ {
        Some(VoiceSignalKind::RestartIce)
    } else {
        None
    }
}

impl VoiceSignalKind {
    /// The wire name, such as `create_transport`.
    pub fn as_str(self) -> (r: &'static str)
        ensures
            r@ == signal_kind_name(self),
    {
        match self {
            VoiceSignalKind::SessionBootstrap => "session_bootstrap",
            VoiceSignalKind::CreateTransport => "create_transport",
            VoiceSignalKind::ConnectTransport => "connect_transport",
            VoiceSignalKind::CreateProducer => "create_producer",
            VoiceSignalKind::CreateConsumer => "create_consumer",
            VoiceSignalKind::AddIceCandidate => "add_ice_candidate",
            VoiceSignalKind::RestartIce => "restart_ice",
        }
    }

    /// The signal kind with wire name `s`, if any.
    pub fn from_name(s: &str) -> (r: Option<VoiceSignalKind>)
        ensures
            r == signal_kind_from_name(s@),
    {
        if str_is(s, "session_bootstrap") {
            Some(VoiceSignalKind::SessionBootstrap)
        } else if str_is(s, "create_transport") {
            Some(VoiceSignalKind::CreateTransport)
        } else if str_is(s, "connect_transport") {
            Some(VoiceSignalKind::ConnectTransport)
        } else if str_is(s, "create_producer") {
            Some(VoiceSignalKind::CreateProducer)
        } else if str_is(s, "create_consumer") {
            Some(VoiceSignalKind::CreateConsumer)
        } else if str_is(s, "add_ice_candidate") {
            Some(VoiceSignalKind::AddIceCandidate)
        } else if str_is(s, "restart_ice") {
            Some(VoiceSignalKind::RestartIce)
        } else {
            None
        }
    }
}

/// Reading a signal kind back from its wire name gives the same kind.
pub proof fn law_signal_kind_round_trip(k: VoiceSignalKind)
    ensures
        signal_kind_from_name(signal_kind_name(k)) == Some(k),
{
    reveal_strlit("session_bootstrap");
    reveal_strlit("create_transport");
    reveal_strlit("connect_transport");
    reveal_strlit("create_producer");
    reveal_strlit("create_consumer");
    reveal_strlit("add_ice_candidate");
    reveal_strlit("restart_ice");
    let names = seq![
        "session_bootstrap"@,
        "create_transport"@,
        "connect_transport"@,
        "create_producer"@,
        "create_consumer"@,
        "add_ice_candidate"@,
        "restart_ice"@,
    ];
    assert forall|i: int, j: int| 0 <= i < j < 7 implies names[i] != names[j] by {
        assert(names[i].len() != names[j].len() || names[i][0] != names[j][0] || names[i][7]
            != names[j][7]);
    }
    assert(names[0] == "session_bootstrap"@);
    assert(names[1] == "create_transport"@);
    assert(names[2] == "connect_transport"@);
    assert(names[3] == "create_producer"@);
    assert(names[4] == "create_consumer"@);
    assert(names[5] == "add_ice_candidate"@);
    assert(names[6] == "restart_ice"@);
}

/// A signaling request: its id, what it asks for and its payload.
#[derive(Clone, Debug)]
pub struct VoiceSignalEnvelope<T> {
    pub request_id: String,
    pub kind: VoiceSignalKind,
    pub payload: T,
}

/// A signaling request frame as it arrives (`type` is its frame type).
#[derive(Clone, Debug)]
pub struct VoiceSignalRequest {
    pub frame_type: String,
    pub envelope: VoiceSignalEnvelope<serde_json::Value>,
}

/// The answer to a signaling request: a payload on success, an error
/// text on failure.
#[derive(Clone, Debug)]
pub struct VoiceSignalResponse {
    pub frame_type: String,
    pub request_id: String,
    pub kind: VoiceSignalKind,
    pub ok: bool,
    pub payload: Option<serde_json::Value>,
    pub error: Option<String>,
}

impl VoiceSignalResponse {
    /// A successful `signal_response` carrying `payload`.
    pub fn ok(request_id: String, kind: VoiceSignalKind, payload: serde_json::Value) -> (r: Self)
        ensures
            r.frame_type@ == "signal_response"@,
            r.request_id == request_id,
            r.kind == kind,
            r.ok,
            r.payload == Some(payload),
            r.error is None,
    {
        VoiceSignalResponse {
            frame_type: owned("signal_response"),
            request_id,
            kind,
            ok: true,
            payload: Some(payload),
            error: None,
        }
    }

    /// A failed `signal_response` carrying the error text.
    pub fn err(request_id: String, kind: VoiceSignalKind, error: String) -> (r: Self)
        ensures
            r.frame_type@ == "signal_response"@,
            r.request_id == request_id,
            r.kind == kind,
            !r.ok,
            r.payload is None,
            r.error == Some(error),
    {
        VoiceSignalResponse {
            frame_type: owned("signal_response"),
            request_id,
            kind,
            ok: false,
            payload: None,
            error: Some(error),
        }
    }
}

} // verus!
