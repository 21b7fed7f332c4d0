//! Versioned event records published to other services; each carries its
//! schema name.
use vstd::prelude::*;

use crate::text::owned;

verus! {

pub const MESSAGE_SENT_V1: &'static str = "harbour.message-sent.v1";

pub const TYPING_STARTED_V1: &'static str = "harbour.typing-started.v1";

pub const TYPING_STOPPED_V1: &'static str = "harbour.typing-stopped.v1";

pub const PRESENCE_CHANGED_V1: &'static str = "harbour.presence-changed.v1";

pub const VOICE_PARTICIPANT_UPDATED_V1: &'static str = "harbour.voice-participant-updated.v1";

pub const VOICE_SESSION_CREATED_V1: &'static str = "harbour.voice-session-created.v1";

pub const VOICE_TRANSPORT_CREATED_V1: &'static str = "harbour.voice-transport-created.v1";

pub const VOICE_PRODUCER_CREATED_V1: &'static str = "harbour.voice-producer-created.v1";

pub const VOICE_CONSUMER_CREATED_V1: &'static str = "harbour.voice-consumer-created.v1";

pub const VOICE_ICE_CANDIDATE_V1: &'static str = "harbour.voice-ice-candidate.v1";

pub const VOICE_ERROR_V1: &'static str = "harbour.voice-error.v1";

pub const POST_CREATED_V1: &'static str = "harbour.post-created.v1";

/// A board post was created.
#[derive(Clone, Debug, PartialEq, Eq)]
pub struct PostCreatedV1 {
    pub schema: String,
    pub post_id: String,
    pub author_user_id: String,
    pub occurred_at: String,
}

impl PostCreatedV1 {
    /// The event under the `harbour.post-created.v1` schema.
    pub fn new(post_id: String, author_user_id: String, occurred_at: String) -> (r: Self)
        ensures
            r.schema@ == POST_CREATED_V1@,
            r.post_id == post_id,
            r.author_user_id == author_user_id,
            r.occurred_at == occurred_at,
    {
        PostCreatedV1 { schema: owned(POST_CREATED_V1), post_id, author_user_id, occurred_at }
    }
}

/// A chat message was sent.
#[derive(Clone, Debug, PartialEq, Eq)]
pub struct MessageSentV1 {
    pub schema: String,
    pub message_id: String,
    pub channel_id: String,
    pub server_id: String,
    pub author_user_id: String,
    pub occurred_at: String,
}

impl MessageSentV1 {
    /// The event under the `harbour.message-sent.v1` schema.
    pub fn new(
        message_id: String,
        channel_id: String,
        server_id: String,
        author_user_id: String,
        occurred_at: String,
    ) -> (r: Self)
        ensures
            r.schema@ == MESSAGE_SENT_V1@,
            r.message_id == message_id,
            r.channel_id == channel_id,
            r.server_id == server_id,
            r.author_user_id == author_user_id,
            r.occurred_at == occurred_at,
    {
        MessageSentV1 {
            schema: owned(MESSAGE_SENT_V1),
            message_id,
            channel_id,
            server_id,
            author_user_id,
            occurred_at,
        }
    }
}

/// A user started typing in a channel.
#[derive(Clone, Debug, PartialEq, Eq)]
pub struct TypingStartedV1 {
    pub schema: String,
    pub channel_id: String,
    pub user_id: String,
    pub occurred_at: String,
    pub expires_at: String,
}

/// A user stopped typing in a channel.
#[derive(Clone, Debug, PartialEq, Eq)]
pub struct TypingStoppedV1 {
    pub schema: String,
    pub channel_id: String,
    pub user_id: String,
    pub occurred_at: String,
}

/// A user's presence in a server changed.
#[derive(Clone, Debug, PartialEq, Eq)]
pub struct PresenceChangedV1 {
    pub schema: String,
    pub server_id: String,
    pub user_id: String,
    pub status: String,
    pub occurred_at: String,
}

/// A voice participant's state changed.
#[derive(Clone, Debug, PartialEq, Eq)]
pub struct VoiceParticipantUpdatedV1 {
    pub schema: String,
    pub channel_id: String,
    pub user_id: String,
    pub connected: bool,
    pub muted: bool,
    pub deafened: bool,
    pub occurred_at: String,
}

/// A voice media session was created.
#[derive(Clone, Debug, PartialEq, Eq)]
pub struct VoiceSessionCreatedV1 {
    pub schema: String,
    pub session_id: String,
    pub channel_id: String,
    pub user_id: String,
    pub occurred_at: String,
}

/// A voice transport was created.
#[derive(Clone, Debug, PartialEq, Eq)]
pub struct VoiceTransportCreatedV1 {
    pub schema: String,
    pub session_id: String,
    pub transport_id: String,
    pub direction: String,
    pub occurred_at: String,
}

/// A voice producer was created.
#[derive(Clone, Debug, PartialEq, Eq)]
pub struct VoiceProducerCreatedV1 {
    pub schema: String,
    pub session_id: String,
    pub producer_id: String,
    pub transport_id: String,
    pub kind: String,
    pub occurred_at: String,
}

/// A voice consumer was created.
#[derive(Clone, Debug, PartialEq, Eq)]
pub struct VoiceConsumerCreatedV1 {
    pub schema: String,
    pub session_id: String,
    pub consumer_id: String,
    pub producer_id: String,
    pub transport_id: String,
    pub kind: String,
    pub occurred_at: String,
}

/// An ICE candidate was added to a transport.
#[derive(Clone, Debug, PartialEq, Eq)]
pub struct VoiceIceCandidateV1 {
    pub schema: String,
    pub session_id: String,
    pub transport_id: String,
    pub candidate: String,
    pub sdp_mid: Option<String>,
    pub sdp_mline_index: Option<u16>,
    pub occurred_at: String,
}

/// A voice operation failed.
#[derive(Clone, Debug, PartialEq, Eq)]
pub struct VoiceErrorV1 {
    pub schema: String,
    pub code: String,
    pub message: String,
    pub occurred_at: String,
}

} // verus!
