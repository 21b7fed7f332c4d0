//! What the realtime socket does with each frame it reads: answer pings,
//! ignore pongs, stop on close, and decide on text frames.
use vstd::prelude::*;

use crate::contracts::voice_signaling::{VoiceSignalKind, VoiceSignalRequest};
use crate::entities::str_is;
use crate::text::owned;

verus! {

/// Note carried in the acknowledgement of a signaling request sent over
/// the socket: signaling itself goes through the HTTP endpoints.
pub const SIGNAL_ACK_NOTE: &'static str =
    "use HTTP signaling endpoints for Phase 4 MVP control-plane operations";

/// A subscribe frame as read from the socket: its `type` and the channel
/// ids (sent as `channel_ids` or `channelIds`).
#[derive(Clone, Debug)]
pub struct SubscribeFrame {
    pub kind: String,
    pub channel_ids: Vec<String>,
}

/// The acknowledgement of a signaling request: a successful
/// `signal_response` for the request whose payload is
/// `{"ack": true, "userId": user_id, "note": note}`.
#[derive(Clone, Debug)]
pub struct SignalAck {
    pub request_id: String,
    pub kind: VoiceSignalKind,
    pub user_id: String,
    pub note: String,
}

/// What to do with an incoming text frame.
#[derive(Clone, Debug)]
pub enum IncomingTextAction {
    /// Subscribe to these channels (each still subject to authorization).
    Subscribe(Vec<String>),
    /// Answer with this acknowledgement.
    SignalAck(SignalAck),
    /// Nothing.
    Ignore,
}

/// Decides what to do with a text frame, given how it read as a subscribe
/// frame and, failing that, as a signaling request: a subscribe frame of
/// type `subscribe` subscribes; one of another type is ignored; a signaling
/// request is acknowledged for the user; anything else is ignored.
pub fn incoming_action(
    subscribe: Option<SubscribeFrame>,
    signal: Option<VoiceSignalRequest>,
    user_id: &str,
) -> (r: IncomingTextAction)
    ensures
        match subscribe {
            Some(f) => if f.kind@ == "subscribe"@ {
                r matches IncomingTextAction::Subscribe(ids) && ids@ == f.channel_ids@
            } else {
                r is Ignore
            },
            None => match signal {
                Some(s) => r matches IncomingTextAction::SignalAck(a) && a.request_id
                    == s.envelope.request_id && a.kind == s.envelope.kind && a.user_id@ == user_id@
                    && a.note@ == SIGNAL_ACK_NOTE@,
                None => r is Ignore,
            },
        },
{
    match subscribe {
        Some(f) => {
            if str_is(f.kind.as_str(), "subscribe") {
                IncomingTextAction::Subscribe(f.channel_ids)
            } else {
                IncomingTextAction::Ignore
            }
        },
        None => match signal {
            Some(s) => IncomingTextAction::SignalAck(
                SignalAck {
                    request_id: s.envelope.request_id,
                    kind: s.envelope.kind,
                    user_id: owned(user_id),
                    note: owned(SIGNAL_ACK_NOTE),
                },
            ),
            None => IncomingTextAction::Ignore,
        },
    }
}


/// A frame read from the client's socket, as the socket loop sees it.
pub enum SocketFrame {
    /// A text frame.
    Text(String),
    /// A ping with its payload.
    Ping(Vec<u8>),
    /// A pong.
    Pong,
    /// A close frame.
    Close,
    /// The stream ended.
    Ended,
    /// Any other frame, or a read error.
    Other,
}

/// What the socket loop does next.
pub enum SocketStep {
    /// Decide on this text (see `incoming_action`).
    HandleText(String),
    /// Answer with a pong carrying this payload.
    SendPong(Vec<u8>),
    /// Read the next frame.
    Continue,
    /// End the session.
    Stop,
}

/// The step for a frame: text is handled, a ping is answered with a pong
/// carrying the same payload, pongs and other frames are ignored, and a
/// close frame or the end of the stream ends the session.
pub fn socket_step(frame: SocketFrame) -> (r: SocketStep)
    ensures
        match frame {
            SocketFrame::Text(t) => r matches SocketStep::HandleText(u) && u@ == t@,
            SocketFrame::Ping(p) => r matches SocketStep::SendPong(q) && q@ == p@,
            SocketFrame::Pong => r is Continue,
            SocketFrame::Other => r is Continue,
            SocketFrame::Close => r is Stop,
            SocketFrame::Ended => r is Stop,
        },
{
    match frame {
        SocketFrame::Text(t) => SocketStep::HandleText(t),
        SocketFrame::Ping(p) => SocketStep::SendPong(p),
        SocketFrame::Pong => SocketStep::Continue,
        SocketFrame::Other => SocketStep::Continue,
        SocketFrame::Close => SocketStep::Stop,
        SocketFrame::Ended => SocketStep::Stop,
    }
}

/// The step after a reply (a pong or an acknowledgement) was written to
/// the client: the session goes on when the write succeeded, else it ends.
pub fn after_send(sent: bool) -> (r: SocketStep)
    ensures
        sent ==> r is Continue,
        !sent ==> r is Stop,
{
    if sent {
        SocketStep::Continue
    } else {
        SocketStep::Stop
    }
}

/// The requested channel ids whose subscription was authorized, in the
/// order they were requested.
pub open spec fn joined_spec(requested: Seq<String>, authorized: Seq<bool>) -> Seq<String>
    decreases requested.len(),
{
    if requested.len() == 0 || authorized.len() == 0 {
        Seq::empty()
    } else {
        let rest = joined_spec(requested.drop_last(), authorized.drop_last());
        if authorized.last() {
            rest.push(requested.last())
        } else {
            rest
        }
    }
}

/// The topics a subscribe frame joins: exactly the requested channel ids
/// whose authorization succeeded, in order.
pub fn joined_topics(requested: &Vec<String>, authorized: &Vec<bool>) -> (r: Vec<String>)
    requires
        requested.len() == authorized.len(),
    ensures
        r@ == joined_spec(requested@, authorized@),
{
    let mut out: Vec<String> = Vec::new();
    let mut i: usize = 0;
    while i < requested.len()
        invariant
            i <= requested.len(),
            requested.len() == authorized.len(),
            out@ == joined_spec(requested@.take(i as int), authorized@.take(i as int)),
        decreases requested.len() - i,
    {
        proof {
            let rq = requested@.take(i + 1);
            let au = authorized@.take(i + 1);
            assert(rq.drop_last() =~= requested@.take(i as int));
            assert(au.drop_last() =~= authorized@.take(i as int));
        }
        if authorized[i] {
            out.push(requested[i].clone());
        }
        i = i + 1;
    }
    proof {
        assert(requested@.take(requested.len() as int) =~= requested@);
        assert(authorized@.take(authorized.len() as int) =~= authorized@);
    }
    out
}

} // verus!
