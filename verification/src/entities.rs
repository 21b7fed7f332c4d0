//! Domain entities. Timestamps are milliseconds since the Unix epoch.
use vstd::prelude::*;

use crate::text::{chars_eq, chars_of};

verus! {

/// Kind of a channel.
#[derive(Clone, Copy, Debug, PartialEq, Eq, Structural)]
pub enum ChannelType {
    Text,
    Voice,
    Dm,
}

/// The wire name of a channel type.
pub open spec fn channel_type_name(t: ChannelType) -> Seq<char> {
    match t {
        ChannelType::Text => "text"@,
        ChannelType::Voice => "voice"@,
        ChannelType::Dm => "dm"@,
    }
}

/// Whether `a` and `b` hold the same characters.
pub(crate) fn str_is(a: &str, b: &str) -> (r: bool)
    ensures
        r == (a@ == b@),
{
    let va = chars_of(a);
    let vb = chars_of(b);
    chars_eq(&va, &vb)
}

impl ChannelType {
    /// The wire name: `text`, `voice` or `dm`.
    pub fn as_str(self) -> (r: &'static str)
        ensures
            r@ == channel_type_name(self),
    {
        match self {
            ChannelType::Text => "text",
            ChannelType::Voice => "voice",
            ChannelType::Dm => "dm",
        }
    }

    /// The channel type with wire name `s`, if any.
    pub fn from_str(s: &str) -> (r: Option<ChannelType>)
        ensures
            r == (if s@ == "text"@ {
                Some(ChannelType::Text)
            } else if s@ == "voice"@ {
                Some(ChannelType::Voice)
            } else if s@ == "dm"@ {
                Some(ChannelType::Dm)
            } else {
                None::<ChannelType>
            }),
    {
        if str_is(s, "text") {
            Some(ChannelType::Text)
        } else if str_is(s, "voice") {
            Some(ChannelType::Voice)
        } else if str_is(s, "dm") {
            Some(ChannelType::Dm)
        } else {
            None
        }
    }
}

/// Reading a channel type back from its wire name gives the same type.
pub proof fn law_channel_type_round_trip(t: ChannelType)
    ensures
        (if channel_type_name(t) == "text"@ {
            Some(ChannelType::Text)
        } else if channel_type_name(t) == "voice"@ {
            Some(ChannelType::Voice)
        } else if channel_type_name(t) == "dm"@ {
            Some(ChannelType::Dm)
        } else {
            None::<ChannelType>
        }) == Some(t),
{
    reveal_strlit("text");
    reveal_strlit("voice");
    reveal_strlit("dm");
    assert("text"@.len() == 4 && "voice"@.len() == 5 && "dm"@.len() == 2);
    assert("text"@ != "voice"@);
    assert("text"@ != "dm"@);
    assert("voice"@ != "dm"@);
}

/// Presence state of a user in a server.
#[derive(Clone, Copy, Debug, PartialEq, Eq, Structural)]
pub enum PresenceStatus {
    Online,
    Idle,
    Dnd,
    Offline,
}

/// The wire name of a presence status.
pub open spec fn presence_name(p: PresenceStatus) -> Seq<char> {
    match p {
        PresenceStatus::Online => "online"@,
        PresenceStatus::Idle => "idle"@,
        PresenceStatus::Dnd => "dnd"@,
        PresenceStatus::Offline => "offline"@,
    }
}

/// The presence status with wire name `s`, if any.
pub open spec fn presence_from_name(s: Seq<char>) -> Option<PresenceStatus> {
    if s == "online"@ {
        Some(PresenceStatus::Online)
    } else if s == "idle"@ {
        Some(PresenceStatus::Idle)
    } else if s == "dnd"@ {
        Some(PresenceStatus::Dnd)
    } else if s == "offline"@ {
        Some(PresenceStatus::Offline)
    } else {
        None
    }
}

impl PresenceStatus {
    /// The wire name: `online`, `idle`, `dnd` or `offline`.
    pub fn as_str(self) -> (r: &'static str)
        ensures
            r@ == presence_name(self),
    {
        match self {
            PresenceStatus::Online => "online",
            PresenceStatus::Idle => "idle",
            PresenceStatus::Dnd => "dnd",
            PresenceStatus::Offline => "offline",
        }
    }

    /// The presence status with wire name `value`, if any.
    pub fn from_str(value: &str) -> (r: Option<PresenceStatus>)
        ensures
            r == presence_from_name(value@),
    {
        if str_is(value, "online") {
            Some(PresenceStatus::Online)
        } else if str_is(value, "idle") {
            Some(PresenceStatus::Idle)
        } else if str_is(value, "dnd") {
            Some(PresenceStatus::Dnd)
        } else if str_is(value, "offline") {
            Some(PresenceStatus::Offline)
        } else {
            None
        }
    }
}

/// Reading a presence status back from its wire name gives the same status.
pub proof fn law_presence_round_trip(p: PresenceStatus)
    ensures
        presence_from_name(presence_name(p)) == Some(p),
{
    reveal_strlit("online");
    reveal_strlit("idle");
    reveal_strlit("dnd");
    reveal_strlit("offline");
    assert("online"@.len() == 6 && "idle"@.len() == 4 && "dnd"@.len() == 3 && "offline"@.len() == 7);
    assert("online"@ != "idle"@);
    assert("online"@ != "dnd"@);
    assert("online"@ != "offline"@);
    assert("idle"@ != "dnd"@);
    assert("idle"@ != "offline"@);
    assert("dnd"@ != "offline"@);
}

/// Role of a member in a server.
#[derive(Clone, Copy, Debug, PartialEq, Eq, Structural)]
pub enum MemberRole {
    Owner,
    Admin,
    Member,
}

/// The wire name of a member role.
pub open spec fn role_name(r: MemberRole) -> Seq<char> {
    match r {
        MemberRole::Owner => "owner"@,
        MemberRole::Admin => "admin"@,
        MemberRole::Member => "member"@,
    }
}

/// Whether a role may moderate (owners and admins).
pub open spec fn role_can_moderate(r: MemberRole) -> bool {
    r is Owner || r is Admin
}

impl MemberRole {
    /// The wire name: `owner`, `admin` or `member`.
    pub fn as_str(self) -> (r: &'static str)
        ensures
            r@ == role_name(self),
    {
        match self {
            MemberRole::Owner => "owner",
            MemberRole::Admin => "admin",
            MemberRole::Member => "member",
        }
    }

    /// The role with wire name `s`, if any.
    pub fn from_str(s: &str) -> (r: Option<MemberRole>)
        ensures
            r == (if s@ == "owner"@ {
                Some(MemberRole::Owner)
            } else if s@ == "admin"@ {
                Some(MemberRole::Admin)
            } else if s@ == "member"@ {
                Some(MemberRole::Member)
            } else {
                None::<MemberRole>
            }),
    {
        if str_is(s, "owner") {
            Some(MemberRole::Owner)
        } else if str_is(s, "admin") {
            Some(MemberRole::Admin)
        } else if str_is(s, "member") {
            Some(MemberRole::Member)
        } else {
            None
        }
    }

    /// Whether this role may moderate a server (edit it, add members,
    /// create channels, edit or delete others' messages).
    pub fn can_moderate(self) -> (b: bool)
        ensures
            b == role_can_moderate(self),
    {
        match self {
            MemberRole::Owner | MemberRole::Admin => true,
            MemberRole::Member => false,
        }
    }
}

/// An authenticated user.
#[derive(Clone, Debug)]
pub struct User {
    pub id: String,
    pub email: String,
    pub display_name: Option<String>,
    pub created_at: i64,
    pub updated_at: i64,
}

/// Membership of a user in a server.
#[derive(Clone, Debug)]
pub struct Member {
    pub server_id: String,
    pub user_id: String,
    pub role: MemberRole,
    pub joined_at: i64,
    pub display_name: Option<String>,
}

/// A channel; `server_id` is `None` for direct-message channels.
#[derive(Clone, Debug)]
pub struct Channel {
    pub id: String,
    pub server_id: Option<String>,
    pub category_id: Option<String>,
    pub channel_type: ChannelType,
    pub name: String,
    pub position: i32,
    pub created_at: i64,
    pub updated_at: i64,
}

/// A server (group).
#[derive(Clone, Debug)]
pub struct Server {
    pub id: String,
    pub name: String,
    pub description: Option<String>,
    pub icon_url: Option<String>,
    pub card_color: Option<String>,
    pub owner_user_id: String,
    pub my_role: Option<MemberRole>,
    pub created_at: i64,
    pub updated_at: i64,
}

/// A file attached to a message.
#[derive(Clone, Debug, PartialEq, Eq)]
pub struct MessageAttachment {
    pub id: String,
    pub filename: String,
    pub mime_type: String,
    pub size_bytes: u64,
}

/// The users who reacted to a message with one emoji.
#[derive(Clone, Debug, Default, PartialEq, Eq)]
pub struct ReactionSummary {
    pub emoji: String,
    pub count: u32,
    pub user_ids: Vec<String>,
}

/// The quoted message shown above a reply.
#[derive(Clone, Debug)]
pub struct ReplyPreview {
    pub id: String,
    pub author_user_id: String,
    pub author_display_name: Option<String>,
    pub content: String,
    pub deleted_at: Option<i64>,
}

/// A chat message.
#[derive(Clone, Debug)]
pub struct Message {
    pub id: String,
    pub channel_id: String,
    pub author_user_id: String,
    pub author_display_name: Option<String>,
    pub content: String,
    pub created_at: i64,
    pub edited_at: Option<i64>,
    pub deleted_at: Option<i64>,
    pub reply_to_message_id: Option<String>,
    pub reply_to: Option<ReplyPreview>,
    pub reactions: Vec<ReactionSummary>,
    pub attachment: Option<MessageAttachment>,
}

/// A board post; `my_vote` is the viewer's vote (-1, 0 or 1).
#[derive(Clone, Debug)]
pub struct Post {
    pub id: String,
    pub author_user_id: String,
    pub author_display_name: Option<String>,
    pub title: Option<String>,
    pub body: String,
    pub link_url: Option<String>,
    pub preview_title: Option<String>,
    pub preview_description: Option<String>,
    pub preview_image_url: Option<String>,
    pub preview_site_name: Option<String>,
    pub upvotes: i64,
    pub downvotes: i64,
    pub score: i64,
    pub comment_count: i64,
    pub my_vote: i8,
    pub created_at: i64,
    pub updated_at: i64,
}

/// A comment on a board post, with its nested replies.
#[derive(Debug)]
pub struct PostComment {
    pub id: String,
    pub post_id: String,
    pub author_user_id: String,
    pub author_display_name: Option<String>,
    pub parent_comment_id: Option<String>,
    pub body: String,
    pub created_at: i64,
    pub edited_at: Option<i64>,
    pub deleted_at: Option<i64>,
    pub replies: Vec<PostComment>,
}

/// A channel a board post can be shared to.
#[derive(Clone, Debug)]
pub struct ShareTarget {
    pub channel_id: String,
    pub label: String,
    pub kind: String,
    pub server_name: Option<String>,
}

/// One direct-message conversation in the inbox.
#[derive(Clone, Debug)]
pub struct DmInboxEntry {
    pub channel_id: String,
    pub other_user_id: String,
    pub other_display_name: Option<String>,
    pub last_message_preview: Option<String>,
    pub unread_count: u32,
    pub updated_at: i64,
}

/// A user one has direct messages with.
#[derive(Clone, Debug)]
pub struct DmPeer {
    pub id: String,
    pub email: String,
    pub display_name: Option<String>,
}

/// Presence of a user in a server.
#[derive(Clone, Debug)]
pub struct Presence {
    pub server_id: String,
    pub user_id: String,
    pub status: PresenceStatus,
    pub updated_at: i64,
}

/// A user typing in a channel until `expires_at`.
#[derive(Clone, Debug)]
pub struct TypingIndicator {
    pub channel_id: String,
    pub user_id: String,
    pub display_name: Option<String>,
    pub expires_at: i64,
}

/// A user connected to a voice channel.
#[derive(Clone, Debug)]
pub struct VoiceParticipant {
    pub channel_id: String,
    pub user_id: String,
    pub display_name: Option<String>,
    pub muted: bool,
    pub deafened: bool,
    pub updated_at: i64,
}

/// A user found by search.
#[derive(Clone, Debug)]
pub struct UserSearchResult {
    pub id: String,
    pub email: String,
    pub display_name: Option<String>,
}

/// Per-user client settings.
#[derive(Clone, Debug)]
pub struct UserSettings {
    pub push_to_talk: bool,
    pub push_to_talk_key: String,
}

impl Default for UserSettings {
    /// Push-to-talk off, bound to `Space`.
    fn default() -> (r: Self)
        ensures
            !r.push_to_talk,
            r.push_to_talk_key@ == "Space"@,
    {
        UserSettings { push_to_talk: false, push_to_talk_key: crate::text::owned("Space") }
    }
}

/// A STUN/TURN server offered to voice clients.
#[derive(Clone, Debug)]
pub struct IceServer {
    pub urls: Vec<String>,
    pub username: Option<String>,
    pub credential: Option<String>,
}

/// A media producer created for a voice session.
#[derive(Clone, Debug)]
pub struct VoiceProducer {
    pub session_id: String,
    pub producer_id: String,
    pub transport_id: String,
    pub kind: String,
}

/// A producer of another participant in the same voice channel.
#[derive(Clone, Debug)]
pub struct VoiceRemoteProducer {
    pub producer_id: String,
    pub kind: String,
    pub user_id: String,
}

/// Metadata of a stored avatar; `updated_at` serves as a cache-busting version.
#[derive(Clone, Debug, PartialEq, Eq)]
pub struct AvatarMeta {
    pub mime_type: String,
    pub size_bytes: u64,
    pub updated_at: i64,
}

/// Identity asserted by the gateway for a request.
#[derive(Clone, Debug)]
pub struct GatewayIdentity {
    pub id: String,
    pub email: String,
    pub display_name: Option<String>,
}

/// The user a request is made as.
#[derive(Clone, Debug)]
pub struct AuthUser(pub User);

} // verus!
