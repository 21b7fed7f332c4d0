//! Chat rules: who may read and change what, input validation, reaction
//! summaries, reply previews, share targets and direct-message pairs.
use vstd::prelude::*;

use crate::board::{clamp_spec, opt_view};
use crate::entities::{
    presence_from_name, role_can_moderate, str_is, Channel, ChannelType, DmInboxEntry, Member,
    MemberRole, Message, MessageAttachment, PresenceStatus, ReactionSummary, ReplyPreview,
    ShareTarget,
};
use crate::crypto::{decrypt_text_spec, EnvelopeCrypto};
use crate::error::{is_not_found, is_validation, AppError, AppResult};
use crate::text::{chars_of, concat_chars, owned, string_of, trim, trim_seq, utf8_len};

verus! {

/// Id of the shared Harbour Home server, which every user may join.
pub const HARBOUR_HOME_SERVER_ID: &'static str = "00000000-0000-4000-8000-000000000001";

/// Realtime topic of the board feed.
pub const BOARD_FEED_TOPIC: &'static str = "__board__";

/// Longest message content, in bytes.
pub const MAX_MESSAGE_LENGTH: usize = 4000;

/// The id of Harbour Home.
pub open spec fn home_id() -> Seq<char> {
    "00000000-0000-4000-8000-000000000001"@
}

// ------------------------------------------------------------ membership

/// The next step of a membership check.
pub enum MemberLookup {
    /// The user is a member with this membership.
    Member(Member),
    /// Not yet a member of Harbour Home: join if the server exists.
    JoinHome,
    /// Refused.
    Forbidden,
}

/// Membership check on a looked-up membership: an existing membership is
/// used; a non-member of Harbour Home may join it; anyone else is refused.
pub fn member_lookup(server_id: &str, found: Option<Member>) -> (r: MemberLookup)
    ensures
        found is Some ==> (r matches MemberLookup::Member(m) && m == found->0),
        found is None && server_id@ == home_id() ==> r is JoinHome,
        found is None && server_id@ != home_id() ==> r is Forbidden,
{
    match found {
        Some(m) => MemberLookup::Member(m),
        None => {
            if str_is(server_id, HARBOUR_HOME_SERVER_ID) {
                MemberLookup::JoinHome
            } else {
                MemberLookup::Forbidden
            }
        },
    }
}

/// Joining Harbour Home is possible only when the server exists.
pub fn home_join(server_exists: bool) -> (r: AppResult<MemberRole>)
    ensures
        server_exists ==> r == Ok::<MemberRole, AppError>(MemberRole::Member),
        !server_exists ==> r == Err::<MemberRole, AppError>(AppError::Forbidden),
{
    if server_exists {
        Ok(MemberRole::Member)
    } else {
        Err(AppError::Forbidden)
    }
}

/// The next step of a channel-access check.
pub enum ChannelAccess {
    /// A direct-message channel: the user must be one of its two participants.
    CheckDmParticipant,
    /// A server channel: the user must be a member of this server.
    CheckMember(String),
    /// Refused.
    Deny(AppError),
}

/// Channel-access check on a looked-up channel.
pub fn channel_access(channel: Option<&Channel>) -> (r: ChannelAccess)
    ensures
        channel is None ==> (r matches ChannelAccess::Deny(e) && is_not_found(e, "channel not found"@)),
        channel is Some && channel->0.channel_type == ChannelType::Dm ==> r is CheckDmParticipant,
        channel is Some && channel->0.channel_type != ChannelType::Dm ==> match channel->0.server_id {
            Some(s) => r matches ChannelAccess::CheckMember(sid) && sid@ == s@,
            None => r matches ChannelAccess::Deny(e) && is_not_found(e, "channel not found"@),
        },
{
    match channel {
        None => ChannelAccess::Deny(AppError::NotFound(owned("channel not found"))),
        Some(c) => {
            if c.channel_type == ChannelType::Dm {
                ChannelAccess::CheckDmParticipant
            } else {
                match &c.server_id {
                    Some(s) => ChannelAccess::CheckMember(s.clone()),
                    None => ChannelAccess::Deny(AppError::NotFound(owned("channel not found"))),
                }
            }
        },
    }
}

/// Direct-message access: only participants.
pub fn dm_access(is_participant: bool) -> (r: AppResult<()>)
    ensures
        is_participant <==> r is Ok,
        !is_participant ==> r == Err::<(), AppError>(AppError::Forbidden),
{
    if is_participant {
        Ok(())
    } else {
        Err(AppError::Forbidden)
    }
}

/// Realtime subscription: the board topic is open to every authenticated
/// user; any other topic is a channel and needs channel access.
pub fn subscribe_needs_channel_access(topic_id: &str) -> (r: bool)
    ensures
        r == (topic_id@ != "__board__"@),
{
    !str_is(topic_id, BOARD_FEED_TOPIC)
}

/// Who may moderate a channel: never in direct messages; in a server
/// channel, members whose role can moderate.
pub enum ModerationStep {
    /// Known: this is the answer.
    Known(bool),
    /// Depends on the user's membership in this server.
    CheckRole(String),
    /// The channel cannot be resolved.
    Deny(AppError),
}

/// First step of "may this user moderate this channel".
pub fn moderation_step(channel: Option<&Channel>) -> (r: ModerationStep)
    ensures
        channel is None ==> (r matches ModerationStep::Deny(e) && is_not_found(e, "channel not found"@)),
        channel is Some && channel->0.channel_type == ChannelType::Dm ==> r matches ModerationStep::Known(
            false,
        ),
        channel is Some && channel->0.channel_type != ChannelType::Dm ==> match channel->0.server_id {
            Some(s) => r matches ModerationStep::CheckRole(sid) && sid@ == s@,
            None => r matches ModerationStep::Deny(e) && is_not_found(e, "channel not found"@),
        },
{
    match channel {
        None => ModerationStep::Deny(AppError::NotFound(owned("channel not found"))),
        Some(c) => {
            if c.channel_type == ChannelType::Dm {
                ModerationStep::Known(false)
            } else {
                match &c.server_id {
                    Some(s) => ModerationStep::CheckRole(s.clone()),
                    None => ModerationStep::Deny(AppError::NotFound(owned("channel not found"))),
                }
            }
        },
    }
}

// ------------------------------------------------------------ servers

/// Validates a name: trimmed, it must be non-empty; returns the trimmed name.
pub fn validate_name(name: &str) -> (r: AppResult<String>)
    ensures
        trim_seq(name@).len() == 0 ==> r is Err && is_validation(r->Err_0, "name is required"@),
        trim_seq(name@).len() > 0 ==> r is Ok && r->Ok_0@ == trim_seq(name@),
{
    let t = trim(name);
    if t.as_str().unicode_len() == 0 {
        Err(AppError::Validation(owned("name is required")))
    } else {
        Ok(t)
    }
}

/// The description a new server is created with: trimmed, and dropped when
/// empty.
pub fn new_server_description(description: Option<&str>) -> (r: Option<String>)
    ensures
        opt_view(r) == crate::board::trimmed_opt(crate::board::opt_str_view(description)),
{
    match description {
        Some(d) => {
            let t = trim(d);
            if t.as_str().unicode_len() > 0 {
                Some(t)
            } else {
                None
            }
        },
        None => None,
    }
}

/// Checks an update of a server by a member: moderators only, and a new
/// name, when given, must not be blank; returns the trimmed new name.
pub fn check_server_update(member: &Member, name: Option<&str>) -> (r: AppResult<Option<String>>)
    ensures
        !role_can_moderate(member.role) ==> r == Err::<Option<String>, AppError>(AppError::Forbidden),
        role_can_moderate(member.role) && name is None ==> r matches Ok(None),
        role_can_moderate(member.role) && name is Some && trim_seq(name->0@).len() == 0 ==> r is Err
            && is_validation(r->Err_0, "name is required"@),
        role_can_moderate(member.role) && name is Some && trim_seq(name->0@).len() > 0 ==> (r matches Ok(
            Some(n),
        ) && n@ == trim_seq(name->0@)),
{
    if !member.role.can_moderate() {
        return Err(AppError::Forbidden);
    }
    match name {
        None => Ok(None),
        Some(n) => {
            let t = validate_name(n)?;
            Ok(Some(t))
        },
    }
}

/// Harbour Home can never be deleted.
pub fn check_delete_target(server_id: &str) -> (r: AppResult<()>)
    ensures
        r is Ok <==> server_id@ != home_id(),
        r is Err ==> r == Err::<(), AppError>(AppError::Forbidden),
{
    if str_is(server_id, HARBOUR_HOME_SERVER_ID) {
        Err(AppError::Forbidden)
    } else {
        Ok(())
    }
}

/// Only a server's owner may delete it.
pub fn check_server_owner(owner_user_id: &str, user_id: &str) -> (r: AppResult<()>)
    ensures
        r is Ok <==> owner_user_id@ == user_id@,
        r is Err ==> r == Err::<(), AppError>(AppError::Forbidden),
{
    if str_is(owner_user_id, user_id) {
        Ok(())
    } else {
        Err(AppError::Forbidden)
    }
}

/// Checks adding a member: moderators only, and the user id must not be blank.
pub fn check_add_member(actor: &Member, user_id: &str) -> (r: AppResult<()>)
    ensures
        !role_can_moderate(actor.role) ==> r == Err::<(), AppError>(AppError::Forbidden),
        role_can_moderate(actor.role) && trim_seq(user_id@).len() == 0 ==> r is Err && is_validation(
            r->Err_0,
            "userId is required"@,
        ),
        role_can_moderate(actor.role) && trim_seq(user_id@).len() > 0 ==> r is Ok,
{
    if !actor.role.can_moderate() {
        return Err(AppError::Forbidden);
    }
    let t = trim(user_id);
    if t.as_str().unicode_len() == 0 {
        Err(AppError::Validation(owned("userId is required")))
    } else {
        Ok(())
    }
}

/// Checks creating a channel: in Harbour Home every member may; elsewhere
/// moderators only; the trimmed name must be non-empty. Returns it.
pub fn check_create_channel(server_id: &str, member: &Member, name: &str) -> (r: AppResult<String>)
    ensures
        server_id@ != home_id() && !role_can_moderate(member.role) ==> r == Err::<String, AppError>(
            AppError::Forbidden,
        ),
        (server_id@ == home_id() || role_can_moderate(member.role)) && trim_seq(name@).len() == 0 ==> r is Err
            && is_validation(r->Err_0, "name is required"@),
        (server_id@ == home_id() || role_can_moderate(member.role)) && trim_seq(name@).len() > 0 ==> r is Ok
            && r->Ok_0@ == trim_seq(name@),
{
    if !str_is(server_id, HARBOUR_HOME_SERVER_ID) && !member.role.can_moderate() {
        return Err(AppError::Forbidden);
    }
    validate_name(name)
}

/// Number of messages a page holds: `limit` clamped to 1..=100.
pub fn message_page_limit(limit: u32) -> (r: u32)
    ensures
        r == clamp_spec(limit, 1, 100),
{
    if limit < 1 {
        1
    } else if limit > 100 {
        100
    } else {
        limit
    }
}

// ------------------------------------------------------------ messages

/// Validates message content: trimmed, non-empty and at most 4000 bytes.
/// Returns the trimmed content.
pub fn validate_message_content(content: &str) -> (r: AppResult<String>)
    requires
        utf8_len(trim_seq(content@)) <= usize::MAX,
    ensures
        trim_seq(content@).len() == 0 ==> r is Err && is_validation(r->Err_0, "content is required"@),
        trim_seq(content@).len() > 0 && utf8_len(trim_seq(content@)) > 4000 ==> r is Err && is_validation(
            r->Err_0,
            "content must be at most 4000 characters"@,
        ),
        trim_seq(content@).len() > 0 && utf8_len(trim_seq(content@)) <= 4000 ==> r is Ok && r->Ok_0@
            == trim_seq(content@),
{
    let t = trim(content);
    if t.as_str().unicode_len() == 0 {
        return Err(AppError::Validation(owned("content is required")));
    }
    if t.as_str().len() > MAX_MESSAGE_LENGTH {
        return Err(AppError::Validation(owned("content must be at most 4000 characters")));
    }
    Ok(t)
}

/// Checks the looked-up target of a reply: it must exist and be in the
/// same channel.
pub fn check_reply_target(parent: Option<&Message>, channel_id: &str) -> (r: AppResult<()>)
    ensures
        parent is None ==> r is Err && is_not_found(r->Err_0, "reply target not found"@),
        parent is Some && parent->0.channel_id@ != channel_id@ ==> r is Err && is_validation(
            r->Err_0,
            "reply must reference a message in the same channel"@,
        ),
        parent is Some && parent->0.channel_id@ == channel_id@ ==> r is Ok,
{
    match parent {
        None => Err(AppError::NotFound(owned("reply target not found"))),
        Some(p) => {
            if str_is(p.channel_id.as_str(), channel_id) {
                Ok(())
            } else {
                Err(AppError::Validation(owned("reply must reference a message in the same channel")))
            }
        },
    }
}

/// The looked-up message, or `message not found`.
pub fn require_message(m: Option<Message>) -> (r: AppResult<Message>)
    ensures
        m is Some ==> r == Ok::<Message, AppError>(m->0),
        m is None ==> r is Err && is_not_found(r->Err_0, "message not found"@),
{
    match m {
        Some(m) => Ok(m),
        None => Err(AppError::NotFound(owned("message not found"))),
    }
}

/// A deleted message cannot be edited.
pub fn check_editable(existing: &Message) -> (r: AppResult<()>)
    ensures
        r is Ok <==> existing.deleted_at is None,
        r is Err ==> (r->Err_0 matches AppError::Conflict(m) && m@ == "message is deleted"@),
{
    if existing.deleted_at.is_some() {
        Err(AppError::Conflict(owned("message is deleted")))
    } else {
        Ok(())
    }
}

/// Whether changing `existing` as `user_id` needs moderator rights (it is
/// someone else's message).
pub fn needs_moderator(existing: &Message, user_id: &str) -> (r: bool)
    ensures
        r == (existing.author_user_id@ != user_id@),
{
    !str_is(existing.author_user_id.as_str(), user_id)
}

/// Someone else's message may be changed only by a moderator.
pub fn check_moderator(can_moderate: bool) -> (r: AppResult<()>)
    ensures
        r is Ok <==> can_moderate,
        r is Err ==> r == Err::<(), AppError>(AppError::Forbidden),
{
    if can_moderate {
        Ok(())
    } else {
        Err(AppError::Forbidden)
    }
}

/// Only the author may attach files to a message.
pub fn check_attachment_author(message: &Message, user_id: &str) -> (r: AppResult<()>)
    ensures
        r is Ok <==> message.author_user_id@ == user_id@,
        r is Err ==> r == Err::<(), AppError>(AppError::Forbidden),
{
    if str_is(message.author_user_id.as_str(), user_id) {
        Ok(())
    } else {
        Err(AppError::Forbidden)
    }
}

/// Validates a reaction emoji: trimmed, non-empty. Returns it trimmed.
pub fn validate_emoji(emoji: &str) -> (r: AppResult<String>)
    ensures
        trim_seq(emoji@).len() == 0 ==> r is Err && is_validation(r->Err_0, "emoji is required"@),
        trim_seq(emoji@).len() > 0 ==> r is Ok && r->Ok_0@ == trim_seq(emoji@),
{
    let t = trim(emoji);
    if t.as_str().unicode_len() == 0 {
        Err(AppError::Validation(owned("emoji is required")))
    } else {
        Ok(t)
    }
}

/// One may not open a direct message with oneself.
pub fn check_dm_peer(user_id: &str, other_user_id: &str) -> (r: AppResult<()>)
    ensures
        r is Ok <==> user_id@ != other_user_id@,
        r is Err ==> is_validation(r->Err_0, "cannot DM yourself"@),
{
    if str_is(other_user_id, user_id) {
        Err(AppError::Validation(owned("cannot DM yourself")))
    } else {
        Ok(())
    }
}

/// Voice operations need a voice channel.
pub fn check_voice_channel(channel: Option<&Channel>) -> (r: AppResult<()>)
    ensures
        channel is None ==> r is Err && is_not_found(r->Err_0, "channel not found"@),
        channel is Some && channel->0.channel_type != ChannelType::Voice ==> r is Err && is_validation(
            r->Err_0,
            "channel is not voice"@,
        ),
        channel is Some && channel->0.channel_type == ChannelType::Voice ==> r is Ok,
{
    match channel {
        None => Err(AppError::NotFound(owned("channel not found"))),
        Some(c) => {
            if c.channel_type == ChannelType::Voice {
                Ok(())
            } else {
                Err(AppError::Validation(owned("channel is not voice")))
            }
        },
    }
}

/// How long a typing indicator lasts, in milliseconds.
pub const TYPING_TTL_MS: i64 = 8000;

/// When a typing indicator set at `now_ms` expires.
pub fn typing_expiry(now_ms: i64) -> (r: i64)
    requires
        now_ms <= i64::MAX - 8000,
    ensures
        r == now_ms + 8000,
{
    now_ms + TYPING_TTL_MS
}

// ------------------------------------------------------- direct messages

/// Lexicographic order of character sequences (`str` order).
pub open spec fn seq_lt(a: Seq<char>, b: Seq<char>) -> bool
    decreases a.len(),
{
    if a.len() == 0 {
        b.len() > 0
    } else if b.len() == 0 {
        false
    } else if a[0] != b[0] {
        (a[0] as u32) < (b[0] as u32)
    } else {
        seq_lt(a.drop_first(), b.drop_first())
    }
}

/// Whether `a` sorts before `b` (as `str` comparison, which for UTF-8 is
/// code-point order).
pub fn str_lt(a: &str, b: &str) -> (r: bool)
    ensures
        r == seq_lt(a@, b@),
{
    let va = chars_of(a);
    let vb = chars_of(b);
    let mut i: usize = 0;
    proof {
        assert(a@.skip(0) =~= a@);
        assert(b@.skip(0) =~= b@);
    }
    while i < va.len() && i < vb.len() && va[i] == vb[i]
        invariant
            i <= va.len(),
            i <= vb.len(),
            va@ == a@,
            vb@ == b@,
            forall|j: int| 0 <= j < i ==> va@[j] == vb@[j],
            seq_lt(a@, b@) == seq_lt(a@.skip(i as int), b@.skip(i as int)),
        decreases va.len() - i,
    {
        proof {
            let (x, y) = (a@.skip(i as int), b@.skip(i as int));
            assert(x.drop_first() =~= a@.skip(i + 1));
            assert(y.drop_first() =~= b@.skip(i + 1));
        }
        i = i + 1;
    }
    proof {
        if i < va.len() && i < vb.len() {
            assert(a@.skip(i as int)[0] == va@[i as int]);
            assert(b@.skip(i as int)[0] == vb@[i as int]);
        }
    }
    if i == va.len() {
        i < vb.len()
    } else if i == vb.len() {
        false
    } else {
        let x: u32 = va[i] as u32;
        let y: u32 = vb[i] as u32;
        x < y
    }
}

/// The two participants of a direct-message channel in canonical order
/// (smaller id first), and the channel's name `dm-{a}-{b}`.
pub fn dm_pair(user_a: &str, user_b: &str) -> (r: (String, String, String))
    ensures
        seq_lt(user_a@, user_b@) ==> r.0@ == user_a@ && r.1@ == user_b@,
        !seq_lt(user_a@, user_b@) ==> r.0@ == user_b@ && r.1@ == user_a@,
        r.2@ == "dm-"@ + r.0@ + "-"@ + r.1@,
{
    let (a, b) = if str_lt(user_a, user_b) {
        (owned(user_a), owned(user_b))
    } else {
        (owned(user_b), owned(user_a))
    };
    let name = concat_chars(
        &concat_chars(&concat_chars(&chars_of("dm-"), &chars_of(a.as_str())), &chars_of("-")),
        &chars_of(b.as_str()),
    );
    (a, b, string_of(&name))
}

/// The pair of a direct-message channel does not depend on who opens it.
pub proof fn law_dm_pair_symmetric(a: Seq<char>, b: Seq<char>)
    requires
        a != b,
    ensures
        seq_lt(a, b) != seq_lt(b, a),
    decreases a.len(),
{
    if a.len() > 0 && b.len() > 0 && a[0] == b[0] {
        assert(a.drop_first() != b.drop_first()) by {
            if a.drop_first() == b.drop_first() {
                assert(a =~= seq![a[0]] + a.drop_first());
                assert(b =~= seq![b[0]] + b.drop_first());
            }
        }
        law_dm_pair_symmetric(a.drop_first(), b.drop_first());
    } else if a.len() == 0 && b.len() == 0 {
        assert(a =~= b);
    } else if a.len() > 0 && b.len() > 0 {
        vstd::utf8::char_u32_cast(a[0], a[0] as u32);
        vstd::utf8::char_u32_cast(b[0], b[0] as u32);
    }
}

/// The preview of the last message shown in the DM inbox: decrypted when
/// possible, else `[encrypted]`.
pub fn inbox_preview(decrypted: AppResult<String>) -> (r: String)
    ensures
        decrypted is Ok ==> r@ == decrypted->Ok_0@,
        decrypted is Err ==> r@ == "[encrypted]"@,
{
    match decrypted {
        Ok(s) => s,
        Err(_) => owned("[encrypted]"),
    }
}

/// The inbox preview of a stored last message: its opened text, or
/// `[encrypted]` when it cannot be opened.
pub fn dm_inbox_preview(crypto: &EnvelopeCrypto, stored: &str) -> (r: String)
    ensures
        r@ == match decrypt_text_spec(crypto.master_key(), stored@) {
            Some(t) => t,
            None => "[encrypted]"@,
        },
{
    inbox_preview(crypto.decrypt_text(stored))
}

/// Opens the last-message previews of a direct-message inbox.
pub fn open_inbox_previews(crypto: &EnvelopeCrypto, entries: &mut Vec<DmInboxEntry>)
    ensures
        final(entries).len() == old(entries).len(),
        forall|i: int|
            0 <= i < old(entries).len() ==> {
                let before = #[trigger] old(entries)@[i];
                let after = final(entries)@[i];
                &&& after.channel_id == before.channel_id
                &&& after.other_user_id == before.other_user_id
                &&& after.other_display_name == before.other_display_name
                &&& after.unread_count == before.unread_count
                &&& after.updated_at == before.updated_at
                &&& match before.last_message_preview {
                    None => after.last_message_preview is None,
                    Some(p) => after.last_message_preview matches Some(q) && q@ == match decrypt_text_spec(
                        crypto.master_key(),
                        p@,
                    ) {
                        Some(t) => t,
                        None => "[encrypted]"@,
                    },
                }
            },
{
    let ghost before = entries@;
    let n = entries.len();
    let mut i: usize = 0;
    while i < n
        invariant
            n == before.len(),
            entries@.len() == n,
            i <= n,
            forall|j: int| i <= j < n ==> #[trigger] entries@[j] == before[j],
            forall|j: int|
                0 <= j < i ==> {
                    let b = #[trigger] before[j];
                    let a = entries@[j];
                    &&& a.channel_id == b.channel_id
                    &&& a.other_user_id == b.other_user_id
                    &&& a.other_display_name == b.other_display_name
                    &&& a.unread_count == b.unread_count
                    &&& a.updated_at == b.updated_at
                    &&& match b.last_message_preview {
                        None => a.last_message_preview is None,
                        Some(p) => a.last_message_preview matches Some(q) && q@ == match decrypt_text_spec(
                            crypto.master_key(),
                            p@,
                        ) {
                            Some(t) => t,
                            None => "[encrypted]"@,
                        },
                    }
                },
        decreases n - i,
    {
        let opened: Option<String> = match &entries[i].last_message_preview {
            None => None,
            Some(p) => Some(dm_inbox_preview(crypto, p.as_str())),
        };
        entries[i].last_message_preview = opened;
        i = i + 1;
    }
}

// ------------------------------------------------------------ replies

/// The quoted preview of a reply's parent; its content is what is stored.
pub fn reply_preview(parent: &Message) -> (r: ReplyPreview)
    ensures
        r.id == parent.id,
        r.author_user_id == parent.author_user_id,
        r.author_display_name == parent.author_display_name,
        r.content == parent.content,
        r.deleted_at == parent.deleted_at,
{
    ReplyPreview {
        id: parent.id.clone(),
        author_user_id: parent.author_user_id.clone(),
        author_display_name: parent.author_display_name.clone(),
        content: parent.content.clone(),
        deleted_at: parent.deleted_at,
    }
}

/// The quoted text of a reply as shown: opened, or blank when the parent
/// was deleted.
pub open spec fn shown_reply_text(kek: Option<Seq<u8>>, p: ReplyPreview) -> Option<Seq<char>> {
    if p.deleted_at is None {
        decrypt_text_spec(kek, p.content@)
    } else {
        Some(Seq::empty())
    }
}

/// Whether a message's stored text, and its quoted reply's, can be opened.
pub open spec fn message_opens(kek: Option<Seq<u8>>, m: Message) -> bool {
    &&& decrypt_text_spec(kek, m.content@) is Some
    &&& m.reply_to is Some ==> shown_reply_text(kek, m.reply_to->0) is Some
}

/// `after` is `before` with its text and its quoted reply's text opened,
/// everything else unchanged.
pub open spec fn message_opened(kek: Option<Seq<u8>>, before: Message, after: Message) -> bool {
    &&& after.content@ == decrypt_text_spec(kek, before.content@)->0
    &&& match before.reply_to {
        None => after.reply_to is None,
        Some(p) => after.reply_to matches Some(q) && q.content@ == shown_reply_text(kek, p)->0 && q.id
            == p.id && q.author_user_id == p.author_user_id && q.author_display_name
            == p.author_display_name && q.deleted_at == p.deleted_at,
    }
    &&& after.id == before.id
    &&& after.channel_id == before.channel_id
    &&& after.author_user_id == before.author_user_id
    &&& after.author_display_name == before.author_display_name
    &&& after.created_at == before.created_at
    &&& after.edited_at == before.edited_at
    &&& after.deleted_at == before.deleted_at
    &&& after.reply_to_message_id == before.reply_to_message_id
    &&& after.reactions == before.reactions
    &&& after.attachment == before.attachment
}

/// Opens the stored text of a message and of its quoted reply (the quoted
/// text of a deleted parent is blanked instead). Fails when either text
/// cannot be opened, leaving the message as it was.
pub fn open_message(crypto: &EnvelopeCrypto, m: &mut Message) -> (r: AppResult<()>)
    ensures
        r is Ok <==> message_opens(crypto.master_key(), *old(m)),
        r is Ok ==> message_opened(crypto.master_key(), *old(m), *final(m)),
        r is Err ==> *final(m) == *old(m),
{
    let content = match crypto.decrypt_text(m.content.as_str()) {
        Ok(c) => c,
        Err(e) => {
            return Err(e);
        },
    };
    let reply: Option<ReplyPreview> = match &m.reply_to {
        None => None,
        Some(p) => {
            let text = if p.deleted_at.is_none() {
                match crypto.decrypt_text(p.content.as_str()) {
                    Ok(t) => t,
                    Err(e) => {
                        return Err(e);
                    },
                }
            } else {
                String::new()
            };
            Some(
                ReplyPreview {
                    id: p.id.clone(),
                    author_user_id: p.author_user_id.clone(),
                    author_display_name: p.author_display_name.clone(),
                    content: text,
                    deleted_at: p.deleted_at,
                },
            )
        },
    };
    m.content = content;
    m.reply_to = reply;
    Ok(())
}

/// Opens every message of a list, in order; fails at the first one that
/// cannot be opened.
pub fn open_messages(crypto: &EnvelopeCrypto, messages: &mut Vec<Message>) -> (r: AppResult<()>)
    ensures
        final(messages).len() == old(messages).len(),
        r is Ok <==> forall|i: int|
            0 <= i < old(messages).len() ==> message_opens(crypto.master_key(), #[trigger] old(messages)@[i]),
        r is Ok ==> forall|i: int|
            0 <= i < old(messages).len() ==> message_opened(
                crypto.master_key(),
                #[trigger] old(messages)@[i],
                final(messages)@[i],
            ),
{
    let ghost before = messages@;
    let n = messages.len();
    let mut i: usize = 0;
    while i < n
        invariant
            n == before.len(),
            before == old(messages)@,
            messages@.len() == n,
            i <= n,
            forall|j: int| i <= j < n ==> #[trigger] messages@[j] == before[j],
            forall|j: int| 0 <= j < i ==> message_opens(crypto.master_key(), #[trigger] before[j]),
            forall|j: int|
                0 <= j < i ==> message_opened(crypto.master_key(), #[trigger] before[j], messages@[j]),
        decreases n - i,
    {
        let r = open_message(crypto, &mut messages[i]);
        match r {
            Err(e) => {
                assert(!message_opens(crypto.master_key(), before[i as int]));
                return Err(e);
            },
            Ok(()) => {},
        }
        i = i + 1;
    }
    Ok(())
}

/// Attaches a message's reactions and attachment, and, when its reply
/// target was found, the quoted preview of that target.
pub fn enrich_message(
    m: &mut Message,
    reactions: Vec<ReactionSummary>,
    attachment: Option<MessageAttachment>,
    reply_parent: Option<&Message>,
)
    ensures
        final(m).reactions@ == reactions@,
        final(m).attachment == attachment,
        match reply_parent {
            Some(p) => final(m).reply_to matches Some(rp) && rp.id == p.id && rp.author_user_id
                == p.author_user_id && rp.author_display_name == p.author_display_name && rp.content
                == p.content && rp.deleted_at == p.deleted_at,
            None => final(m).reply_to == old(m).reply_to,
        },
        final(m).id == old(m).id,
        final(m).channel_id == old(m).channel_id,
        final(m).author_user_id == old(m).author_user_id,
        final(m).author_display_name == old(m).author_display_name,
        final(m).content == old(m).content,
        final(m).created_at == old(m).created_at,
        final(m).edited_at == old(m).edited_at,
        final(m).deleted_at == old(m).deleted_at,
        final(m).reply_to_message_id == old(m).reply_to_message_id,
{
    m.reactions = reactions;
    m.attachment = attachment;
    if let Some(p) = reply_parent {
        m.reply_to = Some(reply_preview(p));
    }
}

// ------------------------------------------------------------ sharing

/// The share target for a direct-message conversation, labelled with the
/// other user's display name (or id).
pub fn dm_share_target(entry: &DmInboxEntry) -> (r: ShareTarget)
    ensures
        r.channel_id == entry.channel_id,
        r.label@ == "Direct · "@ + match entry.other_display_name {
            Some(d) => d@,
            None => entry.other_user_id@,
        },
        r.kind@ == "dm"@,
        r.server_name is None,
{
    let name: &str = match &entry.other_display_name {
        Some(d) => d.as_str(),
        None => entry.other_user_id.as_str(),
    };
    let label = concat_chars(&chars_of("Direct · "), &chars_of(name));
    ShareTarget {
        channel_id: entry.channel_id.clone(),
        label: string_of(&label),
        kind: owned("dm"),
        server_name: None,
    }
}

/// The share target for a server channel: only text channels can be
/// shared to; labelled `{server} / #{channel}`.
pub fn channel_share_target(server_name: &str, channel: &Channel) -> (r: Option<ShareTarget>)
    ensures
        channel.channel_type != ChannelType::Text ==> r is None,
        channel.channel_type == ChannelType::Text ==> (r matches Some(t) && t.channel_id == channel.id
            && t.label@ == server_name@ + " / #"@ + channel.name@ && t.kind@ == "channel"@
            && opt_view(t.server_name) == Some(server_name@)),
{
    if channel.channel_type != ChannelType::Text {
        return None;
    }
    let label = concat_chars(
        &concat_chars(&chars_of(server_name), &chars_of(" / #")),
        &chars_of(channel.name.as_str()),
    );
    Some(
        ShareTarget {
            channel_id: channel.id.clone(),
            label: string_of(&label),
            kind: owned("channel"),
            server_name: Some(owned(server_name)),
        },
    )
}

// ------------------------------------------------------------ reactions

/// A stored reaction row: (message id, emoji, user id).
pub type ReactionRow = (String, String, String);

/// Rows of `rows` on message `m`, in order.
pub open spec fn rows_on(rows: Seq<ReactionRow>, m: Seq<char>) -> Seq<ReactionRow>
    decreases rows.len(),
{
    if rows.len() == 0 {
        Seq::empty()
    } else {
        let rest = rows_on(rows.drop_last(), m);
        if rows.last().0@ == m {
            rest.push(rows.last())
        } else {
            rest
        }
    }
}

/// The users who reacted with emoji `e` among `rows`, in order.
pub open spec fn users_with(rows: Seq<ReactionRow>, e: Seq<char>) -> Seq<Seq<char>>
    decreases rows.len(),
{
    if rows.len() == 0 {
        Seq::empty()
    } else {
        let rest = users_with(rows.drop_last(), e);
        if rows.last().1@ == e {
            rest.push(rows.last().2@)
        } else {
            rest
        }
    }
}

/// The distinct emojis among `rows`, in order of first appearance.
pub open spec fn emojis_of(rows: Seq<ReactionRow>) -> Seq<Seq<char>>
    decreases rows.len(),
{
    if rows.len() == 0 {
        Seq::empty()
    } else {
        let rest = emojis_of(rows.drop_last());
        if rest.contains(rows.last().1@) {
            rest
        } else {
            rest.push(rows.last().1@)
        }
    }
}

/// `sums` summarizes the reactions on `m`: one summary per distinct emoji
/// (first-appearance order), listing the users who reacted with it (row
/// order) and their count.
pub open spec fn summaries_ok(sums: Seq<ReactionSummary>, rows: Seq<ReactionRow>, m: Seq<char>) -> bool {
    let mine = rows_on(rows, m);
    let es = emojis_of(mine);
    &&& sums.len() == es.len()
    &&& forall|i: int|
        0 <= i < sums.len() ==> {
            &&& (#[trigger] sums[i]).emoji@ == es[i]
            &&& sums[i].user_ids@.map_values(|u: String| u@) == users_with(mine, es[i])
            &&& sums[i].count == sums[i].user_ids@.len()
        }
}

proof fn lemma_users_with_step(rows: Seq<ReactionRow>, e: Seq<char>, i: int)
    requires
        0 <= i < rows.len(),
    ensures
        users_with(rows.take(i + 1), e) == if rows[i].1@ == e {
            users_with(rows.take(i), e).push(rows[i].2@)
        } else {
            users_with(rows.take(i), e)
        },
{
    assert(rows.take(i + 1).drop_last() =~= rows.take(i));
}

proof fn lemma_emojis_step(rows: Seq<ReactionRow>, i: int)
    requires
        0 <= i < rows.len(),
    ensures
        emojis_of(rows.take(i + 1)) == if emojis_of(rows.take(i)).contains(rows[i].1@) {
            emojis_of(rows.take(i))
        } else {
            emojis_of(rows.take(i)).push(rows[i].1@)
        },
{
    assert(rows.take(i + 1).drop_last() =~= rows.take(i));
}

proof fn lemma_rows_on_step(rows: Seq<ReactionRow>, m: Seq<char>, i: int)
    requires
        0 <= i < rows.len(),
    ensures
        rows_on(rows.take(i + 1), m) == if rows[i].0@ == m {
            rows_on(rows.take(i), m).push(rows[i])
        } else {
            rows_on(rows.take(i), m)
        },
{
    assert(rows.take(i + 1).drop_last() =~= rows.take(i));
}

/// The reaction summaries of message `message_id` from the stored rows.
pub fn reactions_for_message(rows: &Vec<ReactionRow>, message_id: &str) -> (r: Vec<ReactionSummary>)
    requires
        rows.len() <= u32::MAX,
    ensures
        summaries_ok(r@, rows@, message_id@),
{
    // Rows of this message, in order.
    let mut mine: Vec<ReactionRow> = Vec::new();
    let mut i: usize = 0;
    while i < rows.len()
        invariant
            i <= rows.len(),
            mine@ == rows_on(rows@.take(i as int), message_id@),
            mine.len() <= i,
        decreases rows.len() - i,
    {
        proof {
            lemma_rows_on_step(rows@, message_id@, i as int);
        }
        if str_is(rows[i].0.as_str(), message_id) {
            let row = &rows[i];
            mine.push((row.0.clone(), row.1.clone(), row.2.clone()));
        }
        i = i + 1;
    }
    proof {
        assert(rows@.take(rows.len() as int) =~= rows@);
    }
    let ghost ms = mine@;
    let mut sums: Vec<ReactionSummary> = Vec::new();
    let mut j: usize = 0;
    while j < mine.len()
        invariant
            j <= mine.len() <= rows.len() <= u32::MAX,
            ms == mine@,
            sums@.len() == emojis_of(ms.take(j as int)).len(),
            forall|k: int|
                0 <= k < sums@.len() ==> {
                    &&& (#[trigger] sums@[k]).emoji@ == emojis_of(ms.take(j as int))[k]
                    &&& sums@[k].user_ids@.map_values(|u: String| u@) == users_with(
                        ms.take(j as int),
                        emojis_of(ms.take(j as int))[k],
                    )
                    &&& sums@[k].count == sums@[k].user_ids@.len()
                    &&& sums@[k].user_ids@.len() <= j
                },
        decreases mine.len() - j,
    {
        proof {
            lemma_emojis_step(ms, j as int);
        }
        let e = &mine[j].1;
        let u = &mine[j].2;
        // Find the summary of this emoji, if any.
        let mut k: usize = 0;
        let mut pos: Option<usize> = None;
        while k < sums.len()
            invariant
                k <= sums.len(),
                pos is None ==> forall|x: int| 0 <= x < k ==> (#[trigger] sums@[x]).emoji@ != e@,
                pos is Some ==> pos->0 < sums.len() && sums@[pos->0 as int].emoji@ == e@,
            decreases sums.len() - k,
        {
            if pos.is_none() && str_is(sums[k].emoji.as_str(), e.as_str()) {
                pos = Some(k);
            }
            k = k + 1;
        }
        let ghost old_sums = sums@;
        let ghost es = emojis_of(ms.take(j as int));
        match pos {
            Some(p) => {
                assert(es.contains(e@)) by {
                    assert(es[p as int] == e@);
                }
                let mut s = sums.remove(p);
                let ghost before_ids = s.user_ids@;
                s.user_ids.push(u.clone());
                s.count = s.count + 1;
                proof {
                    assert(s.user_ids@.map_values(|x: String| x@) =~= before_ids.map_values(|x: String| x@).push(u@));
                }
                sums.insert(p, s);
                proof {
                    assert(sums@ =~= old_sums.update(p as int, s));
                }
            },
            None => {
                assert(!es.contains(e@)) by {
                    if es.contains(e@) {
                        let x = choose|x: int| 0 <= x < es.len() && es[x] == e@;
                        assert(old_sums[x].emoji@ == e@);
                    }
                }
                let mut ids: Vec<String> = Vec::new();
                ids.push(u.clone());
                proof {
                    assert(ids@.map_values(|x: String| x@) =~= seq![u@]);
                }
                sums.push(ReactionSummary { emoji: e.clone(), count: 1, user_ids: ids });
            },
        }
        proof {
            let es1 = emojis_of(ms.take(j + 1));
            lemma_emojis_no_dup(ms.take(j as int));
            assert forall|k: int| 0 <= k < sums@.len() implies {
                &&& (#[trigger] sums@[k]).emoji@ == es1[k]
                &&& sums@[k].user_ids@.map_values(|u: String| u@) == users_with(ms.take(j + 1), es1[k])
                &&& sums@[k].count == sums@[k].user_ids@.len()
                &&& sums@[k].user_ids@.len() <= j + 1
            } by {
                lemma_users_with_step(ms, es1[k], j as int);
                if k < es.len() {
                    assert(es1[k] == es[k]);
                    if es[k] == e@ {
                        assert(pos is Some);
                        assert(pos->0 == k) by {
                            if pos->0 != k {
                                assert(es[pos->0 as int] == e@);
                            }
                        }
                    }
                } else {
                    lemma_users_with_absent(ms.take(j as int), e@);
                }
            }
        }
        j = j + 1;
    }
    proof {
        assert(ms.take(ms.len() as int) =~= ms);
    }
    sums
}

proof fn lemma_emojis_no_dup(rows: Seq<ReactionRow>)
    ensures
        emojis_of(rows).no_duplicates(),
    decreases rows.len(),
{
    if rows.len() > 0 {
        lemma_emojis_no_dup(rows.drop_last());
    }
}

proof fn lemma_emojis_contains(rows: Seq<ReactionRow>, e: Seq<char>)
    ensures
        !emojis_of(rows).contains(e) ==> forall|i: int| 0 <= i < rows.len() ==> (#[trigger] rows[i]).1@ != e,
    decreases rows.len(),
{
    if rows.len() > 0 {
        lemma_emojis_contains(rows.drop_last(), e);
        if !emojis_of(rows).contains(e) {
            let d = rows.drop_last();
            let rest = emojis_of(d);
            if rest.contains(e) {
                let x = choose|x: int| 0 <= x < rest.len() && rest[x] == e;
                if rest.contains(rows.last().1@) {
                    assert(emojis_of(rows)[x] == e);
                } else {
                    assert(emojis_of(rows)[x] == e);
                }
            }
            assert forall|i: int| 0 <= i < rows.len() implies (#[trigger] rows[i]).1@ != e by {
                if i < d.len() {
                    assert(rows[i] == d[i]);
                } else {
                    if rows.last().1@ == e {
                        if rest.contains(e) {
                        } else {
                            assert(emojis_of(rows) == rest.push(e));
                            assert(emojis_of(rows)[rest.len() as int] == e);
                        }
                    }
                }
            }
        }
    }
}

proof fn lemma_users_with_absent(rows: Seq<ReactionRow>, e: Seq<char>)
    requires
        !emojis_of(rows).contains(e),
    ensures
        users_with(rows, e) == Seq::<Seq<char>>::empty(),
    decreases rows.len(),
{
    lemma_emojis_contains(rows, e);
    lemma_users_with_none(rows, e);
}

proof fn lemma_users_with_none(rows: Seq<ReactionRow>, e: Seq<char>)
    requires
        forall|i: int| 0 <= i < rows.len() ==> (#[trigger] rows[i]).1@ != e,
    ensures
        users_with(rows, e) == Seq::<Seq<char>>::empty(),
    decreases rows.len(),
{
    if rows.len() > 0 {
        let d = rows.drop_last();
        assert forall|i: int| 0 <= i < d.len() implies (#[trigger] d[i]).1@ != e by {
            assert(d[i] == rows[i]);
        }
        lemma_users_with_none(d, e);
        assert(rows.last() == rows[rows.len() - 1]);
    }
}

/// The kind of a channel to create from the request (`text` when not
/// given); only text and voice channels can be created this way.
pub fn parse_channel_kind(kind: Option<&str>) -> (r: AppResult<ChannelType>)
    ensures
        match kind {
            None => r == Ok::<ChannelType, AppError>(ChannelType::Text),
            Some(k) => if k@ == "text"@ {
                r == Ok::<ChannelType, AppError>(ChannelType::Text)
            } else if k@ == "voice"@ {
                r == Ok::<ChannelType, AppError>(ChannelType::Voice)
            } else {
                r is Err && is_validation(r->Err_0, "unsupported channel type: "@ + k@)
            },
        },
{
    match kind {
        None => Ok(ChannelType::Text),
        Some(k) => if str_is(k, "text") {
            Ok(ChannelType::Text)
        } else if str_is(k, "voice") {
            Ok(ChannelType::Voice)
        } else {
            let m = concat_chars(&chars_of("unsupported channel type: "), &chars_of(k));
            Err(AppError::Validation(string_of(&m)))
        },
    }
}

/// The presence status from the request (`online` when not given).
pub fn parse_presence_status(status: Option<&str>) -> (r: AppResult<PresenceStatus>)
    ensures
        match status {
            None => r == Ok::<PresenceStatus, AppError>(PresenceStatus::Online),
            Some(s) => match presence_from_name(s@) {
                Some(p) => r == Ok::<PresenceStatus, AppError>(p),
                None => r is Err && is_validation(r->Err_0, "invalid presence status"@),
            },
        },
{
    match status {
        None => Ok(PresenceStatus::Online),
        Some(s) => match PresenceStatus::from_str(s) {
            Some(p) => Ok(p),
            None => Err(AppError::Validation(owned("invalid presence status"))),
        },
    }
}

} // verus!
