//! Service settings and how they are read from environment variables.
use vstd::prelude::*;

use crate::entities::str_is;
use crate::error::{is_validation, AppError, AppResult};
use crate::num::{parse_i64, parse_unsigned, signed_text_value, unsigned_text_value};
use crate::text::{owned, split_on, string_of, trim, trim_chars, trim_seq};

verus! {

/// Settings of the service. Paths are kept as text.
#[derive(Clone, Debug)]
pub struct Config {
    pub port: u16,
    pub db_path: String,
    pub data_dir: String,
    pub trust_gateway_headers: bool,
    pub dev_user_id: Option<String>,
    pub dev_user_email: Option<String>,
    pub dev_user_display_name: Option<String>,
    pub package_name: String,
    pub package_version: String,
    pub max_attachment_bytes: u64,
    pub require_https_forwarded_proto: bool,
    pub trusted_proxy_token: Option<String>,
    pub master_key_b64: Option<String>,
    pub master_key_id: String,
    pub enable_security_audit_log: bool,
    pub quarantine_suspicious_attachments: bool,
    pub voice_sfu_base_url: String,
    pub voice_turn_urls: Vec<String>,
    pub voice_turn_secret: String,
    pub voice_turn_ttl_seconds: i64,
    /// Internal ForwardAuth URL used to validate WebSocket sessions.
    pub portcullis_forward_url: String,
    /// Host header sent when resolving the app scope of a WebSocket session.
    pub forward_auth_host: String,
    /// Forwarded URI sent when resolving the app scope of a WebSocket session.
    pub forward_auth_uri: String,
}

/// The environment variables the settings are read from, each as found
/// (absent, or not valid Unicode, is `None`).
#[derive(Clone, Debug, Default)]
pub struct EnvVars {
    pub port: Option<String>,
    pub chat_db_path: Option<String>,
    pub chat_data_dir: Option<String>,
    pub trust_gateway_headers: Option<String>,
    pub dev_user_id: Option<String>,
    pub dev_user_email: Option<String>,
    pub dev_user_display_name: Option<String>,
    pub chat_max_attachment_bytes: Option<String>,
    pub chat_require_https_forwarded_proto: Option<String>,
    pub chat_trusted_proxy_token: Option<String>,
    pub chat_master_key_b64: Option<String>,
    pub chat_master_key_id: Option<String>,
    pub chat_enable_security_audit_log: Option<String>,
    pub chat_quarantine_suspicious_attachments: Option<String>,
    pub chat_voice_sfu_base_url: Option<String>,
    pub chat_voice_turn_urls: Option<String>,
    pub chat_voice_turn_secret: Option<String>,
    pub chat_voice_turn_ttl_seconds: Option<String>,
    pub chat_portcullis_forward_url: Option<String>,
    pub chat_forward_auth_host: Option<String>,
    pub chat_forward_auth_uri: Option<String>,
}

/// Default size limit of an upload: 10 MiB.
pub const DEFAULT_MAX_ATTACHMENT_BYTES: u64 = 10_485_760;

/// A switch that is on unless set to `false` or `0`.
pub open spec fn switch_on(v: Option<String>) -> bool {
    match v {
        None => true,
        Some(s) => s@ != "false"@ && s@ != "0"@,
    }
}

/// Trusting gateway headers: on when unset, else only when set to `true`.
pub open spec fn trust_on(v: Option<String>) -> bool {
    match v {
        None => true,
        Some(s) => s@ == "true"@,
    }
}

/// The variable's text, or `default`.
pub open spec fn text_or(v: Option<String>, default: Seq<char>) -> Seq<char> {
    match v {
        None => default,
        Some(s) => s@,
    }
}

/// The variable read as an unsigned number of at most `max`, or `default`.
pub open spec fn unsigned_or(v: Option<String>, max: nat, default: nat) -> nat {
    match v {
        None => default,
        Some(s) => match unsigned_text_value(s@) {
            Some(n) => if n <= max {
                n
            } else {
                default
            },
            None => default,
        },
    }
}

/// The variable read as a signed 64-bit number, or `default`.
pub open spec fn i64_or(v: Option<String>, default: int) -> int {
    match v {
        None => default,
        Some(s) => match signed_text_value(s@) {
            Some(n) => if i64::MIN <= n <= i64::MAX {
                n
            } else {
                default
            },
            None => default,
        },
    }
}

/// The trimmed pieces that are not empty.
pub open spec fn kept_pieces(pieces: Seq<Seq<char>>) -> Seq<Seq<char>>
    decreases pieces.len(),
{
    if pieces.len() == 0 {
        Seq::empty()
    } else {
        let rest = kept_pieces(pieces.drop_last());
        let t = trim_seq(pieces.last());
        if t.len() > 0 {
            rest.push(t)
        } else {
            rest
        }
    }
}

/// The TURN URLs of a comma-separated list: each trimmed, empty ones left out.
pub open spec fn url_list(v: Option<String>) -> Seq<Seq<char>> {
    match v {
        None => Seq::empty(),
        Some(s) => kept_pieces(split_on(s@, ',')),
    }
}

/// The views of some strings.
pub open spec fn views(v: Seq<String>) -> Seq<Seq<char>> {
    v.map_values(|s: String| s@)
}

fn switch(v: &Option<String>) -> (r: bool)
    ensures
        r == switch_on(*v),
{
    match v {
        None => true,
        Some(s) => !str_is(s.as_str(), "false") && !str_is(s.as_str(), "0"),
    }
}

fn text_or_default(v: Option<String>, default: &str) -> (r: String)
    ensures
        r@ == text_or(v, default@),
{
    match v {
        None => owned(default),
        Some(s) => s,
    }
}

fn keep_piece(out: &mut Vec<String>, piece: &Vec<char>, Ghost(done): Ghost<Seq<Seq<char>>>)
    requires
        views(old(out)@) == kept_pieces(done),
    ensures
        views(final(out)@) == kept_pieces(done.push(piece@)),
{
    let t = trim_chars(piece);
    assert(done.push(piece@).drop_last() =~= done);
    if t.len() > 0 {
        out.push(string_of(&t));
        assert(views(out@) =~= views(old(out)@).push(t@));
    }
}

/// Splits a comma-separated list into its trimmed, non-empty items.
pub fn split_url_list(s: &str) -> (r: Vec<String>)
    ensures
        views(r@) == kept_pieces(split_on(s@, ',')),
{
    let v = crate::text::chars_of(s);
    let mut out: Vec<String> = Vec::new();
    let mut cur: Vec<char> = Vec::new();
    let ghost mut done: Seq<Seq<char>> = Seq::empty();
    let mut i: usize = 0;
    assert(v@.take(0) =~= Seq::<char>::empty());
    assert(views(out@) =~= Seq::<Seq<char>>::empty());
    while i < v.len()
        invariant
            i <= v.len(),
            split_on(v@.take(i as int), ',') == done.push(cur@),
            views(out@) == kept_pieces(done),
        decreases v.len() - i,
    {
        let c = v[i];
        assert(v@.take(i + 1).drop_last() =~= v@.take(i as int));
        assert(v@.take(i + 1).last() == c);
        if c == ',' {
            keep_piece(&mut out, &cur, Ghost(done));
            proof {
                done = done.push(cur@);
            }
            cur = Vec::new();
            assert(split_on(v@.take(i + 1), ',') =~= done.push(cur@));
        } else {
            let ghost old_cur = cur@;
            cur.push(c);
            assert(done.push(old_cur).update(done.len() as int, old_cur.push(c)) =~= done.push(cur@));
        }
        i = i + 1;
    }
    assert(v@.take(v.len() as int) =~= v@);
    keep_piece(&mut out, &cur, Ghost(done));
    out
}

impl Config {
    /// Reads the settings from the environment variables, with defaults for
    /// those unset or unreadable.
    pub fn from_env_vars(vars: EnvVars, package_version: String) -> (c: Config)
        ensures
            c.port == unsigned_or(vars.port, 65535, 3004),
            c.db_path@ == text_or(vars.chat_db_path, "./data/chat.db"@),
            c.data_dir@ == text_or(vars.chat_data_dir, "./data"@),
            c.trust_gateway_headers == trust_on(vars.trust_gateway_headers),
            c.dev_user_id == vars.dev_user_id,
            c.dev_user_email == vars.dev_user_email,
            c.dev_user_display_name == vars.dev_user_display_name,
            c.package_name@ == "harbour-chat"@,
            c.package_version == package_version,
            c.max_attachment_bytes == unsigned_or(
                vars.chat_max_attachment_bytes,
                u64::MAX as nat,
                DEFAULT_MAX_ATTACHMENT_BYTES as nat,
            ),
            c.require_https_forwarded_proto == switch_on(vars.chat_require_https_forwarded_proto),
            c.trusted_proxy_token == vars.chat_trusted_proxy_token,
            c.master_key_b64 == vars.chat_master_key_b64,
            c.master_key_id@ == text_or(vars.chat_master_key_id, "local-v1"@),
            c.enable_security_audit_log == switch_on(vars.chat_enable_security_audit_log),
            c.quarantine_suspicious_attachments == switch_on(
                vars.chat_quarantine_suspicious_attachments,
            ),
            c.voice_sfu_base_url@ == text_or(
                vars.chat_voice_sfu_base_url,
                "http://harbour-chat-sfu:4000"@,
            ),
            views(c.voice_turn_urls@) == url_list(vars.chat_voice_turn_urls),
            c.voice_turn_secret@ == text_or(vars.chat_voice_turn_secret, "harbour-dev-turn-secret"@),
            c.voice_turn_ttl_seconds == i64_or(vars.chat_voice_turn_ttl_seconds, 3600),
            c.portcullis_forward_url@ == text_or(
                vars.chat_portcullis_forward_url,
                "http://harbour-portcullis:3000/auth/forward"@,
            ),
            c.forward_auth_host@ == text_or(vars.chat_forward_auth_host, "chat.harbour.local"@),
            c.forward_auth_uri@ == text_or(vars.chat_forward_auth_uri, "/ws"@),
    {
        let trust_gateway_headers = match &vars.trust_gateway_headers {
            None => true,
            Some(v) => str_is(v.as_str(), "true"),
        };
        let port: u16 = match &vars.port {
            None => 3004,
            Some(p) => match parse_unsigned(p.as_str(), 65535) {
                Some(n) => n as u16,
                None => 3004,
            },
        };
        let max_attachment_bytes: u64 = match &vars.chat_max_attachment_bytes {
            None => DEFAULT_MAX_ATTACHMENT_BYTES,
            Some(p) => match parse_unsigned(p.as_str(), u64::MAX) {
                Some(n) => n,
                None => DEFAULT_MAX_ATTACHMENT_BYTES,
            },
        };
        let voice_turn_ttl_seconds: i64 = match &vars.chat_voice_turn_ttl_seconds {
            None => 3600,
            Some(p) => match parse_i64(p.as_str()) {
                Some(n) => n,
                None => 3600,
            },
        };
        let voice_turn_urls: Vec<String> = match &vars.chat_voice_turn_urls {
            None => {
                let empty: Vec<String> = Vec::new();
                assert(views(empty@) =~= Seq::<Seq<char>>::empty());
                empty
            },
            Some(v) => split_url_list(v.as_str()),
        };
        let require_https_forwarded_proto = switch(&vars.chat_require_https_forwarded_proto);
        let enable_security_audit_log = switch(&vars.chat_enable_security_audit_log);
        let quarantine_suspicious_attachments = switch(&vars.chat_quarantine_suspicious_attachments);
        Config {
            port,
            db_path: text_or_default(vars.chat_db_path, "./data/chat.db"),
            data_dir: text_or_default(vars.chat_data_dir, "./data"),
            trust_gateway_headers,
            dev_user_id: vars.dev_user_id,
            dev_user_email: vars.dev_user_email,
            dev_user_display_name: vars.dev_user_display_name,
            package_name: owned("harbour-chat"),
            package_version,
            max_attachment_bytes,
            require_https_forwarded_proto,
            trusted_proxy_token: vars.chat_trusted_proxy_token,
            master_key_b64: vars.chat_master_key_b64,
            master_key_id: text_or_default(vars.chat_master_key_id, "local-v1"),
            enable_security_audit_log,
            quarantine_suspicious_attachments,
            voice_sfu_base_url: text_or_default(
                vars.chat_voice_sfu_base_url,
                "http://harbour-chat-sfu:4000",
            ),
            voice_turn_urls,
            voice_turn_secret: text_or_default(vars.chat_voice_turn_secret, "harbour-dev-turn-secret"),
            voice_turn_ttl_seconds,
            portcullis_forward_url: text_or_default(
                vars.chat_portcullis_forward_url,
                "http://harbour-portcullis:3000/auth/forward",
            ),
            forward_auth_host: text_or_default(vars.chat_forward_auth_host, "chat.harbour.local"),
            forward_auth_uri: text_or_default(vars.chat_forward_auth_uri, "/ws"),
        }
    }
}

impl Config {
    /// Settings for tests: the given database and data directory, a dev
    /// user, a fixed test master key, and local voice endpoints.
    pub fn for_test(db_path: String, data_dir: String) -> (c: Config)
        ensures
            c.port == 0,
            c.db_path == db_path,
            c.data_dir == data_dir,
            !c.trust_gateway_headers,
            c.dev_user_id matches Some(u) && u@ == "dev-user"@,
            c.dev_user_email matches Some(e) && e@ == "dev@harbour.local"@,
            c.dev_user_display_name matches Some(d) && d@ == "Dev User"@,
            c.package_name@ == "harbour-chat"@,
            c.package_version@ == "test"@,
            c.max_attachment_bytes == DEFAULT_MAX_ATTACHMENT_BYTES,
            !c.require_https_forwarded_proto,
            c.trusted_proxy_token is None,
            c.master_key_b64 matches Some(k) && k@ == "QkJCQkJCQkJCQkJCQkJCQkJCQkJCQkJCQkJCQkJCQkI="@,
            c.master_key_id@ == "test-v1"@,
            c.enable_security_audit_log,
            c.quarantine_suspicious_attachments,
            c.voice_sfu_base_url@ == "http://localhost:4000"@,
            c.voice_turn_urls.len() == 1 && c.voice_turn_urls[0]@ == "stun:stun.l.google.com:19302"@,
            c.voice_turn_secret@ == "harbour-dev-turn-secret"@,
            c.voice_turn_ttl_seconds == 3600,
            c.portcullis_forward_url@ == "http://127.0.0.1:1/auth/forward"@,
            c.forward_auth_host@ == "chat.harbour.local"@,
            c.forward_auth_uri@ == "/ws"@,
    {
        let mut turn: Vec<String> = Vec::new();
        turn.push(owned("stun:stun.l.google.com:19302"));
        Config {
            port: 0,
            db_path,
            data_dir,
            trust_gateway_headers: false,
            dev_user_id: Some(owned("dev-user")),
            dev_user_email: Some(owned("dev@harbour.local")),
            dev_user_display_name: Some(owned("Dev User")),
            package_name: owned("harbour-chat"),
            package_version: owned("test"),
            max_attachment_bytes: DEFAULT_MAX_ATTACHMENT_BYTES,
            require_https_forwarded_proto: false,
            trusted_proxy_token: None,
            master_key_b64: Some(owned("QkJCQkJCQkJCQkJCQkJCQkJCQkJCQkJCQkJCQkJCQkI=")),
            master_key_id: owned("test-v1"),
            enable_security_audit_log: true,
            quarantine_suspicious_attachments: true,
            voice_sfu_base_url: owned("http://localhost:4000"),
            voice_turn_urls: turn,
            voice_turn_secret: owned("harbour-dev-turn-secret"),
            voice_turn_ttl_seconds: 3600,
            portcullis_forward_url: owned("http://127.0.0.1:1/auth/forward"),
            forward_auth_host: owned("chat.harbour.local"),
            forward_auth_uri: owned("/ws"),
        }
    }

    /// Checks the settings before the service starts: trusting gateway
    /// headers fails closed unless both the proxy token and the master key
    /// are set (not blank).
    pub fn validate_runtime(&self) -> (r: AppResult<()>)
        ensures
            r is Err <==> self.trust_gateway_headers && (blank_setting(self.trusted_proxy_token)
                || blank_setting(self.master_key_b64)),
            r is Err && blank_setting(self.trusted_proxy_token) ==> is_validation(
                r->Err_0,
                "CHAT_TRUSTED_PROXY_TOKEN is required when TRUST_GATEWAY_HEADERS=true"@,
            ),
            r is Err && !blank_setting(self.trusted_proxy_token) ==> is_validation(
                r->Err_0,
                "CHAT_MASTER_KEY_B64 is required when TRUST_GATEWAY_HEADERS=true"@,
            ),
    {
        if self.trust_gateway_headers {
            if blank(&self.trusted_proxy_token) {
                return Err(
                    AppError::Validation(
                        owned("CHAT_TRUSTED_PROXY_TOKEN is required when TRUST_GATEWAY_HEADERS=true"),
                    ),
                );
            }
            if blank(&self.master_key_b64) {
                return Err(
                    AppError::Validation(owned("CHAT_MASTER_KEY_B64 is required when TRUST_GATEWAY_HEADERS=true")),
                );
            }
        }
        Ok(())
    }
}

/// A setting that is unset or only whitespace.
pub open spec fn blank_setting(v: Option<String>) -> bool {
    match v {
        None => true,
        Some(t) => trim_seq(t@).len() == 0,
    }
}

fn blank(v: &Option<String>) -> (r: bool)
    ensures
        r == blank_setting(*v),
{
    match v {
        None => true,
        Some(t) => trim(t.as_str()).as_str().unicode_len() == 0,
    }
}

/// The text shown for a migrations path.
pub fn migration_path_hint(path: &str) -> (r: String)
    ensures
        r@ == path@,
{
    owned(path)
}

} // verus!
