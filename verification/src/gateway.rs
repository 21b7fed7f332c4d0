//! Identity at the trust boundary: which requests are accepted as which
//! user, from gateway headers, the session cookie, or the dev identity.
use vstd::prelude::*;

use crate::entities::GatewayIdentity;
use crate::error::AppError;
use crate::text::{
    chars_of, concat_chars, has_prefix, is_ws, owned, split_on, string_of, trim_bounds, trim_seq,
};

verus! {

/// Name of the session cookie the gateway issues.
pub const SESSION_COOKIE_NAME: &'static str = "harbour_session";

/// Scope a user needs to use the Board app.
pub const APP_BOARD_SCOPE: &'static str = "app:board";

/// The first cookie part (in order) that, trimmed, starts with `prefix`,
/// with the prefix removed.
pub open spec fn first_cookie(parts: Seq<Seq<char>>, prefix: Seq<char>) -> Option<Seq<char>>
    decreases parts.len(),
{
    if parts.len() == 0 {
        None
    } else {
        match first_cookie(parts.drop_last(), prefix) {
            Some(v) => Some(v),
            None => {
                let t = trim_seq(parts.last());
                if has_prefix(t, prefix) {
                    Some(t.skip(prefix.len() as int))
                } else {
                    None
                }
            },
        }
    }
}

/// The value of the `harbour_session` cookie in a `Cookie` header.
pub open spec fn session_cookie_spec(header: Seq<char>) -> Option<Seq<char>> {
    first_cookie(split_on(header, ';'), "harbour_session="@)
}

/// Checks whether the part `v[lo..hi]` is the session cookie; on success,
/// the bounds of its value.
fn cookie_part(v: &Vec<char>, lo: usize, hi: usize, prefix: &Vec<char>) -> (r: Option<(usize, usize)>)
    requires
        lo <= hi <= v.len(),
    ensures
        match r {
            Some((a, b)) => a <= b <= v.len() && has_prefix(trim_seq(v@.subrange(lo as int, hi as int)), prefix@)
                && v@.subrange(a as int, b as int) == trim_seq(v@.subrange(lo as int, hi as int)).skip(
                prefix@.len() as int,
            ),
            None => !has_prefix(trim_seq(v@.subrange(lo as int, hi as int)), prefix@),
        },
{
    let (a, b) = trim_bounds(v, lo, hi);
    let ghost t = v@.subrange(a as int, b as int);
    if b - a < prefix.len() {
        assert(t.len() == b - a);
        assert(!has_prefix(trim_seq(v@.subrange(lo as int, hi as int)), prefix@));
        return None;
    }
    let mut k: usize = 0;
    while k < prefix.len()
        invariant
            k <= prefix.len() <= b - a,
            a <= b <= v.len(),
            t == v@.subrange(a as int, b as int),
            t == trim_seq(v@.subrange(lo as int, hi as int)),
            forall|j: int| 0 <= j < k ==> v@[a + j] == prefix@[j],
        decreases prefix.len() - k,
    {
        if v[a + k] != prefix[k] {
            assert(t.take(prefix.len() as int)[k as int] != prefix@[k as int]);
            return None;
        }
        k = k + 1;
    }
    assert(t.take(prefix.len() as int) =~= prefix@);
    assert(v@.subrange((a + prefix.len()) as int, b as int) =~= t.skip(prefix.len() as int));
    Some((a + prefix.len(), b))
}

/// The value of the `harbour_session` cookie in a `Cookie` header: the
/// first `;`-separated part that, trimmed, starts with `harbour_session=`.
pub fn session_cookie_value(cookie_header: Option<&str>) -> (r: Option<&str>)
    ensures
        match cookie_header {
            None => r is None,
            Some(h) => match session_cookie_spec(h@) {
                Some(v) => r is Some && r->0@ == v,
                None => r is None,
            },
        },
{
    let h = match cookie_header {
        Some(h) => h,
        None => {
            return None;
        },
    };
    let v = chars_of(h);
    let prefix = chars_of("harbour_session=");
    let n = v.len();
    let mut start: usize = 0;
    let mut found: Option<(usize, usize)> = None;
    let ghost mut done: Seq<Seq<char>> = Seq::empty();
    let mut i: usize = 0;
    proof {
        assert(v@.take(0) =~= Seq::<char>::empty());
        assert(v@.subrange(0, 0) =~= Seq::<char>::empty());
        assert(split_on(Seq::<char>::empty(), ';') =~= done.push(v@.subrange(0, 0)));
    }
    while i < n
        invariant
            i <= n == v.len(),
            start <= i,
            v@ == h@,
            split_on(v@.take(i as int), ';') == done.push(v@.subrange(start as int, i as int)),
            match found {
                Some((a, b)) => a <= b <= n && first_cookie(done, prefix@) == Some(
                    v@.subrange(a as int, b as int),
                ),
                None => first_cookie(done, prefix@) is None,
            },
        decreases n - i,
    {
        proof {
            assert(v@.take(i + 1).drop_last() =~= v@.take(i as int));
            assert(v@.take(i + 1).last() == v@[i as int]);
        }
        if v[i] == ';' {
            if found.is_none() {
                found = cookie_part(&v, start, i, &prefix);
            }
            proof {
                assert(done.push(v@.subrange(start as int, i as int)).drop_last() =~= done);
                done = done.push(v@.subrange(start as int, i as int));
                assert(v@.subrange((i + 1) as int, (i + 1) as int) =~= Seq::<char>::empty());
            }
            start = i + 1;
        } else {
            proof {
                let old_parts = done.push(v@.subrange(start as int, i as int));
                assert(old_parts.last().push(v@[i as int]) =~= v@.subrange(start as int, i + 1));
                assert(old_parts.update(old_parts.len() - 1, old_parts.last().push(v@[i as int]))
                    =~= done.push(v@.subrange(start as int, i + 1)));
            }
        }
        i = i + 1;
    }
    if found.is_none() {
        found = cookie_part(&v, start, n, &prefix);
    }
    proof {
        assert(v@.take(n as int) =~= v@);
        let parts = done.push(v@.subrange(start as int, n as int));
        assert(parts.drop_last() =~= done);
    }
    match found {
        Some((a, b)) => Some(h.substring_char(a, b)),
        None => None,
    }
}

// ------------------------------------------------------------ identity

/// `tok` occurs in `s` as a whole whitespace-separated token.
pub open spec fn token_at(s: Seq<char>, tok: Seq<char>, i: int) -> bool {
    &&& 0 <= i
    &&& i + tok.len() <= s.len()
    &&& s.subrange(i, i + tok.len()) == tok
    &&& (i == 0 || is_ws(s[i - 1]))
    &&& (i + tok.len() == s.len() || is_ws(s[i + tok.len()]))
}

/// The whitespace-separated list `s` holds the token `tok`.
pub open spec fn has_token(s: Seq<char>, tok: Seq<char>) -> bool {
    exists|i: int| #[trigger] token_at(s, tok, i)
}

/// Whether the whitespace-separated scope list holds `app:board`.
pub fn has_board_scope(scopes: &str) -> (r: bool)
    ensures
        r == has_token(scopes@, "app:board"@),
{
    let v = chars_of(scopes);
    let tok = chars_of(APP_BOARD_SCOPE);
    let n = v.len();
    let m = tok.len();
    proof {
        reveal_strlit("app:board");
    }
    assert(m == 9);
    if m > n {
        proof {
            assert forall|j: int| !#[trigger] token_at(v@, tok@, j) by {}
        }
        return false;
    }
    let mut i: usize = 0;
    while i <= n - m
        invariant
            m <= n,
            m == 9,
            v@ == scopes@,
            tok@ == "app:board"@,
            n == v.len(),
            m == tok.len(),
            forall|j: int| 0 <= j < i ==> !#[trigger] token_at(v@, tok@, j),
        decreases n - m + 1 - i,
    {
        let mut matches = true;
        let mut k: usize = 0;
        while k < m
            invariant
                k <= m,
                i + m <= n,
                n == v.len(),
                m == tok.len(),
                matches == forall|j: int| 0 <= j < k ==> v@[i + j] == tok@[j],
            decreases m - k,
        {
            if v[i + k] != tok[k] {
                matches = false;
            }
            k = k + 1;
        }
        let left_ok = i == 0 || crate::text::is_whitespace(v[i - 1]);
        let right_ok = i + m == n || crate::text::is_whitespace(v[i + m]);
        if matches && left_ok && right_ok {
            assert(v@.subrange(i as int, i + m) =~= tok@);
            assert(token_at(v@, tok@, i as int));
            return true;
        }
        proof {
            if v@.subrange(i as int, i + m) == tok@ {
                assert forall|j: int| 0 <= j < m implies v@[i + j] == tok@[j] by {
                    assert(v@.subrange(i as int, i + m)[j] == v@[i + j]);
                }
            }
        }
        i = i + 1;
    }
    proof {
        assert forall|j: int| !#[trigger] token_at(v@, tok@, j) by {
            if 0 <= j && j < i {
            }
        }
    }
    false
}

/// The trimmed header value, when present and non-empty after trimming.
pub open spec fn trimmed_nonempty(o: Option<Seq<char>>) -> Option<Seq<char>> {
    match o {
        Some(s) => if trim_seq(s).len() > 0 {
            Some(trim_seq(s))
        } else {
            None
        },
        None => None,
    }
}

/// Optional string view.
pub open spec fn ov(o: Option<String>) -> Option<Seq<char>> {
    match o {
        Some(s) => Some(s@),
        None => None,
    }
}

/// The identity gateway headers assert: a non-empty trimmed user id and
/// email, and the `app:board` scope among the scopes; the display name is
/// taken as sent.
pub open spec fn header_identity_ok(
    user_id: Option<Seq<char>>,
    email: Option<Seq<char>>,
    scopes: Option<Seq<char>>,
) -> bool {
    &&& trimmed_nonempty(user_id) is Some
    &&& trimmed_nonempty(email) is Some
    &&& has_token(
        match scopes {
            Some(s) => s,
            None => Seq::empty(),
        },
        "app:board"@,
    )
}

fn trimmed_value(o: &Option<String>) -> (r: Option<String>)
    ensures
        ov(r) == trimmed_nonempty(ov(*o)),
{
    match o {
        Some(s) => {
            let t = crate::text::trim(s.as_str());
            if t.as_str().unicode_len() > 0 {
                Some(t)
            } else {
                None
            }
        },
        None => None,
    }
}

/// Reads the identity from gateway (or session-lookup) headers; any missing
/// part or a missing `app:board` scope is `Unauthorized`.
pub fn identity_from_headers(
    user_id: &Option<String>,
    email: &Option<String>,
    scopes: &Option<String>,
    display_name: &Option<String>,
) -> (r: Result<GatewayIdentity, AppError>)
    ensures
        header_identity_ok(ov(*user_id), ov(*email), ov(*scopes)) ==> r is Ok && {
            let id = r->Ok_0;
            &&& Some(id.id@) == trimmed_nonempty(ov(*user_id))
            &&& Some(id.email@) == trimmed_nonempty(ov(*email))
            &&& ov(id.display_name) == ov(*display_name)
        },
        !header_identity_ok(ov(*user_id), ov(*email), ov(*scopes)) ==> r == Err::<GatewayIdentity, AppError>(
            AppError::Unauthorized,
        ),
{
    let uid = match trimmed_value(user_id) {
        Some(u) => u,
        None => {
            return Err(AppError::Unauthorized);
        },
    };
    let mail = match trimmed_value(email) {
        Some(e) => e,
        None => {
            return Err(AppError::Unauthorized);
        },
    };
    let ok = match scopes {
        Some(s) => has_board_scope(s.as_str()),
        None => has_board_scope(""),
    };
    proof {
        reveal_strlit("");
        assert(""@ =~= Seq::<char>::empty());
    }
    if !ok {
        return Err(AppError::Unauthorized);
    }
    let dn = match display_name {
        Some(d) => Some(d.clone()),
        None => None,
    };
    Ok(GatewayIdentity { id: uid, email: mail, display_name: dn })
}

/// The settings of the trust boundary.
pub struct TrustSettings {
    pub trust_gateway_headers: bool,
    pub require_https_forwarded_proto: bool,
    pub trusted_proxy_token: Option<String>,
    pub dev_user_id: Option<String>,
    pub dev_user_email: Option<String>,
    pub dev_user_display_name: Option<String>,
}

/// What the identity middleware reads from a request. A header value is
/// `None` when missing or not a visible-ASCII string; `has_user_id_header`
/// says whether the user-id header is present at all.
pub struct GatewayRequest {
    pub path: String,
    pub forwarded_proto: Option<String>,
    pub proxy_token: Option<String>,
    pub has_user_id_header: bool,
    pub user_id: Option<String>,
    pub email: Option<String>,
    pub scopes: Option<String>,
    pub display_name: Option<String>,
    pub cookie: Option<String>,
}

/// How a request's identity is settled.
pub enum IdentityDecision {
    /// The request is made as this identity.
    Accept(GatewayIdentity),
    /// The identity comes from the session service, asked with this cookie value.
    LookupSession(String),
    /// The request is refused with this error.
    Reject(AppError),
}

/// The header value, or empty when missing.
pub open spec fn or_empty(o: Option<Seq<char>>) -> Seq<char> {
    match o {
        Some(s) => s,
        None => Seq::empty(),
    }
}

/// The trust-boundary checks that apply in gateway mode before identity
/// headers are read: forwarded HTTPS when required, and the shared proxy
/// token when one is configured.
pub open spec fn boundary_ok(s: TrustSettings, req: GatewayRequest) -> bool {
    &&& s.require_https_forwarded_proto ==> or_empty(ov(req.forwarded_proto)) == "https"@
    &&& s.trusted_proxy_token is Some ==> or_empty(ov(req.proxy_token)) == s.trusted_proxy_token->0@
}

fn str_or_empty_eq(o: &Option<String>, lit: &str) -> (r: bool)
    ensures
        r == (or_empty(ov(*o)) == lit@),
{
    let res = match o {
        Some(s) => crate::entities::str_is(s.as_str(), lit),
        None => crate::entities::str_is("", lit),
    };
    proof {
        reveal_strlit("");
        assert(""@ =~= Seq::<char>::empty());
    }
    res
}

/// Settles a request's identity. In gateway mode: forwarded HTTPS and the
/// proxy token are enforced first; then the identity headers are used when
/// present, else on the WebSocket path the session cookie is looked up,
/// else the request is refused. In dev mode the configured dev user is
/// used, with `{id}@dev.local` as the default email.
pub fn decide_identity(s: &TrustSettings, req: &GatewayRequest) -> (r: IdentityDecision)
    ensures
        s.trust_gateway_headers && !boundary_ok(*s, *req) ==> r matches IdentityDecision::Reject(
            AppError::Unauthorized,
        ),
        s.trust_gateway_headers && boundary_ok(*s, *req) && req.has_user_id_header ==> match r {
            IdentityDecision::Accept(id) => header_identity_ok(ov(req.user_id), ov(req.email), ov(req.scopes))
                && Some(id.id@) == trimmed_nonempty(ov(req.user_id)) && Some(id.email@)
                == trimmed_nonempty(ov(req.email)) && ov(id.display_name) == ov(req.display_name),
            IdentityDecision::Reject(e) => !header_identity_ok(ov(req.user_id), ov(req.email), ov(req.scopes))
                && e == AppError::Unauthorized,
            IdentityDecision::LookupSession(_) => false,
        },
        s.trust_gateway_headers && boundary_ok(*s, *req) && !req.has_user_id_header ==> if req.path@
            == "/api/ws"@ {
            match session_cookie_spec(or_empty(ov(req.cookie))) {
                Some(c) => r matches IdentityDecision::LookupSession(v) && v@ == c,
                None => r matches IdentityDecision::Reject(AppError::Unauthorized),
            }
        } else {
            r matches IdentityDecision::Reject(AppError::Unauthorized)
        },
        !s.trust_gateway_headers ==> match s.dev_user_id {
            None => r matches IdentityDecision::Reject(AppError::Unauthorized),
            Some(uid) => r matches IdentityDecision::Accept(id) && id.id@ == uid@ && id.email@ == (
            match s.dev_user_email {
                Some(e) => e@,
                None => uid@ + "@dev.local"@,
            }) && ov(id.display_name) == ov(s.dev_user_display_name),
        },
{
    if s.trust_gateway_headers {
        if s.require_https_forwarded_proto {
            if !str_or_empty_eq(&req.forwarded_proto, "https") {
                return IdentityDecision::Reject(AppError::Unauthorized);
            }
        }
        match &s.trusted_proxy_token {
            Some(expected) => {
                let received_ok = match &req.proxy_token {
                    Some(t) => crate::entities::str_is(t.as_str(), expected.as_str()),
                    None => crate::entities::str_is("", expected.as_str()),
                };
                proof {
                    reveal_strlit("");
                    assert(""@ =~= Seq::<char>::empty());
                }
                if !received_ok {
                    return IdentityDecision::Reject(AppError::Unauthorized);
                }
            },
            None => {},
        }
        if req.has_user_id_header {
            match identity_from_headers(&req.user_id, &req.email, &req.scopes, &req.display_name) {
                Ok(id) => IdentityDecision::Accept(id),
                Err(e) => IdentityDecision::Reject(e),
            }
        } else if crate::entities::str_is(req.path.as_str(), "/api/ws") {
            let header: &str = match &req.cookie {
                Some(c) => c.as_str(),
                None => "",
            };
            proof {
                reveal_strlit("");
                assert(""@ =~= Seq::<char>::empty());
            }
            match session_cookie_value(Some(header)) {
                Some(v) => IdentityDecision::LookupSession(owned(v)),
                None => IdentityDecision::Reject(AppError::Unauthorized),
            }
        } else {
            IdentityDecision::Reject(AppError::Unauthorized)
        }
    } else {
        match &s.dev_user_id {
            None => IdentityDecision::Reject(AppError::Unauthorized),
            Some(uid) => {
                let email = match &s.dev_user_email {
                    Some(e) => e.clone(),
                    None => {
                        let a = chars_of(uid.as_str());
                        let b = chars_of("@dev.local");
                        string_of(&concat_chars(&a, &b))
                    },
                };
                let dn = match &s.dev_user_display_name {
                    Some(d) => Some(d.clone()),
                    None => None,
                };
                IdentityDecision::Accept(GatewayIdentity { id: uid.clone(), email, display_name: dn })
            },
        }
    }
}

/// The identity the session service answers with: refused unless the
/// answer is a success and carries a complete identity with the Board scope.
pub fn session_identity(
    success: bool,
    user_id: &Option<String>,
    email: &Option<String>,
    scopes: &Option<String>,
    display_name: &Option<String>,
) -> (r: Result<GatewayIdentity, AppError>)
    ensures
        !success ==> r == Err::<GatewayIdentity, AppError>(AppError::Unauthorized),
        success && header_identity_ok(ov(*user_id), ov(*email), ov(*scopes)) ==> r is Ok && {
            let id = r->Ok_0;
            &&& Some(id.id@) == trimmed_nonempty(ov(*user_id))
            &&& Some(id.email@) == trimmed_nonempty(ov(*email))
            &&& ov(id.display_name) == ov(*display_name)
        },
        success && !header_identity_ok(ov(*user_id), ov(*email), ov(*scopes)) ==> r
            == Err::<GatewayIdentity, AppError>(AppError::Unauthorized),
{
    if !success {
        return Err(AppError::Unauthorized);
    }
    identity_from_headers(user_id, email, scopes, display_name)
}

/// In gateway mode with forwarded HTTPS required, a request whose forwarded
/// protocol is not `https` is refused, whatever else it carries.
pub proof fn law_non_https_refused(s: TrustSettings, req: GatewayRequest)
    requires
        s.trust_gateway_headers,
        s.require_https_forwarded_proto,
        or_empty(ov(req.forwarded_proto)) != "https"@,
    ensures
        !boundary_ok(s, req),
{
}

/// The transport security headers set on every response, name and value.
pub fn security_headers() -> (r: Vec<(&'static str, &'static str)>)
    ensures
        r.len() == 4,
        r[0].0@ == "x-content-type-options"@ && r[0].1@ == "nosniff"@,
        r[1].0@ == "x-frame-options"@ && r[1].1@ == "DENY"@,
        r[2].0@ == "referrer-policy"@ && r[2].1@ == "no-referrer"@,
        r[3].0@ == "strict-transport-security"@ && r[3].1@ == "max-age=31536000; includeSubDomains"@,
{
    vec![
        ("x-content-type-options", "nosniff"),
        ("x-frame-options", "DENY"),
        ("referrer-policy", "no-referrer"),
        ("strict-transport-security", "max-age=31536000; includeSubDomains"),
    ]
}

} // verus!
