//! Board rules: feed periods and sections, votes, share text, link site
//! names, comment validation and the comment-depth walk.
use vstd::prelude::*;

use crate::entities::{Post, PostComment};
use crate::error::{AppError, AppResult};
use crate::text::{
    ascii_lower_seq, chars_eq, chars_of, concat_chars, has_prefix, owned, skip_chars, string_of,
    take_chars, to_ascii_lower, trim, trim_chars, trim_seq, utf8_len,
};

verus! {

/// Longest comment body, in bytes.
pub const MAX_COMMENT_LENGTH: usize = 4000;

/// Deepest comment nesting a new reply may reach.
pub const MAX_COMMENT_DEPTH: usize = 8;

/// Longest post body, in bytes.
pub const MAX_POST_LENGTH: usize = 8000;

/// Number of body characters a shared post quotes.
pub const SHARE_EXCERPT_CHARS: usize = 280;

// ---------------------------------------------------------------- periods

/// Time window of the "top" section of the board feed.
#[derive(Clone, Copy, Debug, PartialEq, Eq, Structural)]
pub enum FeedPeriod {
    Hour,
    Day,
    Week,
    Month,
    Year,
    All,
}

/// The period a normalized (trimmed, lowercased) name denotes.
pub open spec fn period_from_name(n: Seq<char>) -> Option<FeedPeriod> {
    if n == "hour"@ || n == "1h"@ || n == "1hour"@ {
        Some(FeedPeriod::Hour)
    } else if n == "day"@ || n == "24h"@ || n == "24hours"@ {
        Some(FeedPeriod::Day)
    } else if n == "week"@ {
        Some(FeedPeriod::Week)
    } else if n == "month"@ {
        Some(FeedPeriod::Month)
    } else if n == "year"@ {
        Some(FeedPeriod::Year)
    } else if n == "all"@ || n == "alltime"@ || n == "all_time"@ {
        Some(FeedPeriod::All)
    } else {
        None
    }
}

/// The canonical name of a period.
pub open spec fn period_name(p: FeedPeriod) -> Seq<char> {
    match p {
        FeedPeriod::Hour => "hour"@,
        FeedPeriod::Day => "day"@,
        FeedPeriod::Week => "week"@,
        FeedPeriod::Month => "month"@,
        FeedPeriod::Year => "year"@,
        FeedPeriod::All => "all"@,
    }
}

/// Label of the "older" section for a period; none for `All`.
pub open spec fn older_label(p: FeedPeriod) -> Option<Seq<char>> {
    match p {
        FeedPeriod::Hour => Some("Posts older than 1 hour"@),
        FeedPeriod::Day => Some("Posts older than 24 hours"@),
        FeedPeriod::Week => Some("Posts older than week"@),
        FeedPeriod::Month => Some("Posts older than month"@),
        FeedPeriod::Year => Some("Posts older than year"@),
        FeedPeriod::All => None,
    }
}

/// Length of a period's window in milliseconds; none for `All`.
pub open spec fn period_window_ms(p: FeedPeriod) -> Option<int> {
    match p {
        FeedPeriod::Hour => Some(3_600_000),
        FeedPeriod::Day => Some(86_400_000),
        FeedPeriod::Week => Some(604_800_000),
        FeedPeriod::Month => Some(2_592_000_000),
        FeedPeriod::Year => Some(31_536_000_000),
        FeedPeriod::All => None,
    }
}

/// Milliseconds in `hours` hours (chrono `Duration::hours(..).num_milliseconds()`).
/// Claimed: exactly `hours * 3_600_000`, for the small non-negative counts admitted.
#[verifier::external_body]
fn hours_ms(hours: i64) -> (r: i64)
    requires
        0 <= hours <= 1_000_000,
    ensures
        r == hours * 3_600_000,
{
    chrono::Duration::hours(hours).num_milliseconds()
}

/// Milliseconds in `days` days (chrono `Duration::days(..).num_milliseconds()`).
/// Claimed: exactly `days * 86_400_000`, for the small non-negative counts admitted.
#[verifier::external_body]
fn days_ms(days: i64) -> (r: i64)
    requires
        0 <= days <= 1_000_000,
    ensures
        r == days * 86_400_000,
{
    chrono::Duration::days(days).num_milliseconds()
}

pub(crate) fn lower_trimmed(raw: &str) -> (r: Vec<char>)
    ensures
        r@ == ascii_lower_seq(trim_seq(raw@)),
{
    let v = chars_of(raw);
    let t = trim_chars(&v);
    to_ascii_lower(&t)
}

pub(crate) fn is_lit(v: &Vec<char>, lit: &str) -> (r: bool)
    ensures
        r == (v@ == lit@),
{
    let l = chars_of(lit);
    chars_eq(v, &l)
}

impl FeedPeriod {
    /// Parses a period name, ignoring surrounding whitespace and ASCII case.
    /// Accepts `hour|1h|1hour`, `day|24h|24hours`, `week`, `month`, `year`,
    /// `all|alltime|all_time`; anything else is a validation error.
    pub fn parse(raw: &str) -> (r: AppResult<FeedPeriod>)
        ensures
            match period_from_name(ascii_lower_seq(trim_seq(raw@))) {
                Some(p) => r == Ok::<FeedPeriod, AppError>(p),
                None => r is Err && crate::error::is_validation(
                    r->Err_0,
                    "period must be one of: hour, day, week, month, year, all"@,
                ),
            },
    {
        let n = lower_trimmed(raw);
        if is_lit(&n, "hour") || is_lit(&n, "1h") || is_lit(&n, "1hour") {
            Ok(FeedPeriod::Hour)
        } else if is_lit(&n, "day") || is_lit(&n, "24h") || is_lit(&n, "24hours") {
            Ok(FeedPeriod::Day)
        } else if is_lit(&n, "week") {
            Ok(FeedPeriod::Week)
        } else if is_lit(&n, "month") {
            Ok(FeedPeriod::Month)
        } else if is_lit(&n, "year") {
            Ok(FeedPeriod::Year)
        } else if is_lit(&n, "all") || is_lit(&n, "alltime") || is_lit(&n, "all_time") {
            Ok(FeedPeriod::All)
        } else {
            Err(AppError::Validation(owned("period must be one of: hour, day, week, month, year, all")))
        }
    }

    /// The canonical name of the period.
    pub fn as_str(self) -> (r: &'static str)
        ensures
            r@ == period_name(self),
    {
        match self {
            FeedPeriod::Hour => "hour",
            FeedPeriod::Day => "day",
            FeedPeriod::Week => "week",
            FeedPeriod::Month => "month",
            FeedPeriod::Year => "year",
            FeedPeriod::All => "all",
        }
    }

    /// Label of the feed's "older" section; `None` for `All`.
    pub fn older_than_label(self) -> (r: Option<&'static str>)
        ensures
            match older_label(self) {
                Some(l) => r is Some && r->0@ == l,
                None => r is None,
            },
    {
        match self {
            FeedPeriod::Hour => Some("Posts older than 1 hour"),
            FeedPeriod::Day => Some("Posts older than 24 hours"),
            FeedPeriod::Week => Some("Posts older than week"),
            FeedPeriod::Month => Some("Posts older than month"),
            FeedPeriod::Year => Some("Posts older than year"),
            FeedPeriod::All => None,
        }
    }

    /// Start of the period's window ending at `now_ms`; `None` for `All`.
    pub fn window_start_ms(self, now_ms: i64) -> (r: Option<i64>)
        requires
            period_window_ms(self) is Some ==> now_ms - period_window_ms(self)->0 >= i64::MIN,
        ensures
            match period_window_ms(self) {
                Some(w) => r == Some((now_ms - w) as i64),
                None => r is None,
            },
    {
        let duration = match self {
            FeedPeriod::Hour => hours_ms(1),
            FeedPeriod::Day => hours_ms(24),
            FeedPeriod::Week => days_ms(7),
            FeedPeriod::Month => days_ms(30),
            FeedPeriod::Year => days_ms(365),
            FeedPeriod::All => {
                return None;
            },
        };
        Some(now_ms - duration)
    }
}

/// Parsing the canonical name of any period gives that period back.
pub proof fn law_period_name_round_trip(p: FeedPeriod)
    ensures
        period_from_name(period_name(p)) == Some(p),
{
    reveal_strlit("hour");
    reveal_strlit("1h");
    reveal_strlit("1hour");
    reveal_strlit("day");
    reveal_strlit("24h");
    reveal_strlit("24hours");
    reveal_strlit("week");
    reveal_strlit("month");
    reveal_strlit("year");
    reveal_strlit("all");
    reveal_strlit("alltime");
    reveal_strlit("all_time");
    assert("hour"@.len() == 4 && "hour"@[0] == 'h');
    assert("1h"@.len() == 2 && "1h"@[0] == '1');
    assert("1hour"@.len() == 5 && "1hour"@[0] == '1');
    assert("day"@.len() == 3 && "day"@[0] == 'd');
    assert("24h"@.len() == 3 && "24h"@[0] == '2');
    assert("24hours"@.len() == 7 && "24hours"@[0] == '2');
    assert("week"@.len() == 4 && "week"@[0] == 'w');
    assert("month"@.len() == 5 && "month"@[0] == 'm');
    assert("year"@.len() == 4 && "year"@[0] == 'y');
    assert("all"@.len() == 3 && "all"@[0] == 'a');
    assert("alltime"@.len() == 7 && "alltime"@[0] == 'a');
    assert("all_time"@.len() == 8 && "all_time"@[0] == 'a');
}

/// The feed windows: an hour, a day of 24 hours, a week of 7 days, a month
/// of 30 days and a year of 365 days, each strictly longer than the one
/// before; `All` has no window. The top section of a period starts that
/// long before now.
pub proof fn law_period_windows(now: int)
    ensures
        period_window_ms(FeedPeriod::Hour) == Some(60 * 60 * 1000int),
        period_window_ms(FeedPeriod::Day) == Some(24 * period_window_ms(FeedPeriod::Hour)->0),
        period_window_ms(FeedPeriod::Week) == Some(7 * period_window_ms(FeedPeriod::Day)->0),
        period_window_ms(FeedPeriod::Month) == Some(30 * period_window_ms(FeedPeriod::Day)->0),
        period_window_ms(FeedPeriod::Year) == Some(365 * period_window_ms(FeedPeriod::Day)->0),
        period_window_ms(FeedPeriod::All) is None,
        period_window_ms(FeedPeriod::Hour)->0 < period_window_ms(FeedPeriod::Day)->0,
        period_window_ms(FeedPeriod::Day)->0 < period_window_ms(FeedPeriod::Week)->0,
        period_window_ms(FeedPeriod::Week)->0 < period_window_ms(FeedPeriod::Month)->0,
        period_window_ms(FeedPeriod::Month)->0 < period_window_ms(FeedPeriod::Year)->0,
        now - period_window_ms(FeedPeriod::Month)->0 == now - 30 * 86_400_000,
{
}

/// Parsing a period ignores surrounding whitespace and ASCII case: text
/// that is already trimmed and lowercased reads as the same name, so
/// parsing it gives the same answer as parsing the raw text.
pub proof fn law_parse_ignores_case_and_spaces(raw: Seq<char>)
    ensures
        ascii_lower_seq(trim_seq(ascii_lower_seq(trim_seq(raw)))) == ascii_lower_seq(trim_seq(raw)),
        period_from_name(ascii_lower_seq(trim_seq(ascii_lower_seq(trim_seq(raw))))) == period_from_name(
            ascii_lower_seq(trim_seq(raw)),
        ),
{
    crate::text::lemma_lower_trim_idempotent(raw);
}

/// Every period with an "older" section has a window, and only `All` has neither.
pub proof fn law_label_iff_window(p: FeedPeriod)
    ensures
        older_label(p) is Some <==> period_window_ms(p) is Some,
        older_label(p) is None <==> p == FeedPeriod::All,
{
}

// ------------------------------------------------------------------- feed

/// Which section of the board feed a list of posts forms.
#[derive(Clone, Copy, Debug, PartialEq, Eq, Structural)]
pub enum FeedSectionKind {
    Top,
    Older,
}

/// One section of the board feed.
#[derive(Clone, Debug)]
pub struct FeedSection {
    pub kind: FeedSectionKind,
    pub label: Option<String>,
    pub posts: Vec<Post>,
}

/// The board feed for a period.
#[derive(Clone, Debug)]
pub struct BoardFeed {
    pub period: String,
    pub sections: Vec<FeedSection>,
}

/// `limit` clamped to `lo..=hi`.
pub open spec fn clamp_spec(limit: u32, lo: u32, hi: u32) -> u32 {
    if limit < lo {
        lo
    } else if limit > hi {
        hi
    } else {
        limit
    }
}

/// The number of posts a feed section holds: `limit` clamped to 1..=50.
pub fn feed_limit(limit: u32) -> (r: u32)
    ensures
        r == clamp_spec(limit, 1, 50),
{
    if limit < 1 {
        1
    } else if limit > 50 {
        50
    } else {
        limit
    }
}

/// The queries a feed needs: the clamped limit, the start of the top
/// window (none for `All`), and the cutoff of the older section (present
/// exactly when the period has both a window and a label).
pub struct FeedPlan {
    pub limit: u32,
    pub since_ms: Option<i64>,
    pub older_cutoff_ms: Option<i64>,
}

/// Plans the board feed for `period` at time `now_ms`.
pub fn plan_feed(period: FeedPeriod, limit: u32, now_ms: i64) -> (r: FeedPlan)
    requires
        now_ms >= i64::MIN + 31_536_000_000,
    ensures
        r.limit == clamp_spec(limit, 1, 50),
        r.since_ms == (match period_window_ms(period) {
            Some(w) => Some((now_ms - w) as i64),
            None => None::<i64>,
        }),
        r.older_cutoff_ms == r.since_ms,
{
    let since_ms = period.window_start_ms(now_ms);
    let older_cutoff_ms = match (since_ms, period.older_than_label()) {
        (Some(cutoff), Some(_)) => Some(cutoff),
        _ => None,
    };
    FeedPlan { limit: feed_limit(limit), since_ms, older_cutoff_ms }
}

/// Assembles the feed from the top posts and, when queried, the older posts:
/// the top section always comes first; the older section follows, with the
/// period's label, only when the period has one and older posts were found.
pub fn assemble_feed(period: FeedPeriod, top: Vec<Post>, older: Option<Vec<Post>>) -> (r: BoardFeed)
    ensures
        r.period@ == period_name(period),
        r.sections@.len() >= 1,
        r.sections@[0].kind == FeedSectionKind::Top,
        r.sections@[0].label is None,
        r.sections@[0].posts@ == top@,
        r.sections@.len() == (if older is Some && older->0@.len() > 0 && older_label(period) is Some {
            2int
        } else {
            1int
        }),
        r.sections@.len() == 2 ==> {
            &&& r.sections@[1].kind == FeedSectionKind::Older
            &&& r.sections@[1].label is Some
            &&& r.sections@[1].label->0@ == older_label(period)->0
            &&& r.sections@[1].posts@ == older->0@
        },
{
    let mut sections: Vec<FeedSection> = Vec::new();
    sections.push(FeedSection { kind: FeedSectionKind::Top, label: None, posts: top });
    match (older, period.older_than_label()) {
        (Some(posts), Some(label)) => {
            if posts.len() > 0 {
                sections.push(FeedSection { kind: FeedSectionKind::Older, label: Some(owned(label)), posts });
            }
        },
        _ => {},
    }
    BoardFeed { period: owned(period.as_str()), sections }
}

// ------------------------------------------------------------------ votes

/// Checks a vote value: only -1, 0 and 1 are accepted.
pub fn check_vote_value(value: i8) -> (r: AppResult<()>)
    ensures
        r is Ok <==> -1 <= value <= 1,
        r is Err ==> crate::error::is_validation(r->Err_0, "value must be -1, 0, or 1"@),
{
    if value < -1 || value > 1 {
        Err(AppError::Validation(owned("value must be -1, 0, or 1")))
    } else {
        Ok(())
    }
}

/// The vote stored after a user votes `value` while holding `existing`:
/// voting the same non-zero value again clears the vote, anything else
/// replaces it.
pub open spec fn next_vote_spec(existing: i8, value: i8) -> i8 {
    if value != 0 && existing == value {
        0
    } else {
        value
    }
}

/// The vote to store when a user votes `value` while holding `existing`.
pub fn next_vote(existing: i8, value: i8) -> (r: i8)
    ensures
        r == next_vote_spec(existing, value),
{
    if value != 0 && existing == value {
        0
    } else {
        value
    }
}

/// Votes: the same vote twice clears it, the opposite vote flips it, and
/// an explicit 0 always clears.
pub proof fn law_vote_toggle(existing: i8, value: i8)
    requires
        -1 <= existing <= 1,
        -1 <= value <= 1,
    ensures
        value != 0 ==> next_vote_spec(next_vote_spec(existing, value), value) == (if existing == value {
            value
        } else {
            0
        }),
        value != 0 && existing == value ==> next_vote_spec(existing, value) == 0,
        value != 0 && existing == -value ==> next_vote_spec(existing, value) == value,
        next_vote_spec(existing, 0) == 0,
        -1 <= next_vote_spec(existing, value) <= 1,
{
}

/// How the stored vote row changes from `prev` to `next`.
#[derive(Clone, Copy, Debug, PartialEq, Eq, Structural)]
pub enum VoteChange {
    Unchanged,
    Delete,
    Insert,
    Update,
}

/// The row change that takes the stored vote from `prev` to `next`
/// (0 meaning no row).
pub fn vote_change(prev: i8, next: i8) -> (r: VoteChange)
    ensures
        r == (if prev == next {
            VoteChange::Unchanged
        } else if next == 0 {
            VoteChange::Delete
        } else if prev == 0 {
            VoteChange::Insert
        } else {
            VoteChange::Update
        }),
{
    if prev == next {
        VoteChange::Unchanged
    } else if next == 0 {
        VoteChange::Delete
    } else if prev == 0 {
        VoteChange::Insert
    } else {
        VoteChange::Update
    }
}

/// Number of upvotes (value 1) in `votes`.
pub open spec fn count_up(votes: Seq<i8>) -> int
    decreases votes.len(),
{
    if votes.len() == 0 {
        0
    } else {
        count_up(votes.drop_last()) + if votes.last() == 1 {
            1int
        } else {
            0
        }
    }
}

/// Number of downvotes (value -1) in `votes`.
pub open spec fn count_down(votes: Seq<i8>) -> int
    decreases votes.len(),
{
    if votes.len() == 0 {
        0
    } else {
        count_down(votes.drop_last()) + if votes.last() == -1 {
            1int
        } else {
            0
        }
    }
}

/// Sum of the vote values in `votes`.
pub open spec fn vote_sum(votes: Seq<i8>) -> int
    decreases votes.len(),
{
    if votes.len() == 0 {
        0
    } else {
        vote_sum(votes.drop_last()) + votes.last()
    }
}

/// The denormalized counts of a post.
#[derive(Clone, Copy, Debug, PartialEq, Eq, Structural)]
pub struct VoteTally {
    pub upvotes: i64,
    pub downvotes: i64,
    pub score: i64,
}

/// Counts the stored votes of a post: upvotes, downvotes, and the score as
/// the sum of all values.
pub fn tally_votes(votes: &Vec<i8>) -> (r: VoteTally)
    requires
        votes.len() < 0x1000_0000_0000,
    ensures
        r.upvotes == count_up(votes@),
        r.downvotes == count_down(votes@),
        r.score == vote_sum(votes@),
{
    let mut up: i64 = 0;
    let mut down: i64 = 0;
    let mut sum: i64 = 0;
    let mut i: usize = 0;
    while i < votes.len()
        invariant
            i <= votes.len() < 0x1000_0000_0000,
            up == count_up(votes@.take(i as int)),
            down == count_down(votes@.take(i as int)),
            sum == vote_sum(votes@.take(i as int)),
            0 <= up <= i,
            0 <= down <= i,
            -128 * (i as int) <= sum <= 127 * (i as int),
        decreases votes.len() - i,
    {
        let v = votes[i];
        proof {
            assert(votes@.take(i + 1).drop_last() =~= votes@.take(i as int));
        }
        if v == 1 {
            up = up + 1;
        }
        if v == -1 {
            down = down + 1;
        }
        sum = sum + v as i64;
        i = i + 1;
    }
    assert(votes@.take(votes.len() as int) =~= votes@);
    VoteTally { upvotes: up, downvotes: down, score: sum }
}

/// When every stored vote is -1 or 1, the score is upvotes minus downvotes.
pub proof fn law_score_is_up_minus_down(votes: Seq<i8>)
    requires
        forall|i: int| 0 <= i < votes.len() ==> (#[trigger] votes[i] == 1 || votes[i] == -1),
    ensures
        vote_sum(votes) == count_up(votes) - count_down(votes),
    decreases votes.len(),
{
    if votes.len() > 0 {
        let d = votes.drop_last();
        assert forall|i: int| 0 <= i < d.len() implies (#[trigger] d[i] == 1 || d[i] == -1) by {
            assert(d[i] == votes[i]);
        }
        law_score_is_up_minus_down(d);
        assert(votes.last() == votes[votes.len() - 1]);
    }
}

// ------------------------------------------------------------ link / share

/// Index of the first occurrence of `p` in `s`.
pub open spec fn first_occ(s: Seq<char>, p: Seq<char>) -> Option<int>
    decreases s.len(),
{
    if s.len() < p.len() {
        None
    } else if has_prefix(s, p) {
        Some(0)
    } else if s.len() == 0 {
        None
    } else {
        match first_occ(s.drop_first(), p) {
            Some(i) => Some(i + 1),
            None => None,
        }
    }
}

/// `s` up to (not including) the first `c`, or all of `s`.
pub open spec fn take_until(s: Seq<char>, c: char) -> Seq<char> {
    match first_occ(s, seq![c]) {
        Some(i) => s.take(i),
        None => s,
    }
}

/// The part of a URL that `split("://").nth(1)` yields, or the whole URL
/// when it has no scheme separator.
pub open spec fn after_scheme(url: Seq<char>) -> Seq<char> {
    match first_occ(url, "://"@) {
        Some(i) => {
            let after = url.skip(i + 3);
            match first_occ(after, "://"@) {
                Some(j) => after.take(j),
                None => after,
            }
        },
        None => url,
    }
}

/// The host of a link URL: the text after the scheme, up to the first `/`
/// and then the first `:`.
pub open spec fn url_host(url: Seq<char>) -> Seq<char> {
    take_until(take_until(after_scheme(url), '/'), ':')
}

/// Whether `p` occurs in `s` at index `j`.
pub open spec fn occurs_at_spec(s: Seq<char>, p: Seq<char>, j: int) -> bool {
    0 <= j && j + p.len() <= s.len() && s.subrange(j, j + p.len()) == p
}

proof fn lemma_first_occ_found(s: Seq<char>, p: Seq<char>, i: int)
    requires
        occurs_at_spec(s, p, i),
        forall|j: int| 0 <= j < i ==> !#[trigger] occurs_at_spec(s, p, j),
    ensures
        first_occ(s, p) == Some(i),
    decreases i,
{
    assert(s.take(p.len() as int) =~= s.subrange(0, p.len() as int));
    if i == 0 {
    } else {
        assert(!occurs_at_spec(s, p, 0));
        let t = s.drop_first();
        assert forall|j: int| 0 <= j < i - 1 implies !#[trigger] occurs_at_spec(t, p, j) by {
            assert(t.subrange(j, j + p.len()) =~= s.subrange(j + 1, j + 1 + p.len()));
            assert(!occurs_at_spec(s, p, j + 1));
        }
        assert(t.subrange(i - 1, i - 1 + p.len()) =~= s.subrange(i, i + p.len()));
        lemma_first_occ_found(t, p, i - 1);
    }
}

proof fn lemma_first_occ_none(s: Seq<char>, p: Seq<char>)
    requires
        forall|j: int| 0 <= j ==> !#[trigger] occurs_at_spec(s, p, j),
    ensures
        first_occ(s, p) is None,
    decreases s.len(),
{
    if s.len() >= p.len() {
        assert(s.take(p.len() as int) =~= s.subrange(0, p.len() as int));
        assert(!occurs_at_spec(s, p, 0));
        if s.len() > 0 {
            let t = s.drop_first();
            assert forall|j: int| 0 <= j implies !#[trigger] occurs_at_spec(t, p, j) by {
                if j + p.len() <= t.len() {
                    assert(t.subrange(j, j + p.len()) =~= s.subrange(j + 1, j + 1 + p.len()));
                }
                assert(!occurs_at_spec(s, p, j + 1));
            }
            lemma_first_occ_none(t, p);
        }
    }
}

proof fn lemma_first_occ_sound(s: Seq<char>, p: Seq<char>)
    ensures
        match first_occ(s, p) {
            Some(i) => occurs_at_spec(s, p, i) && forall|j: int| 0 <= j < i ==> !#[trigger] occurs_at_spec(s, p, j),
            None => forall|j: int| 0 <= j ==> !#[trigger] occurs_at_spec(s, p, j),
        },
    decreases s.len(),
{
    if s.len() < p.len() {
    } else if has_prefix(s, p) {
        assert(s.take(p.len() as int) =~= s.subrange(0, p.len() as int));
    } else if s.len() == 0 {
        assert(s.take(p.len() as int) =~= p);
    } else {
        let t = s.drop_first();
        lemma_first_occ_sound(t, p);
        assert(s.take(p.len() as int) =~= s.subrange(0, p.len() as int));
        assert forall|j: int| 1 <= j && j + p.len() <= s.len() implies occurs_at_spec(s, p, j)
            == occurs_at_spec(t, p, j - 1) by {
            assert(t.subrange(j - 1, j - 1 + p.len()) =~= s.subrange(j, j + p.len()));
        }
        match first_occ(t, p) {
            Some(i) => {
                assert(occurs_at_spec(s, p, i + 1));
                assert forall|j: int| 0 <= j < i + 1 implies !#[trigger] occurs_at_spec(s, p, j) by {
                    if j >= 1 {
                        assert(!occurs_at_spec(t, p, j - 1));
                    }
                }
            },
            None => {
                assert forall|j: int| 0 <= j implies !#[trigger] occurs_at_spec(s, p, j) by {
                    if j >= 1 && j + p.len() <= s.len() {
                        assert(!occurs_at_spec(t, p, j - 1));
                    }
                }
            },
        }
    }
}

/// Cutting at the first `c` keeps a prefix of `s` that holds no `c`.
proof fn lemma_take_until_keeps(s: Seq<char>, c: char, n: int)
    requires
        0 <= n <= s.len(),
        forall|i: int| 0 <= i < n ==> s[i] != c,
    ensures
        take_until(s, c).len() >= n,
        take_until(s, c).take(n) == s.take(n),
        take_until(s, c).len() > n ==> take_until(s, c)[n] == s[n] && s[n] != c,
        n < s.len() && s[n] == c ==> take_until(s, c) == s.take(n),
        n == s.len() ==> take_until(s, c) == s,
{
    lemma_first_occ_sound(s, seq![c]);
    match first_occ(s, seq![c]) {
        Some(k) => {
            assert(s.subrange(k, k + 1)[0] == s[k]);
            if k < n {
                assert(s[k] != c);
                assert(false);
            }
            if n < s.len() && s[n] == c {
                assert(s.subrange(n, n + 1) =~= seq![c]);
                assert(occurs_at_spec(s, seq![c], n));
            }
            if take_until(s, c).len() > n {
                assert(k > n);
                assert(!occurs_at_spec(s, seq![c], n));
                assert(s.subrange(n, n + 1) =~= seq![s[n]]);
            }
        },
        None => {
            if n < s.len() {
                assert(!occurs_at_spec(s, seq![c], n));
                assert(s.subrange(n, n + 1) =~= seq![s[n]]);
            }
        },
    }
}

/// The site name of a link is its host: for a URL made of a scheme (with
/// no `:` or `/`), `://`, a host (with no `:` or `/`) and a rest that is
/// empty or starts with a path (`/`) or a port (`:`), it is the host.
pub proof fn law_site_name_is_the_host(scheme: Seq<char>, host: Seq<char>, rest: Seq<char>)
    requires
        forall|i: int| 0 <= i < scheme.len() ==> scheme[i] != ':' && scheme[i] != '/',
        forall|i: int| 0 <= i < host.len() ==> host[i] != ':' && host[i] != '/',
        rest.len() == 0 || rest[0] == '/' || rest[0] == ':',
    ensures
        url_host(scheme + "://"@ + host + rest) == host,
{
    reveal_strlit("://");
    let sep = "://"@;
    assert(sep =~= seq![':', '/', '/']);
    let url = scheme + sep + host + rest;
    let m = scheme.len() as int;
    let h = host.len() as int;
    assert(url.subrange(m, m + 3) =~= sep);
    assert forall|j: int| 0 <= j < m implies !#[trigger] occurs_at_spec(url, sep, j) by {
        assert(url.subrange(j, j + 3)[0] == url[j]);
    }
    lemma_first_occ_found(url, sep, m);
    let after = url.skip(m + 3);
    assert(after =~= host + rest);
    lemma_first_occ_sound(after, sep);
    let a = after_scheme(url);
    match first_occ(after, sep) {
        Some(j) => {
            assert(after.subrange(j, j + 3)[0] == after[j]);
            if j < h {
                assert(after[j] == host[j]);
                assert(false);
            }
            assert(a == after.take(j));
            assert(a.len() > h ==> a[h] == after[h]);
        },
        None => {
            assert(a == after);
        },
    }
    assert(a.len() > h ==> after.len() > h && rest.len() > 0 && after[h] == rest[0]);
    assert(a.len() >= h);
    assert forall|i: int| 0 <= i < h implies a[i] == host[i] by {}
    assert(a.len() > h ==> a[h] == rest[0]);
    lemma_take_until_keeps(a, '/', h);
    let t = take_until(a, '/');
    assert(t.len() > h ==> t[h] == ':');
    assert forall|i: int| 0 <= i < h implies t[i] == host[i] by {
        assert(t.take(h)[i] == a.take(h)[i]);
    }
    lemma_take_until_keeps(t, ':', h);
    if t.len() > h {
        assert(take_until(t, ':') == t.take(h));
    } else {
        assert(take_until(t, ':') == t);
    }
    assert(take_until(t, ':').take(h) == t.take(h));
    assert(take_until(t, ':') =~= host);
}

/// Whether `p` occurs in `v` at `i`.
fn occurs_at(v: &Vec<char>, p: &Vec<char>, i: usize) -> (r: bool)
    requires
        i <= v.len(),
    ensures
        r == occurs_at_spec(v@, p@, i as int),
{
    if p.len() > v.len() - i {
        return false;
    }
    let mut k: usize = 0;
    while k < p.len()
        invariant
            k <= p.len(),
            i + p.len() <= v.len(),
            forall|j: int| 0 <= j < k ==> v@[i + j] == p@[j],
        decreases p.len() - k,
    {
        if v[i + k] != p[k] {
            assert(v@.subrange(i as int, i + p.len())[k as int] != p@[k as int]);
            return false;
        }
        k = k + 1;
    }
    assert(v@.subrange(i as int, i + p.len()) =~= p@);
    true
}

/// Index of the first occurrence of `p` in `v`.
pub fn find_first(v: &Vec<char>, p: &Vec<char>) -> (r: Option<usize>)
    ensures
        r is Some <==> first_occ(v@, p@) is Some,
        r is Some ==> first_occ(v@, p@) == Some(r->0 as int),
        r is Some ==> r->0 + p.len() <= v.len(),
{
    let mut i: usize = 0;
    while i < v.len()
        invariant
            i <= v.len(),
            forall|j: int| 0 <= j < i ==> !#[trigger] occurs_at_spec(v@, p@, j),
        decreases v.len() - i,
    {
        if occurs_at(v, p, i) {
            proof {
                lemma_first_occ_found(v@, p@, i as int);
            }
            return Some(i);
        }
        i = i + 1;
    }
    if occurs_at(v, p, i) {
        proof {
            lemma_first_occ_found(v@, p@, i as int);
        }
        return Some(i);
    }
    proof {
        assert forall|j: int| 0 <= j implies !#[trigger] occurs_at_spec(v@, p@, j) by {
            if j > i {
                assert(j + p.len() > v.len());
            }
        }
        lemma_first_occ_none(v@, p@);
    }
    None
}

/// `v` up to the first `c`.
fn take_until_char(v: &Vec<char>, c: char) -> (r: Vec<char>)
    ensures
        r@ == take_until(v@, c),
{
    let mut p: Vec<char> = Vec::new();
    p.push(c);
    assert(p@ =~= seq![c]);
    match find_first(v, &p) {
        Some(i) => {
            assert(first_occ(v@, seq![c]) == Some(i as int));
            let r = take_chars(v, i);
            assert(r@ == v@.take(i as int));
            r
        },
        None => {
            assert(first_occ(v@, seq![c]) is None);
            let r = take_chars(v, v.len());
            assert(v@.take(v.len() as int) =~= v@);
            r
        },
    }
}

/// The host part of a link URL, used as the preview site name; `None` when empty.
pub fn site_name_from_url(url: &str) -> (r: Option<String>)
    ensures
        url_host(url@).len() == 0 ==> r is None,
        url_host(url@).len() > 0 ==> r is Some && r->0@ == url_host(url@),
{
    let v = chars_of(url);
    let sep = chars_of("://");
    let rest = match find_first(&v, &sep) {
        Some(i) => {
            proof {
                reveal_strlit("://");
                assert(sep@.len() == 3);
            }
            let after = skip_chars(&v, i + 3);
            match find_first(&after, &sep) {
                Some(j) => take_chars(&after, j),
                None => after,
            }
        },
        None => {
            assert(first_occ(url@, "://"@) is None);
            v
        },
    };
    assert(rest@ == after_scheme(url@));
    let host = take_until_char(&take_until_char(&rest, '/'), ':');
    if host.len() == 0 {
        None
    } else {
        Some(string_of(&host))
    }
}

/// Lines joined with newlines.
pub open spec fn join_lines(lines: Seq<Seq<char>>) -> Seq<char>
    decreases lines.len(),
{
    if lines.len() == 0 {
        Seq::empty()
    } else if lines.len() == 1 {
        lines[0]
    } else {
        join_lines(lines.drop_last()) + seq!['\n'] + lines.last()
    }
}

/// The quoted part of a shared post's body: its first 280 characters,
/// followed by an ellipsis when the body is longer.
pub open spec fn share_excerpt(body: Seq<char>) -> Seq<char> {
    if body.len() > 280 {
        body.take(280) + "…"@
    } else {
        body
    }
}

/// An optional non-empty text as a list of zero or one lines.
pub open spec fn opt_line(t: Option<Seq<char>>) -> Seq<Seq<char>> {
    match t {
        Some(s) => if s.len() > 0 {
            seq![s]
        } else {
            Seq::empty()
        },
        None => Seq::empty(),
    }
}

/// Optional string view.
pub open spec fn opt_view(o: Option<String>) -> Option<Seq<char>> {
    match o {
        Some(s) => Some(s@),
        None => None,
    }
}

/// The lines of the message that shares a post: a header, the title when
/// non-empty, the excerpt, the feed link, and the link URL when non-empty.
pub open spec fn share_lines(post: Post) -> Seq<Seq<char>> {
    seq!["📌 Shared from Board"@] + opt_line(opt_view(post.title)) + seq![
        share_excerpt(post.body@),
        "/board/feed/"@ + post.id@,
    ] + opt_line(opt_view(post.link_url))
}

fn push_line(out: &mut Vec<char>, line: &Vec<char>, Ghost(lines): Ghost<Seq<Seq<char>>>)
    requires
        lines.len() >= 1,
        old(out)@ == join_lines(lines),
    ensures
        final(out)@ == join_lines(lines.push(line@)),
{
    out.push('\n');
    let mut i: usize = 0;
    let ghost base = old(out)@.push('\n');
    while i < line.len()
        invariant
            i <= line.len(),
            out@ == base + line@.take(i as int),
        decreases line.len() - i,
    {
        out.push(line[i]);
        i = i + 1;
        assert(out@ =~= base + line@.take(i as int));
    }
    assert(line@.take(line.len() as int) =~= line@);
    assert(lines.push(line@).drop_last() =~= lines);
    assert(out@ =~= join_lines(lines) + seq!['\n'] + line@);
}

/// Text of the chat message that shares a board post.
pub fn format_share_content(post: &Post) -> (r: String)
    ensures
        r@ == join_lines(share_lines(*post)),
{
    let header = chars_of("📌 Shared from Board");
    let mut out = take_chars(&header, header.len());
    let ghost mut lines: Seq<Seq<char>> = seq![header@];
    assert(header@.take(header.len() as int) =~= header@);
    assert(join_lines(lines) == header@);
    match &post.title {
        Some(title) => {
            if title.as_str().unicode_len() > 0 {
                let t = chars_of(title.as_str());
                push_line(&mut out, &t, Ghost(lines));
                proof {
                    lines = lines.push(t@);
                }
            }
        },
        None => {},
    }
    assert(lines =~= seq!["📌 Shared from Board"@] + opt_line(opt_view(post.title)));
    let body = chars_of(post.body.as_str());
    let excerpt = if body.len() > SHARE_EXCERPT_CHARS {
        let head = take_chars(&body, SHARE_EXCERPT_CHARS);
        let ell = chars_of("…");
        concat_chars(&head, &ell)
    } else {
        take_chars(&body, body.len())
    };
    assert(body@.take(body.len() as int) =~= body@);
    push_line(&mut out, &excerpt, Ghost(lines));
    proof {
        lines = lines.push(excerpt@);
    }
    let prefix = chars_of("/board/feed/");
    let id = chars_of(post.id.as_str());
    let link = concat_chars(&prefix, &id);
    push_line(&mut out, &link, Ghost(lines));
    proof {
        lines = lines.push(link@);
    }
    match &post.link_url {
        Some(url) => {
            if url.as_str().unicode_len() > 0 {
                let u = chars_of(url.as_str());
                push_line(&mut out, &u, Ghost(lines));
                proof {
                    lines = lines.push(u@);
                }
            }
        },
        None => {},
    }
    assert(lines =~= share_lines(*post));
    string_of(&out)
}

/// The message sharing a post, line by line: the header, the title when it
/// is non-empty, then the post's body itself (when it is longer than 280
/// characters, its first 280 followed by `…`), then the post's feed link,
/// then the link URL when it is non-empty.
pub proof fn law_share_text_quotes_the_body(post: Post)
    ensures
        ({
            let lines = share_lines(post);
            let k: int = match post.title {
                Some(t) => if t@.len() > 0 {
                    2int
                } else {
                    1int
                },
                None => 1int,
            };
            let extra: int = match post.link_url {
                Some(u) => if u@.len() > 0 {
                    1int
                } else {
                    0int
                },
                None => 0int,
            };
            &&& lines.len() == k + 2 + extra
            &&& lines[0] == "📌 Shared from Board"@
            &&& k == 2 ==> (post.title matches Some(t) && lines[1] == t@)
            &&& post.body@.len() <= 280 ==> lines[k] == post.body@
            &&& post.body@.len() > 280 ==> lines[k] == post.body@.take(280) + "…"@
            &&& lines[k + 1] == "/board/feed/"@ + post.id@
            &&& extra == 1 ==> (post.link_url matches Some(u) && lines[k + 2] == u@)
        }),
{
}

// ------------------------------------------------------------ validation

/// A post as submitted, after normalization: the body trimmed, the title
/// and link trimmed and dropped when empty, and the link's site name.
pub struct NewPost {
    pub title: Option<String>,
    pub body: String,
    pub link_url: Option<String>,
    pub site_name: Option<String>,
}

/// An optional text trimmed, and dropped when empty after trimming.
pub open spec fn trimmed_opt(o: Option<Seq<char>>) -> Option<Seq<char>> {
    match o {
        Some(s) => if trim_seq(s).len() > 0 {
            Some(trim_seq(s))
        } else {
            None
        },
        None => None,
    }
}

/// Optional `&str` view.
pub open spec fn opt_str_view(o: Option<&str>) -> Option<Seq<char>> {
    match o {
        Some(s) => Some(s@),
        None => None,
    }
}

fn trim_opt(o: Option<&str>) -> (r: Option<String>)
    ensures
        opt_view(r) == trimmed_opt(opt_str_view(o)),
{
    match o {
        Some(s) => {
            let t = trim(s);
            if t.as_str().unicode_len() > 0 {
                Some(t)
            } else {
                None
            }
        },
        None => None,
    }
}

/// Validates and normalizes a new post: the trimmed body must be non-empty
/// and at most 8000 bytes.
pub fn validate_new_post(title: Option<&str>, body: &str, link_url: Option<&str>) -> (r: AppResult<NewPost>)
    requires
        utf8_len(trim_seq(body@)) <= usize::MAX,
    ensures
        trim_seq(body@).len() == 0 ==> r is Err && crate::error::is_validation(r->Err_0, "body is required"@),
        trim_seq(body@).len() > 0 && utf8_len(trim_seq(body@)) > 8000 ==> r is Err
            && crate::error::is_validation(r->Err_0, "body must be at most 8000 characters"@),
        trim_seq(body@).len() > 0 && utf8_len(trim_seq(body@)) <= 8000 ==> r is Ok && {
            let p = r->Ok_0;
            &&& p.body@ == trim_seq(body@)
            &&& opt_view(p.title) == trimmed_opt(opt_str_view(title))
            &&& opt_view(p.link_url) == trimmed_opt(opt_str_view(link_url))
            &&& match trimmed_opt(opt_str_view(link_url)) {
                Some(u) => if url_host(u).len() > 0 {
                    opt_view(p.site_name) == Some(url_host(u))
                } else {
                    p.site_name is None
                },
                None => p.site_name is None,
            }
        },
{
    let body = trim(body);
    if body.as_str().unicode_len() == 0 {
        return Err(AppError::Validation(owned("body is required")));
    }
    if body.as_str().len() > MAX_POST_LENGTH {
        return Err(AppError::Validation(owned("body must be at most 8000 characters")));
    }
    let title = trim_opt(title);
    let link_url = trim_opt(link_url);
    let site_name = match &link_url {
        Some(u) => site_name_from_url(u.as_str()),
        None => None,
    };
    Ok(NewPost { title, body, link_url, site_name })
}

/// Validates a comment body: the trimmed body must be non-empty and at
/// most 4000 bytes; returns the trimmed body.
pub fn validate_comment_body(body: &str) -> (r: AppResult<String>)
    requires
        utf8_len(trim_seq(body@)) <= usize::MAX,
    ensures
        trim_seq(body@).len() == 0 ==> r is Err && crate::error::is_validation(r->Err_0, "body is required"@),
        trim_seq(body@).len() > 0 && utf8_len(trim_seq(body@)) > 4000 ==> r is Err
            && crate::error::is_validation(r->Err_0, "body must be at most 4000 characters"@),
        trim_seq(body@).len() > 0 && utf8_len(trim_seq(body@)) <= 4000 ==> r is Ok && r->Ok_0@
            == trim_seq(body@),
{
    let body = trim(body);
    if body.as_str().unicode_len() == 0 {
        return Err(AppError::Validation(owned("body is required")));
    }
    if body.as_str().len() > MAX_COMMENT_LENGTH {
        return Err(AppError::Validation(owned("body must be at most 4000 characters")));
    }
    Ok(body)
}

/// Checks the looked-up parent of a new reply: it must exist and belong
/// to the same post.
pub fn check_reply_parent(parent: Option<&PostComment>, post_id: &str) -> (r: AppResult<()>)
    ensures
        parent is None ==> r is Err && crate::error::is_not_found(r->Err_0, "parent comment not found"@),
        parent is Some && parent->0.post_id@ != post_id@ ==> r is Err && crate::error::is_validation(
            r->Err_0,
            "parent comment must belong to the same post"@,
        ),
        parent is Some && parent->0.post_id@ == post_id@ ==> r is Ok,
{
    match parent {
        None => Err(AppError::NotFound(owned("parent comment not found"))),
        Some(p) => {
            if crate::entities::str_is(p.post_id.as_str(), post_id) {
                Ok(())
            } else {
                Err(AppError::Validation(owned("parent comment must belong to the same post")))
            }
        },
    }
}

/// Checks the nesting depth of a reply's parent chain.
pub fn check_comment_depth(depth: usize) -> (r: AppResult<()>)
    ensures
        r is Ok <==> depth < 8,
        r is Err ==> crate::error::is_validation(r->Err_0, "comment nesting is limited to 8 levels"@),
{
    if depth >= MAX_COMMENT_DEPTH {
        Err(AppError::Validation(owned("comment nesting is limited to 8 levels")))
    } else {
        Ok(())
    }
}

// ------------------------------------------------------- depth walk

/// The walk up a parent chain that measures a comment's depth: `depth`
/// counts the comments seen so far, `pending` is the next ancestor id to
/// look up.
pub struct DepthWalk {
    pub depth: usize,
    pub pending: Option<String>,
}

/// What the depth walk needs next.
pub enum DepthStep {
    /// Look up the comment with this id and resume with its parent id.
    Fetch(String),
    /// The depth is known.
    Done(usize),
}

impl DepthWalk {
    /// Starts at a parent comment, counting it, with its own parent pending.
    pub fn start(parent: &PostComment) -> (w: DepthWalk)
        ensures
            w.depth == 1,
            opt_view(w.pending) == opt_view(parent.parent_comment_id),
    {
        DepthWalk { depth: 1, pending: parent.parent_comment_id.clone() }
    }

    /// Advances the walk: with no pending ancestor the depth is known; else
    /// the ancestor is counted, and when that passes the limit the walk
    /// stops, otherwise the ancestor must be looked up.
    pub fn step(&mut self) -> (r: DepthStep)
        requires
            old(self).depth <= 8,
        ensures
            old(self).pending is None ==> r == DepthStep::Done(old(self).depth) && final(self).depth
                == old(self).depth,
            old(self).pending is Some ==> final(self).depth == old(self).depth + 1,
            old(self).pending is Some && old(self).depth + 1 > 8 ==> r == DepthStep::Done(
                (old(self).depth + 1) as usize,
            ),
            old(self).pending is Some && old(self).depth + 1 <= 8 ==> r is Fetch && r->Fetch_0@
                == old(self).pending->0@,
            final(self).pending is None,
    {
        match self.pending.take() {
            None => DepthStep::Done(self.depth),
            Some(id) => {
                self.depth = self.depth + 1;
                if self.depth > MAX_COMMENT_DEPTH {
                    DepthStep::Done(self.depth)
                } else {
                    DepthStep::Fetch(id)
                }
            },
        }
    }

    /// Resumes after a lookup with the found comment's parent id (none when
    /// the comment was missing or is top-level).
    pub fn resume(&mut self, parent_of_fetched: Option<String>)
        ensures
            final(self).depth == old(self).depth,
            opt_view(final(self).pending) == opt_view(parent_of_fetched),
    {
        self.pending = parent_of_fetched;
    }
}

} // verus!
