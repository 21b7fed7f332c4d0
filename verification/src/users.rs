//! Rules of the user directory: searching users by name, email or id.
use vstd::prelude::*;

use crate::board::clamp_spec;
use vstd::utf8::encode_utf8;

use crate::text::{
    char_width_of, chars_of, concat_chars, lemma_utf8_len_char, lemma_utf8_len_take_strict,
    string_of, trim, trim_seq, utf8_len,
};

verus! {

/// The Unicode lowercase of a text.
pub uninterp spec fn lowercase_spec(s: Seq<char>) -> Seq<char>;

/// Unicode lowercase (std `str::to_lowercase`).
/// Claimed: the result is `lowercase_spec` of the text; the Unicode case
/// tables themselves are not restated.
#[verifier::external_body]
fn to_lowercase(s: &str) -> (r: String)
    ensures
        r@ == lowercase_spec(s@),
{
    s.to_lowercase()
}

/// Shortest query (in bytes, after trimming) that is searched.
pub const MIN_SEARCH_QUERY_BYTES: usize = 2;

/// How a user search is run: the `LIKE` pattern over lowercased names,
/// emails and ids, and the number of results.
#[derive(Clone, Debug)]
pub struct UserSearchPlan {
    pub pattern: String,
    pub limit: u32,
}

/// Plans a user search: queries shorter than two bytes once trimmed find
/// nobody; otherwise the pattern is the lowercased trimmed query between
/// `%` signs and the limit is clamped to 1..=50.
pub fn plan_user_search(query: &str, limit: u32) -> (r: Option<UserSearchPlan>)
    ensures
        utf8_len(trim_seq(query@)) < 2 ==> r is None,
        utf8_len(trim_seq(query@)) >= 2 ==> r is Some && r->0.pattern@ == seq!['%'] + lowercase_spec(
            trim_seq(query@),
        ) + seq!['%'] && r->0.limit == clamp_spec(limit, 1, 50),
{
    let t = trim(query);
    let v = chars_of(t.as_str());
    proof {
        assert(v@.take(0) =~= Seq::<char>::empty());
        assert(encode_utf8(Seq::<char>::empty()) =~= Seq::<u8>::empty());
        if v@.len() >= 2 {
            lemma_utf8_len_take_strict(v@, 0, 1);
            lemma_utf8_len_take_strict(v@, 1, 2);
            if v@.len() > 2 {
                lemma_utf8_len_take_strict(v@, 2, v@.len() as int);
            }
            assert(v@.take(v@.len() as int) =~= v@);
        }
        if v@.len() == 1 {
            assert(v@ =~= seq![v@[0]]);
            lemma_utf8_len_char(v@[0]);
        }
    }
    if v.len() == 0 || (v.len() == 1 && char_width_of(v[0]) < MIN_SEARCH_QUERY_BYTES) {
        return None;
    }
    let lower = to_lowercase(t.as_str());
    let mut pct: Vec<char> = Vec::new();
    pct.push('%');
    let head = concat_chars(&pct, &chars_of(lower.as_str()));
    let pattern = concat_chars(&head, &pct);
    let limit = if limit < 1 {
        1
    } else if limit > 50 {
        50
    } else {
        limit
    };
    Some(UserSearchPlan { pattern: string_of(&pattern), limit })
}

} // verus!
