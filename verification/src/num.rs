//! Decimal text of integers: rendering, as `format!("{n}")` prints them,
//! and reading, as `str::parse` accepts them.
use vstd::prelude::*;

use crate::text::{chars_of, skip_chars};

verus! {

/// The ASCII digit for `d < 10`.
pub open spec fn digit_char(d: nat) -> char {
    ((d + 48) as u32) as char
}

/// Decimal digits of `n`, most significant first, without leading zeros.
pub open spec fn decimal(n: nat) -> Seq<char>
    decreases n,
{
    if n < 10 {
        seq![digit_char(n)]
    } else {
        decimal(n / 10).push(digit_char(n % 10))
    }
}

/// Decimal text of a signed number: a `-` before the digits of a negative one.
pub open spec fn signed_decimal(n: int) -> Seq<char> {
    if n < 0 {
        seq!['-'] + decimal((-n) as nat)
    } else {
        decimal(n as nat)
    }
}

fn digit(d: u64) -> (c: char)
    requires
        d < 10,
    ensures
        c == digit_char(d as nat),
{
    if d == 0 {
        '0'
    } else if d == 1 {
        '1'
    } else if d == 2 {
        '2'
    } else if d == 3 {
        '3'
    } else if d == 4 {
        '4'
    } else if d == 5 {
        '5'
    } else if d == 6 {
        '6'
    } else if d == 7 {
        '7'
    } else if d == 8 {
        '8'
    } else {
        '9'
    }
}

/// The decimal characters of `n`.
pub fn decimal_chars(n: u64) -> (r: Vec<char>)
    ensures
        r@ == decimal(n as nat),
{
    let mut m: u64 = n;
    let mut acc: Vec<char> = Vec::new();
    while m >= 10
        invariant
            decimal(n as nat) == decimal(m as nat) + acc@,
        decreases m,
    {
        let d = digit(m % 10);
        let ghost prev = acc@;
        acc.insert(0, d);
        proof {
            assert(decimal(m as nat) == decimal((m / 10) as nat).push(digit_char((m % 10) as nat)));
            assert(acc@ =~= seq![d] + prev);
            assert(decimal((m / 10) as nat).push(d) + prev =~= decimal((m / 10) as nat) + acc@);
        }
        m = m / 10;
    }
    let d = digit(m);
    let ghost prev = acc@;
    acc.insert(0, d);
    assert(decimal(m as nat) == seq![digit_char(m as nat)]);
    assert(acc@ =~= seq![d] + prev);
    assert(decimal(n as nat) =~= acc@);
    acc
}

/// The decimal characters of a signed `n`.
pub fn signed_decimal_chars(n: i64) -> (r: Vec<char>)
    ensures
        r@ == signed_decimal(n as int),
{
    if n < 0 {
        let m: u64 = (-(n as i128)) as u64;
        let digits = decimal_chars(m);
        let mut out: Vec<char> = Vec::new();
        out.push('-');
        let mut i: usize = 0;
        while i < digits.len()
            invariant
                i <= digits.len(),
                out@ == seq!['-'] + digits@.take(i as int),
            decreases digits.len() - i,
        {
            out.push(digits[i]);
            i = i + 1;
            assert(out@ =~= seq!['-'] + digits@.take(i as int));
        }
        assert(digits@.take(digits.len() as int) =~= digits@);
        out
    } else {
        decimal_chars(n as u64)
    }
}

/// Whether `s` is one or more ASCII digits.
pub open spec fn all_digits(s: Seq<char>) -> bool {
    s.len() > 0 && forall|i: int| 0 <= i < s.len() ==> '0' <= #[trigger] s[i] && s[i] <= '9'
}

/// The value of a run of ASCII digits.
pub open spec fn digits_value(s: Seq<char>) -> nat
    decreases s.len(),
{
    if s.len() == 0 {
        0
    } else {
        digits_value(s.drop_last()) * 10 + ((s.last() as u32) - 48) as nat
    }
}

/// The number `str::parse` reads for an unsigned type before its range is
/// checked: an optional `+`, then one or more ASCII digits.
pub open spec fn unsigned_text_value(s: Seq<char>) -> Option<nat> {
    let body = if s.len() > 0 && s[0] == '+' {
        s.drop_first()
    } else {
        s
    };
    if all_digits(body) {
        Some(digits_value(body))
    } else {
        None
    }
}

/// The number `str::parse` reads for a signed type before its range is
/// checked: an optional `+` or `-`, then one or more ASCII digits.
pub open spec fn signed_text_value(s: Seq<char>) -> Option<int> {
    if s.len() > 0 && s[0] == '-' {
        let body = s.drop_first();
        if all_digits(body) {
            Some(-digits_value(body))
        } else {
            None
        }
    } else {
        match unsigned_text_value(s) {
            Some(v) => Some(v as int),
            None => None,
        }
    }
}

/// Reads a run of digits as a number, saturating above `cap`: the result
/// is the value when it is at most `cap`, and `None` when it is larger
/// or when `body` holds a non-digit or is empty.
fn read_digits(body: &Vec<char>, cap: u64) -> (r: Option<u64>)
    ensures
        match r {
            Some(v) => all_digits(body@) && v == digits_value(body@) && v <= cap,
            None => !all_digits(body@) || digits_value(body@) > cap,
        },
{
    if body.len() == 0 {
        return None;
    }
    let mut val: u64 = 0;
    let mut over = false;
    let mut i: usize = 0;
    while i < body.len()
        invariant
            i <= body.len(),
            forall|j: int| 0 <= j < i ==> '0' <= #[trigger] body@[j] && body@[j] <= '9',
            !over ==> val == digits_value(body@.take(i as int)) && val <= cap,
            over ==> digits_value(body@.take(i as int)) > cap,
        decreases body.len() - i,
    {
        let c = body[i];
        if !('0' <= c && c <= '9') {
            assert(!('0' <= body@[i as int] && body@[i as int] <= '9'));
            return None;
        }
        let d: u64 = ((c as u32) - 48) as u64;
        let ghost prev = digits_value(body@.take(i as int));
        assert(body@.take(i + 1).drop_last() =~= body@.take(i as int));
        assert(body@.take(i + 1).last() == c);
        assert(digits_value(body@.take(i + 1)) == prev * 10 + d);
        if !over {
            if d > cap || val > (cap - d) / 10 {
                over = true;
                assert(val * 10 + d > cap) by (nonlinear_arith)
                    requires
                        d > cap || val > (cap - d) / 10,
                        d < 10,
                ;
            } else {
                assert(val * 10 + d <= cap) by (nonlinear_arith)
                    requires
                        val <= (cap - d) / 10,
                        d < 10,
                ;
                val = val * 10 + d;
            }
        }
        i = i + 1;
    }
    assert(body@.take(body.len() as int) =~= body@);
    if over {
        None
    } else {
        Some(val)
    }
}

/// Reads an unsigned number as `str::parse` does for an unsigned integer
/// type whose largest value is `max` (`u16` with `max` 65535, `u64` with
/// `u64::MAX`): an optional `+` and one or more digits, in range.
pub fn parse_unsigned(s: &str, max: u64) -> (r: Option<u64>)
    ensures
        r == match unsigned_text_value(s@) {
            Some(v) => if v <= max {
                Some(v as u64)
            } else {
                None
            },
            None => None::<u64>,
        },
{
    let v = chars_of(s);
    let body = if v.len() > 0 && v[0] == '+' {
        skip_chars(&v, 1)
    } else {
        v
    };
    assert(body@ == (if s@.len() > 0 && s@[0] == '+' {
        s@.drop_first()
    } else {
        s@
    }));
    read_digits(&body, max)
}

/// Reads a signed 64-bit number as `str::parse::<i64>` does: an optional
/// `+` or `-` and one or more digits, in range.
pub fn parse_i64(s: &str) -> (r: Option<i64>)
    ensures
        r == match signed_text_value(s@) {
            Some(v) => if i64::MIN <= v <= i64::MAX {
                Some(v as i64)
            } else {
                None
            },
            None => None::<i64>,
        },
{
    let v = chars_of(s);
    if v.len() > 0 && v[0] == '-' {
        let body = skip_chars(&v, 1);
        assert(body@ == s@.drop_first());
        match read_digits(&body, 0x8000_0000_0000_0000u64) {
            Some(m) => Some((-(m as i128)) as i64),
            None => None,
        }
    } else {
        match parse_unsigned(s, 0x7fff_ffff_ffff_ffffu64) {
            Some(m) => Some(m as i64),
            None => None,
        }
    }
}

proof fn lemma_digit_char(d: nat)
    requires
        d < 10,
    ensures
        '0' <= digit_char(d) <= '9',
        (digit_char(d) as u32) - 48 == d,
{
    assert(((d + 48) as u32) as char == digit_char(d));
    vstd::utf8::char_u32_cast(digit_char(d), (d + 48) as u32);
}

/// Reading the decimal text of a number gives the number back.
pub proof fn law_decimal_round_trip(n: nat)
    ensures
        all_digits(decimal(n)),
        digits_value(decimal(n)) == n,
        unsigned_text_value(decimal(n)) == Some(n),
    decreases n,
{
    if n < 10 {
        lemma_digit_char(n);
        assert(decimal(n).drop_last() =~= Seq::<char>::empty());
        assert(decimal(n).last() == digit_char(n));
        assert(digits_value(decimal(n)) == digits_value(Seq::<char>::empty()) * 10 + n);
    } else {
        law_decimal_round_trip(n / 10);
        lemma_digit_char(n % 10);
        let s = decimal(n);
        assert(s.drop_last() =~= decimal(n / 10));
        assert(s.last() == digit_char(n % 10));
        assert(n == (n / 10) * 10 + n % 10);
        assert(digits_value(s) == digits_value(decimal(n / 10)) * 10 + (n % 10));
        assert forall|i: int| 0 <= i < s.len() implies '0' <= #[trigger] s[i] && s[i] <= '9' by {
            if i < s.len() - 1 {
                assert(s[i] == decimal(n / 10)[i]);
            }
        }
    }
    let s = decimal(n);
    assert(s[0] != '+') by {
        assert('0' <= s[0] && s[0] <= '9');
    }
}

} // verus!
