//! The stored form of an encrypted payload: a JSON object with the key id
//! and the base64 fields, in a fixed field order, with JSON string escaping.
use vstd::prelude::*;

use crate::text::{chars_of, has_prefix, string_of};

verus! {

/// An encryption envelope: which key wrapped the data key, and the base64
/// encodings of the nonces, the wrapped data key and the ciphertext.
#[derive(Clone, Debug, PartialEq, Eq)]
pub struct Envelope {
    pub key_id: String,
    pub wrap_nonce_b64: String,
    pub wrapped_dek_b64: String,
    pub data_nonce_b64: String,
    pub ciphertext_b64: String,
}

/// The five fields of an envelope, as character sequences.
pub type EnvelopeFields = (Seq<char>, Seq<char>, Seq<char>, Seq<char>, Seq<char>);

/// The fields of `e`.
pub open spec fn fields_of(e: Envelope) -> EnvelopeFields {
    (e.key_id@, e.wrap_nonce_b64@, e.wrapped_dek_b64@, e.data_nonce_b64@, e.ciphertext_b64@)
}

/// Lowercase hexadecimal digit of `n < 16`.
pub open spec fn hex_digit(n: int) -> char {
    if n < 10 {
        ((n + 48) as u32) as char
    } else {
        ((n + 87) as u32) as char
    }
}

/// Value of a hexadecimal digit (either case), if it is one.
pub open spec fn hex_value(c: char) -> Option<int> {
    if '0' <= c && c <= '9' {
        Some(c as int - 48)
    } else if 'a' <= c && c <= 'f' {
        Some(c as int - 87)
    } else if 'A' <= c && c <= 'F' {
        Some(c as int - 55)
    } else {
        None
    }
}

/// JSON escape of one character: quote and backslash escaped, control
/// characters as `\b \t \n \f \r` or `\u00XX`, everything else as is.
pub open spec fn esc_char(c: char) -> Seq<char> {
    if c == '"' {
        seq!['\\', '"']
    } else if c == '\\' {
        seq!['\\', '\\']
    } else if c == '\n' {
        seq!['\\', 'n']
    } else if c == '\r' {
        seq!['\\', 'r']
    } else if c == '\t' {
        seq!['\\', 't']
    } else if c == '\u{8}' {
        seq!['\\', 'b']
    } else if c == '\u{c}' {
        seq!['\\', 'f']
    } else if (c as u32) < 0x20 {
        seq!['\\', 'u', '0', '0', hex_digit(((c as u32) / 16) as int), hex_digit(((c as u32) % 16) as int)]
    } else {
        seq![c]
    }
}

/// JSON escape of a character sequence.
pub open spec fn esc_seq(s: Seq<char>) -> Seq<char>
    decreases s.len(),
{
    if s.len() == 0 {
        Seq::empty()
    } else {
        esc_seq(s.drop_last()) + esc_char(s.last())
    }
}

/// A JSON string literal holding `s`.
pub open spec fn quoted(s: Seq<char>) -> Seq<char> {
    seq!['"'] + esc_seq(s) + seq!['"']
}

/// The character a simple two-character escape `\e` stands for.
pub open spec fn simple_escape(e: char) -> Option<char> {
    if e == '"' {
        Some('"')
    } else if e == '\\' {
        Some('\\')
    } else if e == '/' {
        Some('/')
    } else if e == 'b' {
        Some('\u{8}')
    } else if e == 'f' {
        Some('\u{c}')
    } else if e == 'n' {
        Some('\n')
    } else if e == 'r' {
        Some('\r')
    } else if e == 't' {
        Some('\t')
    } else {
        None
    }
}

/// Value of the four hex digits `t[2..6]` of a `\uXXXX` escape.
pub open spec fn u_escape_value(t: Seq<char>) -> Option<int> {
    match (hex_value(t[2]), hex_value(t[3]), hex_value(t[4]), hex_value(t[5])) {
        (Some(a), Some(b), Some(c), Some(d)) => Some(a * 4096 + b * 256 + c * 16 + d),
        _ => None,
    }
}

/// Decodes the contents of a JSON string literal from the start of `t`
/// (just after the opening quote) up to its closing quote: the decoded text
/// and the number of characters consumed, closing quote included. `\u`
/// escapes are accepted for ASCII values.
pub open spec fn unesc(t: Seq<char>) -> Option<(Seq<char>, int)>
    decreases t.len(),
{
    if t.len() == 0 {
        None
    } else if t[0] == '"' {
        Some((Seq::empty(), 1))
    } else if t[0] == '\\' {
        if t.len() < 2 {
            None
        } else {
            match simple_escape(t[1]) {
                Some(c) => match unesc(t.skip(2)) {
                    Some((d, k)) => Some((seq![c] + d, k + 2)),
                    None => None,
                },
                None => if t[1] == 'u' && t.len() >= 6 {
                    match u_escape_value(t) {
                        Some(v) => if v < 0x80 {
                            match unesc(t.skip(6)) {
                                Some((d, k)) => Some((seq![(v as u32) as char] + d, k + 6)),
                                None => None,
                            }
                        } else {
                            None
                        },
                        None => None,
                    }
                } else {
                    None
                },
            }
        }
    } else if (t[0] as u32) < 0x20 {
        None
    } else {
        match unesc(t.drop_first()) {
            Some((d, k)) => Some((seq![t[0]] + d, k + 1)),
            None => None,
        }
    }
}

/// Reads a JSON string literal at the start of `t`: its text and the rest.
pub open spec fn read_string(t: Seq<char>) -> Option<(Seq<char>, Seq<char>)> {
    if t.len() > 0 && t[0] == '"' {
        match unesc(t.skip(1)) {
            Some((d, k)) => Some((d, t.skip(1 + k))),
            None => None,
        }
    } else {
        None
    }
}

/// `t` after the literal `lit`, if it starts with it.
pub open spec fn after_lit(t: Seq<char>, lit: Seq<char>) -> Option<Seq<char>> {
    if has_prefix(t, lit) {
        Some(t.skip(lit.len() as int))
    } else {
        None
    }
}

/// Reads `lit` then a string literal.
pub open spec fn read_field(t: Option<Seq<char>>, lit: Seq<char>) -> Option<(Seq<char>, Seq<char>)> {
    match t {
        Some(t) => match after_lit(t, lit) {
            Some(r) => read_string(r),
            None => None,
        },
        None => None,
    }
}

/// The text of an envelope.
pub open spec fn envelope_text(f: EnvelopeFields) -> Seq<char> {
    "{\"key_id\":"@ + quoted(f.0) + ",\"wrap_nonce_b64\":"@ + quoted(f.1) + ",\"wrapped_dek_b64\":"@
        + quoted(f.2) + ",\"data_nonce_b64\":"@ + quoted(f.3) + ",\"ciphertext_b64\":"@ + quoted(f.4)
        + "}"@
}

/// The envelope a text holds, if it is an envelope text.
pub open spec fn parse_envelope_text(t: Seq<char>) -> Option<EnvelopeFields> {
    match read_field(Some(t), "{\"key_id\":"@) {
        Some((a, r1)) => match read_field(Some(r1), ",\"wrap_nonce_b64\":"@) {
            Some((b, r2)) => match read_field(Some(r2), ",\"wrapped_dek_b64\":"@) {
                Some((c, r3)) => match read_field(Some(r3), ",\"data_nonce_b64\":"@) {
                    Some((d, r4)) => match read_field(Some(r4), ",\"ciphertext_b64\":"@) {
                        Some((e, r5)) => if r5 == "}"@ {
                            Some((a, b, c, d, e))
                        } else {
                            None
                        },
                        None => None,
                    },
                    None => None,
                },
                None => None,
            },
            None => None,
        },
        None => None,
    }
}

// ------------------------------------------------------------ round trip

proof fn lemma_esc_front(s: Seq<char>)
    requires
        s.len() > 0,
    ensures
        esc_seq(s) == esc_char(s[0]) + esc_seq(s.drop_first()),
    decreases s.len(),
{
    if s.len() == 1 {
        assert(s.drop_first() =~= Seq::<char>::empty());
        assert(s.drop_last() =~= Seq::<char>::empty());
        assert(esc_seq(s.drop_last()) == Seq::<char>::empty());
        assert(s.last() == s[0]);
        assert(esc_seq(s.drop_first()) == Seq::<char>::empty());
        assert(esc_seq(s) =~= esc_char(s[0]) + esc_seq(s.drop_first()));
    } else {
        lemma_esc_front(s.drop_last());
        assert(s.drop_last().drop_first() =~= s.drop_first().drop_last());
        assert(s.drop_first().last() == s.last());
        assert(esc_seq(s) =~= esc_char(s[0]) + esc_seq(s.drop_first()));
    }
}

proof fn lemma_hex_digit(n: int)
    requires
        0 <= n < 16,
    ensures
        hex_value(hex_digit(n)) == Some(n),
{
    if n < 10 {
        assert(((n + 48) as u32) as char as int == n + 48) by {
            vstd::utf8::char_u32_cast(((n + 48) as u32) as char, (n + 48) as u32);
        }
    } else {
        assert(((n + 87) as u32) as char as int == n + 87) by {
            vstd::utf8::char_u32_cast(((n + 87) as u32) as char, (n + 87) as u32);
        }
    }
}

proof fn lemma_unesc_char(c: char, rest: Seq<char>)
    ensures
        unesc(esc_char(c) + rest) == match unesc(rest) {
            Some((d, k)) => Some((seq![c] + d, k + esc_char(c).len())),
            None => None::<(Seq<char>, int)>,
        },
{
    let t = esc_char(c) + rest;
    let e = esc_char(c);
    if c == '"' || c == '\\' || c == '\n' || c == '\r' || c == '\t' || c == '\u{8}' || c == '\u{c}' {
        assert(t.skip(2) =~= rest);
        assert(t[0] == '\\');
    } else if (c as u32) < 0x20 {
        let v = c as u32;
        lemma_hex_digit((v / 16) as int);
        lemma_hex_digit((v % 16) as int);
        assert(t.skip(6) =~= rest);
        assert(t[1] == 'u' && t[2] == '0' && t[3] == '0');
        assert(u_escape_value(t) == Some(v as int));
        vstd::utf8::char_u32_cast(c, v);
    } else {
        assert(t.drop_first() =~= rest);
    }
}

/// Unescaping an escaped text, closed by a quote, gives the text back and
/// consumes exactly the escaped text and the quote.
pub proof fn lemma_unesc_round_trip(s: Seq<char>, rest: Seq<char>)
    ensures
        unesc(esc_seq(s) + seq!['"'] + rest) == Some((s, esc_seq(s).len() as int + 1)),
    decreases s.len(),
{
    if s.len() == 0 {
        assert(esc_seq(s) + seq!['"'] + rest =~= seq!['"'] + rest);
        assert(Seq::<char>::empty() =~= s);
    } else {
        lemma_esc_front(s);
        let tail = esc_seq(s.drop_first()) + seq!['"'] + rest;
        assert(esc_seq(s) + seq!['"'] + rest =~= esc_char(s[0]) + tail);
        lemma_unesc_char(s[0], tail);
        lemma_unesc_round_trip(s.drop_first(), rest);
        assert(seq![s[0]] + s.drop_first() =~= s);
    }
}

proof fn lemma_read_quoted(s: Seq<char>, rest: Seq<char>)
    ensures
        read_string(quoted(s) + rest) == Some((s, rest)),
{
    let t = quoted(s) + rest;
    assert(t.skip(1) =~= esc_seq(s) + seq!['"'] + rest);
    lemma_unesc_round_trip(s, rest);
    assert(t.skip(1 + esc_seq(s).len() as int + 1) =~= rest);
}

proof fn lemma_read_field(lit: Seq<char>, s: Seq<char>, rest: Seq<char>)
    ensures
        read_field(Some(lit + quoted(s) + rest), lit) == Some((s, rest)),
{
    let t = lit + quoted(s) + rest;
    assert(t.take(lit.len() as int) =~= lit);
    assert(t.skip(lit.len() as int) =~= quoted(s) + rest);
    lemma_read_quoted(s, rest);
}

/// Escaping never shortens a text.
proof fn lemma_esc_len(s: Seq<char>)
    ensures
        esc_seq(s).len() >= s.len(),
    decreases s.len(),
{
    if s.len() > 0 {
        lemma_esc_len(s.drop_last());
    }
}

/// An envelope text is longer than its ciphertext field.
pub proof fn lemma_envelope_text_len(f: EnvelopeFields)
    ensures
        envelope_text(f).len() > f.4.len(),
{
    lemma_esc_len(f.4);
}

/// Reading back the text of an envelope gives the same envelope.
pub proof fn law_envelope_round_trip(f: EnvelopeFields)
    ensures
        parse_envelope_text(envelope_text(f)) == Some(f),
{
    let l1 = "{\"key_id\":"@;
    let l2 = ",\"wrap_nonce_b64\":"@;
    let l3 = ",\"wrapped_dek_b64\":"@;
    let l4 = ",\"data_nonce_b64\":"@;
    let l5 = ",\"ciphertext_b64\":"@;
    let end = "}"@;
    let r5 = end;
    let r4 = l5 + quoted(f.4) + r5;
    let r3 = l4 + quoted(f.3) + r4;
    let r2 = l3 + quoted(f.2) + r3;
    let r1 = l2 + quoted(f.1) + r2;
    assert(envelope_text(f) =~= l1 + quoted(f.0) + r1);
    lemma_read_field(l1, f.0, r1);
    lemma_read_field(l2, f.1, r2);
    lemma_read_field(l3, f.2, r3);
    lemma_read_field(l4, f.3, r4);
    lemma_read_field(l5, f.4, r5);
}

// ------------------------------------------------------------ exec

fn hex_digit_exec(n: u32) -> (c: char)
    requires
        n < 16,
    ensures
        c == hex_digit(n as int),
{
    if n < 10 {
        let b: u8 = (n + 48) as u8;
        b as char
    } else {
        let b: u8 = (n + 87) as u8;
        b as char
    }
}

fn push_all(out: &mut Vec<char>, v: &Vec<char>)
    ensures
        final(out)@ == old(out)@ + v@,
{
    let mut i: usize = 0;
    let ghost s = v@;
    let ghost base = old(out)@;
    while i < v.len()
        invariant
            i <= v.len(),
            v@ == s,
            out@ == base + s.take(i as int),
        decreases v.len() - i,
    {
        out.push(v[i]);
        i = i + 1;
        assert(out@ =~= base + s.take(i as int));
    }
    assert(s.take(v.len() as int) =~= s);
}

fn push_escaped(out: &mut Vec<char>, c: char)
    ensures
        final(out)@ == old(out)@ + esc_char(c),
{
    let ghost base = old(out)@;
    if c == '"' {
        out.push('\\');
        out.push('"');
    } else if c == '\\' {
        out.push('\\');
        out.push('\\');
    } else if c == '\n' {
        out.push('\\');
        out.push('n');
    } else if c == '\r' {
        out.push('\\');
        out.push('r');
    } else if c == '\t' {
        out.push('\\');
        out.push('t');
    } else if c == '\u{8}' {
        out.push('\\');
        out.push('b');
    } else if c == '\u{c}' {
        out.push('\\');
        out.push('f');
    } else if (c as u32) < 0x20 {
        let v = c as u32;
        out.push('\\');
        out.push('u');
        out.push('0');
        out.push('0');
        out.push(hex_digit_exec(v / 16));
        out.push(hex_digit_exec(v % 16));
    } else {
        out.push(c);
    }
    assert(out@ =~= base + esc_char(c));
}

fn push_quoted(out: &mut Vec<char>, s: &str)
    ensures
        final(out)@ == old(out)@ + quoted(s@),
{
    let v = chars_of(s);
    let ghost base = old(out)@;
    out.push('"');
    let mut i: usize = 0;
    while i < v.len()
        invariant
            i <= v.len(),
            v@ == s@,
            out@ == base + seq!['"'] + esc_seq(s@.take(i as int)),
        decreases v.len() - i,
    {
        push_escaped(out, v[i]);
        proof {
            assert(s@.take(i + 1).drop_last() =~= s@.take(i as int));
            assert(s@.take(i + 1).last() == v@[i as int]);
        }
        i = i + 1;
        assert(out@ =~= base + seq!['"'] + esc_seq(s@.take(i as int)));
    }
    assert(s@.take(v.len() as int) =~= s@);
    out.push('"');
    assert(out@ =~= base + quoted(s@));
}

fn push_lit(out: &mut Vec<char>, lit: &str)
    ensures
        final(out)@ == old(out)@ + lit@,
{
    let v = chars_of(lit);
    push_all(out, &v);
}

/// The stored text of an envelope.
pub fn encode_envelope(env: &Envelope) -> (r: String)
    ensures
        r@ == envelope_text(fields_of(*env)),
{
    let mut out: Vec<char> = Vec::new();
    push_lit(&mut out, "{\"key_id\":");
    push_quoted(&mut out, env.key_id.as_str());
    push_lit(&mut out, ",\"wrap_nonce_b64\":");
    push_quoted(&mut out, env.wrap_nonce_b64.as_str());
    push_lit(&mut out, ",\"wrapped_dek_b64\":");
    push_quoted(&mut out, env.wrapped_dek_b64.as_str());
    push_lit(&mut out, ",\"data_nonce_b64\":");
    push_quoted(&mut out, env.data_nonce_b64.as_str());
    push_lit(&mut out, ",\"ciphertext_b64\":");
    push_quoted(&mut out, env.ciphertext_b64.as_str());
    push_lit(&mut out, "}");
    assert(out@ =~= envelope_text(fields_of(*env)));
    string_of(&out)
}

fn hex_value_exec(c: char) -> (r: Option<u32>)
    ensures
        match hex_value(c) {
            Some(v) => r == Some(v as u32),
            None => r is None,
        },
{
    if '0' <= c && c <= '9' {
        Some((c as u32) - 48)
    } else if 'a' <= c && c <= 'f' {
        Some((c as u32) - 87)
    } else if 'A' <= c && c <= 'F' {
        Some((c as u32) - 55)
    } else {
        None
    }
}

fn simple_escape_exec(e: char) -> (r: Option<char>)
    ensures
        r == simple_escape(e),
{
    if e == '"' {
        Some('"')
    } else if e == '\\' {
        Some('\\')
    } else if e == '/' {
        Some('/')
    } else if e == 'b' {
        Some('\u{8}')
    } else if e == 'f' {
        Some('\u{c}')
    } else if e == 'n' {
        Some('\n')
    } else if e == 'r' {
        Some('\r')
    } else if e == 't' {
        Some('\t')
    } else {
        None
    }
}

/// Reads a string literal starting at `t[p]`: its text and the index after it.
fn read_string_at(t: &Vec<char>, p: usize) -> (r: Option<(Vec<char>, usize)>)
    requires
        p <= t.len(),
    ensures
        match read_string(t@.skip(p as int)) {
            Some((d, rest)) => r matches Some((dv, q)) && dv@ == d && q <= t.len() && rest == t@.skip(
                q as int,
            ),
            None => r is None,
        },
{
    if p >= t.len() || t[p] != '"' {
        return None;
    }
    let ghost t0 = t@.skip(p + 1);
    assert(t@.skip(p as int).skip(1) =~= t0);
    let mut i: usize = p + 1;
    let mut dec: Vec<char> = Vec::new();
    loop
        invariant
            p + 1 <= i <= t.len(),
            t0 == t@.skip(p + 1),
            t@.skip(p as int).len() > 0,
            t@.skip(p as int)[0] == '"',
            t@.skip(p as int).skip(1) == t0,
            unesc(t0) == match unesc(t@.skip(i as int)) {
                Some((d, k)) => Some((dec@ + d, k + (i - p - 1))),
                None => None::<(Seq<char>, int)>,
            },
        decreases t.len() - i,
    {
        let ghost ti = t@.skip(i as int);
        if i >= t.len() {
            assert(ti.len() == 0);
            return None;
        }
        let c = t[i];
        assert(ti[0] == c);
        if c == '"' {
            proof {
                assert(dec@ + Seq::<char>::empty() =~= dec@);
                assert(t@.skip(p as int).skip(1 + (i - p)) =~= t@.skip(i + 1));
            }
            return Some((dec, i + 1));
        } else if c == '\\' {
            if i + 1 >= t.len() {
                return None;
            }
            let e = t[i + 1];
            assert(ti[1] == e);
            match simple_escape_exec(e) {
                Some(ch) => {
                    proof {
                        assert(ti.skip(2) =~= t@.skip(i + 2));
                        let ghost old_dec = dec@;
                        assert(old_dec.push(ch) + Seq::<char>::empty() =~= old_dec.push(ch));
                    }
                    let ghost old_dec = dec@;
                    dec.push(ch);
                    proof {
                        match unesc(t@.skip(i + 2)) {
                            Some((d, k)) => {
                                assert(old_dec + (seq![ch] + d) =~= dec@ + d);
                            },
                            None => {},
                        }
                    }
                    i = i + 2;
                },
                None => {
                    if e != 'u' || t.len() - i < 6 {
                        return None;
                    }
                    let h0 = hex_value_exec(t[i + 2]);
                    let h1 = hex_value_exec(t[i + 3]);
                    let h2 = hex_value_exec(t[i + 4]);
                    let h3 = hex_value_exec(t[i + 5]);
                    assert(ti[2] == t@[i + 2] && ti[3] == t@[i + 3] && ti[4] == t@[i + 4] && ti[5] == t@[i + 5]);
                    match (h0, h1, h2, h3) {
                        (Some(a), Some(b), Some(cc), Some(d)) => {
                            let v: u32 = a * 4096 + b * 256 + cc * 16 + d;
                            if v >= 0x80 {
                                return None;
                            }
                            let byte: u8 = v as u8;
                            let ch = byte as char;
                            proof {
                                assert(ti.skip(6) =~= t@.skip(i + 6));
                                assert(ch == (v as u32) as char);
                            }
                            let ghost old_dec = dec@;
                            dec.push(ch);
                            proof {
                                match unesc(t@.skip(i + 6)) {
                                    Some((dd, k)) => {
                                        assert(old_dec + (seq![ch] + dd) =~= dec@ + dd);
                                    },
                                    None => {},
                                }
                            }
                            i = i + 6;
                        },
                        _ => {
                            return None;
                        },
                    }
                },
            }
        } else if (c as u32) < 0x20 {
            return None;
        } else {
            proof {
                assert(ti.drop_first() =~= t@.skip(i + 1));
            }
            let ghost old_dec = dec@;
            dec.push(c);
            proof {
                match unesc(t@.skip(i + 1)) {
                    Some((d, k)) => {
                        assert(old_dec + (seq![c] + d) =~= dec@ + d);
                    },
                    None => {},
                }
            }
            i = i + 1;
        }
    }
}

/// Whether `t[p..]` starts with `lit`; the index after it.
fn read_lit_at(t: &Vec<char>, p: usize, lit: &str) -> (r: Option<usize>)
    requires
        p <= t.len(),
    ensures
        match after_lit(t@.skip(p as int), lit@) {
            Some(rest) => r matches Some(q) && q <= t.len() && rest == t@.skip(q as int),
            None => r is None,
        },
{
    let l = chars_of(lit);
    if l.len() > t.len() - p {
        return None;
    }
    let mut k: usize = 0;
    while k < l.len()
        invariant
            k <= l.len(),
            p + l.len() <= t.len(),
            l@ == lit@,
            forall|j: int| 0 <= j < k ==> t@[p + j] == l@[j],
        decreases l.len() - k,
    {
        if t[p + k] != l[k] {
            assert(t@.skip(p as int).take(l.len() as int)[k as int] != l@[k as int]);
            return None;
        }
        k = k + 1;
    }
    assert(t@.skip(p as int).take(l.len() as int) =~= l@);
    assert(t@.skip(p as int).skip(l.len() as int) =~= t@.skip((p + l.len()) as int));
    Some(p + l.len())
}

fn read_field_at(t: &Vec<char>, p: usize, lit: &str) -> (r: Option<(Vec<char>, usize)>)
    requires
        p <= t.len(),
    ensures
        match read_field(Some(t@.skip(p as int)), lit@) {
            Some((d, rest)) => r matches Some((dv, q)) && dv@ == d && q <= t.len() && rest == t@.skip(
                q as int,
            ),
            None => r is None,
        },
{
    match read_lit_at(t, p, lit) {
        Some(q) => read_string_at(t, q),
        None => None,
    }
}

/// The envelope held by a stored text, if it is one.
#[verifier::rlimit(50)]
pub fn decode_envelope(text: &str) -> (r: Option<Envelope>)
    ensures
        match parse_envelope_text(text@) {
            Some(f) => r is Some && fields_of(r->0) == f,
            None => r is None,
        },
{
    let t = chars_of(text);
    assert(t@.skip(0) =~= t@);
    let (a, p1) = match read_field_at(&t, 0, "{\"key_id\":") {
        Some(x) => x,
        None => {
            return None;
        },
    };
    let (b, p2) = match read_field_at(&t, p1, ",\"wrap_nonce_b64\":") {
        Some(x) => x,
        None => {
            return None;
        },
    };
    let (c, p3) = match read_field_at(&t, p2, ",\"wrapped_dek_b64\":") {
        Some(x) => x,
        None => {
            return None;
        },
    };
    let (d, p4) = match read_field_at(&t, p3, ",\"data_nonce_b64\":") {
        Some(x) => x,
        None => {
            return None;
        },
    };
    let (e, p5) = match read_field_at(&t, p4, ",\"ciphertext_b64\":") {
        Some(x) => x,
        None => {
            return None;
        },
    };
    match read_lit_at(&t, p5, "}") {
        Some(q) => {
            proof {
                reveal_strlit("}");
                let w = t@.skip(p5 as int);
                assert(w =~= w.take(1) + w.skip(1));
            }
            if q != t.len() {
                proof {
                    assert(t@.skip(p5 as int).len() != 1);
                }
                return None;
            }
            proof {
                assert(t@.skip(q as int) =~= Seq::<char>::empty());
                assert(t@.skip(p5 as int) =~= "}"@);
            }
        },
        None => {
            proof {
                reveal_strlit("}");
                if t@.skip(p5 as int) == "}"@ {
                    assert(t@.skip(p5 as int).take(1) =~= "}"@);
                    assert(has_prefix(t@.skip(p5 as int), "}"@));
                }
            }
            return None;
        },
    }
    Some(
        Envelope {
            key_id: string_of(&a),
            wrap_nonce_b64: string_of(&b),
            wrapped_dek_b64: string_of(&c),
            data_nonce_b64: string_of(&d),
            ciphertext_b64: string_of(&e),
        },
    )
}

} // verus!
