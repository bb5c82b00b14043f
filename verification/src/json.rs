//! JSON framing of request bodies.
//!
//! The signature covers the exact body bytes that are sent, so the
//! bodies the client posts are assembled here and specified character
//! by character. Escaping follows the JSON rules for string values:
//! quote and backslash get a backslash escape, the control characters
//! with a short form use it, the remaining control characters use a
//! `\u00XY` escape, and everything else stands verbatim.

use vstd::prelude::*;
use crate::num::dec_int;
use crate::num::i64_to_string;
use crate::records::Record;
use crate::records::RecordView;

verus! {

/// The character for a single lowercase hex digit.
pub open spec fn hex_digit_char(d: nat) -> char {
    if d == 0 { '0' }
    else if d == 1 { '1' }
    else if d == 2 { '2' }
    else if d == 3 { '3' }
    else if d == 4 { '4' }
    else if d == 5 { '5' }
    else if d == 6 { '6' }
    else if d == 7 { '7' }
    else if d == 8 { '8' }
    else if d == 9 { '9' }
    else if d == 10 { 'a' }
    else if d == 11 { 'b' }
    else if d == 12 { 'c' }
    else if d == 13 { 'd' }
    else if d == 14 { 'e' }
    else { 'f' }
}

/// The escape of one character inside a JSON string value.
pub open spec fn esc_char(c: char) -> Seq<char> {
    if c == '"' {
        seq!['\\', '"']
    } else if c == '\\' {
        seq!['\\', '\\']
    } else if c == '\u{8}' {
        seq!['\\', 'b']
    } else if c == '\t' {
        seq!['\\', 't']
    } else if c == '\n' {
        seq!['\\', 'n']
    } else if c == '\u{c}' {
        seq!['\\', 'f']
    } else if c == '\r' {
        seq!['\\', 'r']
    } else if (c as u32) < 0x20 {
        seq!['\\', 'u', '0', '0',
            hex_digit_char(((c as u32) / 16) as nat),
            hex_digit_char(((c as u32) % 16) as nat)]
    } else {
        seq![c]
    }
}

/// The escaped form of a whole string value.
pub open spec fn esc_str(s: Seq<char>) -> Seq<char>
    decreases s.len(),
{
    if s.len() == 0 {
        Seq::empty()
    } else {
        esc_char(s[0]) + esc_str(s.skip(1))
    }
}

/// A JSON string value: the escaped characters between quotes.
pub open spec fn json_string(s: Seq<char>) -> Seq<char> {
    seq!['"'] + esc_str(s) + seq!['"']
}

proof fn lemma_esc_str_snoc(s: Seq<char>, i: int)
    requires
        0 <= i < s.len(),
    ensures
        esc_str(s.take(i + 1)) == esc_str(s.take(i)) + esc_char(s[i]),
    decreases i,
{
    if i == 0 {
        assert(s.take(1).skip(1) =~= Seq::<char>::empty());
        assert(s.take(1)[0] == s[0]);
        assert(s.take(0) =~= Seq::<char>::empty());
        assert(esc_str(s.take(1)) =~= esc_str(s.take(0)) + esc_char(s[0]));
    } else {
        lemma_esc_str_snoc(s.skip(1), i - 1);
        assert(s.take(i + 1).skip(1) =~= s.skip(1).take(i));
        assert(s.take(i).skip(1) =~= s.skip(1).take(i - 1));
        assert(s.take(i + 1)[0] == s[0]);
        assert(s.take(i)[0] == s[0]);
        assert(s.skip(1)[i - 1] == s[i]);
        assert(esc_str(s.take(i + 1)) == esc_char(s[0]) + esc_str(s.skip(1).take(i)));
        assert(esc_str(s.take(i)) == esc_char(s[0]) + esc_str(s.skip(1).take(i - 1)));
        assert(esc_char(s[0]) + (esc_str(s.skip(1).take(i - 1)) + esc_char(s[i]))
            =~= (esc_char(s[0]) + esc_str(s.skip(1).take(i - 1))) + esc_char(s[i]));
    }
}

/// Append one lowercase hex digit character.
fn push_hex_digit(s: &mut String, d: u8)
    requires
        d < 16,
    ensures
        final(s)@ == old(s)@ + seq![hex_digit_char(d as nat)],
{
    let t: &str = if d == 0 { "0" }
        else if d == 1 { "1" }
        else if d == 2 { "2" }
        else if d == 3 { "3" }
        else if d == 4 { "4" }
        else if d == 5 { "5" }
        else if d == 6 { "6" }
        else if d == 7 { "7" }
        else if d == 8 { "8" }
        else if d == 9 { "9" }
        else if d == 10 { "a" }
        else if d == 11 { "b" }
        else if d == 12 { "c" }
        else if d == 13 { "d" }
        else if d == 14 { "e" }
        else { "f" };
    proof {
        reveal_strlit("0");
        reveal_strlit("1");
        reveal_strlit("2");
        reveal_strlit("3");
        reveal_strlit("4");
        reveal_strlit("5");
        reveal_strlit("6");
        reveal_strlit("7");
        reveal_strlit("8");
        reveal_strlit("9");
        reveal_strlit("a");
        reveal_strlit("b");
        reveal_strlit("c");
        reveal_strlit("d");
        reveal_strlit("e");
        reveal_strlit("f");
    }
    s.append(t);
}

/// Append the escape of one character.
fn push_escaped(out: &mut String, c: char)
    ensures
        final(out)@ == old(out)@ + esc_char(c),
{
    proof {
        reveal_strlit("\\\"");
        reveal_strlit("\\\\");
        reveal_strlit("\\b");
        reveal_strlit("\\t");
        reveal_strlit("\\n");
        reveal_strlit("\\f");
        reveal_strlit("\\r");
        reveal_strlit("\\u00");
    }
    if c == '"' {
        out.append("\\\"");
    } else if c == '\\' {
        out.append("\\\\");
    } else if c == '\u{8}' {
        out.append("\\b");
    } else if c == '\t' {
        out.append("\\t");
    } else if c == '\n' {
        out.append("\\n");
    } else if c == '\u{c}' {
        out.append("\\f");
    } else if c == '\r' {
        out.append("\\r");
    } else if (c as u32) < 0x20 {
        out.append("\\u00");
        let v: u32 = c as u32;
        push_hex_digit(out, (v / 16) as u8);
        push_hex_digit(out, (v % 16) as u8);
    } else {
        out.push(c);
    }
}

/// Append a JSON string value for `s`.
pub fn append_json_string(out: &mut String, s: &str)
    ensures
        final(out)@ == old(out)@ + json_string(s@),
{
    proof {
        reveal_strlit("\"");
    }
    out.append("\"");
    let n = s.unicode_len();
    let mut i: usize = 0;
    proof {
        assert(s@.take(0) =~= Seq::<char>::empty());
    }
    while i < n
        invariant
            n == s@.len(),
            i <= n,
            out@ == old(out)@ + seq!['"'] + esc_str(s@.take(i as int)),
        decreases n - i,
    {
        let c = s.get_char(i);
        push_escaped(out, c);
        proof {
            lemma_esc_str_snoc(s@, i as int);
        }
        i = i + 1;
    }
    out.append("\"");
    proof {
        assert(s@.take(n as int) =~= s@);
        assert(old(out)@ + seq!['"'] + esc_str(s@) + seq!['"']
            =~= old(out)@ + json_string(s@));
    }
}

/// The body posted to create a DNS record: `id` and `ttl` appear only
/// when set, `zone` is never sent (it is named by the request path).
pub open spec fn record_json(r: RecordView) -> Seq<char> {
    seq!['{']
        + (match r.id {
            Some(i) => seq!['"', 'i', 'd', '"', ':'] + dec_int(i) + seq![','],
            None => Seq::<char>::empty(),
        })
        + seq!['"', 'f', 'i', 'e', 'l', 'd', 'T', 'y', 'p', 'e', '"', ':'] + json_string(r.field_type)
        + seq![',', '"', 's', 'u', 'b', 'D', 'o', 'm', 'a', 'i', 'n', '"', ':'] + json_string(r.sub_domain)
        + (match r.ttl {
            Some(t) => seq![',', '"', 't', 't', 'l', '"', ':'] + dec_int(t),
            None => Seq::<char>::empty(),
        })
        + seq![',', '"', 't', 'a', 'r', 'g', 'e', 't', '"', ':'] + json_string(r.target)
        + seq!['}']
}

/// Serialize a record for the create call.
pub fn record_to_json(r: &Record) -> (out: String)
    ensures
        out@ == record_json(r@),
{
    proof {
        reveal_strlit("{");
        reveal_strlit("\"id\":");
        reveal_strlit(",");
        reveal_strlit("\"fieldType\":");
        reveal_strlit(",\"subDomain\":");
        reveal_strlit(",\"ttl\":");
        reveal_strlit(",\"target\":");
        reveal_strlit("}");
    }
    let mut out = String::new();
    out.append("{");
    match r.id {
        Some(id) => {
            out.append("\"id\":");
            let d = i64_to_string(id);
            out.append(d.as_str());
            out.append(",");
        },
        None => {},
    }
    out.append("\"fieldType\":");
    append_json_string(&mut out, r.field_type.as_str());
    out.append(",\"subDomain\":");
    append_json_string(&mut out, r.sub_domain.as_str());
    match r.ttl {
        Some(ttl) => {
            out.append(",\"ttl\":");
            let d = i64_to_string(ttl);
            out.append(d.as_str());
        },
        None => {},
    }
    out.append(",\"target\":");
    append_json_string(&mut out, r.target.as_str());
    out.append("}");
    proof {
        assert(out@ =~= record_json(r@));
    }
    out
}

} // verus!
