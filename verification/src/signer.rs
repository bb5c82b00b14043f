//! The request signer.
//!
//! Every authenticated call carries a signature header computed from
//! the application secret, the consumer key, the HTTP method, the
//! full URL, the request body and a unix timestamp: the SHA-1 hex
//! digest of those six fields joined with `'+'`, prefixed with the
//! version tag `"$1$"`. The signer is a pure function of its inputs.

use vstd::prelude::*;
use crypto::digest::Digest;
use crate::num::dec_digits;
use crate::num::dec_int;
use crate::num::i64_to_string;

verus! {

/// The lowercase hex SHA-1 digest of a message, as the crypto crate
/// computes it. Only the trusted wrapper below says anything about
/// this name.
pub uninterp spec fn sha1_hex_of(m: Seq<char>) -> Seq<char>;

/// Relies on `Sha1` and `Digest::{input_str, result_str}` of the
/// crypto crate: the 40-character lowercase hex form of the SHA-1
/// digest, a function of the input characters alone.
#[verifier::external_body]
fn sha1_hex(input: &str) -> (r: String)
    ensures
        r@ == sha1_hex_of(input@),
        r@.len() == 40,
{
    let mut hasher = crypto::sha1::Sha1::new();
    hasher.input_str(input);
    hasher.result_str()
}

/// The message whose digest is signed: the six fields joined with
/// `'+'`, the timestamp in decimal.
pub open spec fn signing_message(
    secret: Seq<char>,
    consumer_key: Seq<char>,
    method: Seq<char>,
    url: Seq<char>,
    body: Seq<char>,
    timestamp: int,
) -> Seq<char> {
    secret + seq!['+'] + consumer_key + seq!['+'] + method + seq!['+'] + url + seq!['+'] + body
        + seq!['+'] + dec_int(timestamp)
}

/// The signature value: the version tag, then the hex digest of the
/// signing message.
pub open spec fn spec_sign(
    secret: Seq<char>,
    consumer_key: Seq<char>,
    method: Seq<char>,
    url: Seq<char>,
    body: Seq<char>,
    timestamp: int,
) -> Seq<char> {
    seq!['$', '1', '$'] + sha1_hex_of(signing_message(secret, consumer_key, method, url, body, timestamp))
}

/// Sign one request. The body is the serialized request body, empty
/// for bodyless calls.
pub fn sign(
    secret: &str,
    consumer_key: &str,
    method: &str,
    url: &str,
    body: &str,
    timestamp: i64,
) -> (r: String)
    ensures
        r@ == spec_sign(secret@, consumer_key@, method@, url@, body@, timestamp as int),
        r@.len() == 43,
{
    let mut message = String::new();
    proof {
        reveal_strlit("+");
        reveal_strlit("$1$");
    }
    message.append(secret);
    message.append("+");
    message.append(consumer_key);
    message.append("+");
    message.append(method);
    message.append("+");
    message.append(url);
    message.append("+");
    message.append(body);
    message.append("+");
    let ts = i64_to_string(timestamp);
    message.append(ts.as_str());
    proof {
        assert(message@ =~= signing_message(
            secret@, consumer_key@, method@, url@, body@, timestamp as int));
    }
    let digest = sha1_hex(message.as_str());
    let mut r = String::new();
    r.append("$1$");
    r.append(digest.as_str());
    proof {
        assert(r@ =~= spec_sign(secret@, consumer_key@, method@, url@, body@, timestamp as int));
    }
    r
}

/// The signature is a function of its inputs: two calls on equal
/// inputs return equal values.
pub proof fn lemma_sign_deterministic(
    secret: Seq<char>,
    consumer_key: Seq<char>,
    method: Seq<char>,
    url: Seq<char>,
    body: Seq<char>,
    timestamp: int,
    r1: Seq<char>,
    r2: Seq<char>,
)
    requires
        r1 == spec_sign(secret, consumer_key, method, url, body, timestamp),
        r2 == spec_sign(secret, consumer_key, method, url, body, timestamp),
    ensures
        r1 == r2,
{
}

/// Two different timestamps never produce the same signing message:
/// the decimal form of the timestamp is injective, and it stands at a
/// fixed place after the other fields.
pub proof fn lemma_signing_message_timestamp_injective(
    secret: Seq<char>,
    consumer_key: Seq<char>,
    method: Seq<char>,
    url: Seq<char>,
    body: Seq<char>,
    t1: int,
    t2: int,
)
    requires
        t1 != t2,
    ensures
        signing_message(secret, consumer_key, method, url, body, t1)
            != signing_message(secret, consumer_key, method, url, body, t2),
{
    let prefix = secret + seq!['+'] + consumer_key + seq!['+'] + method + seq!['+'] + url
        + seq!['+'] + body + seq!['+'];
    let m1 = signing_message(secret, consumer_key, method, url, body, t1);
    let m2 = signing_message(secret, consumer_key, method, url, body, t2);
    assert(m1 =~= prefix + dec_int(t1));
    assert(m2 =~= prefix + dec_int(t2));
    lemma_dec_int_injective(t1, t2);
    if m1 == m2 {
        assert((prefix + dec_int(t1)).skip(prefix.len() as int) =~= dec_int(t1));
        assert((prefix + dec_int(t2)).skip(prefix.len() as int) =~= dec_int(t2));
    }
}

/// No character of the sequence is the field separator.
pub open spec fn plus_free(s: Seq<char>) -> bool {
    forall|i: int| 0 <= i < s.len() ==> s[i] != '+'
}

/// Splitting at the first separator is unambiguous: two readings of
/// one sequence as a separator-free part, the separator, and a rest,
/// agree.
proof fn lemma_split_first_plus(x: Seq<char>, r1: Seq<char>, y: Seq<char>, r2: Seq<char>)
    requires
        plus_free(x),
        plus_free(y),
        x + seq!['+'] + r1 == y + seq!['+'] + r2,
    ensures
        x == y,
        r1 == r2,
{
    let a = x + seq!['+'] + r1;
    let b = y + seq!['+'] + r2;
    assert(a.len() == x.len() + 1 + r1.len());
    assert(b.len() == y.len() + 1 + r2.len());
    if x.len() < y.len() {
        assert(a[x.len() as int] == '+');
        assert(b[x.len() as int] == y[x.len() as int]);
        assert(y[x.len() as int] != '+');
        assert(false);
    }
    if y.len() < x.len() {
        assert(b[y.len() as int] == '+');
        assert(a[y.len() as int] == x[y.len() as int]);
        assert(x[y.len() as int] != '+');
        assert(false);
    }
    assert(x =~= y) by {
        assert(forall|i: int| 0 <= i < x.len() ==> a[i] == x[i] && b[i] == y[i]);
    }
    assert(r1 =~= r2) by {
        assert(forall|i: int|
            0 <= i < r1.len() ==> a[x.len() + 1 + i] == r1[i] && b[y.len() + 1 + i] == r2[i]);
    }
}

/// The signing message, re-associated so that each field heads its
/// own remainder.
proof fn lemma_signing_message_nested(
    secret: Seq<char>,
    consumer_key: Seq<char>,
    method: Seq<char>,
    url: Seq<char>,
    body: Seq<char>,
    t: int,
)
    ensures
        signing_message(secret, consumer_key, method, url, body, t) == secret + seq!['+'] + (
        consumer_key + seq!['+'] + (method + seq!['+'] + (url + seq!['+'] + (body + seq!['+']
            + dec_int(t))))),
{
    assert(signing_message(secret, consumer_key, method, url, body, t) =~= secret + seq!['+'] + (
        consumer_key + seq!['+'] + (method + seq!['+'] + (url + seq!['+'] + (body + seq!['+']
            + dec_int(t))))));
}

/// As long as none of the five text fields contains the separator,
/// two different sets of inputs never produce the same signing
/// message. (A field that contains `'+'` can collide with a
/// neighbouring field; the digest input cannot tell them apart.)
pub proof fn lemma_signing_message_injective(
    secret1: Seq<char>,
    consumer_key1: Seq<char>,
    method1: Seq<char>,
    url1: Seq<char>,
    body1: Seq<char>,
    t1: int,
    secret2: Seq<char>,
    consumer_key2: Seq<char>,
    method2: Seq<char>,
    url2: Seq<char>,
    body2: Seq<char>,
    t2: int,
)
    requires
        plus_free(secret1),
        plus_free(consumer_key1),
        plus_free(method1),
        plus_free(url1),
        plus_free(body1),
        plus_free(secret2),
        plus_free(consumer_key2),
        plus_free(method2),
        plus_free(url2),
        plus_free(body2),
        signing_message(secret1, consumer_key1, method1, url1, body1, t1)
            == signing_message(secret2, consumer_key2, method2, url2, body2, t2),
    ensures
        secret1 == secret2,
        consumer_key1 == consumer_key2,
        method1 == method2,
        url1 == url2,
        body1 == body2,
        t1 == t2,
{
    let sep = seq!['+'];
    lemma_signing_message_nested(secret1, consumer_key1, method1, url1, body1, t1);
    lemma_signing_message_nested(secret2, consumer_key2, method2, url2, body2, t2);
    let rest1_c = consumer_key1 + sep + (method1 + sep + (url1 + sep + (body1 + sep
        + dec_int(t1))));
    let rest2_c = consumer_key2 + sep + (method2 + sep + (url2 + sep + (body2 + sep
        + dec_int(t2))));
    lemma_split_first_plus(secret1, rest1_c, secret2, rest2_c);
    let rest1_m = method1 + sep + (url1 + sep + (body1 + sep + dec_int(t1)));
    let rest2_m = method2 + sep + (url2 + sep + (body2 + sep + dec_int(t2)));
    lemma_split_first_plus(consumer_key1, rest1_m, consumer_key2, rest2_m);
    let rest1_u = url1 + sep + (body1 + sep + dec_int(t1));
    let rest2_u = url2 + sep + (body2 + sep + dec_int(t2));
    lemma_split_first_plus(method1, rest1_u, method2, rest2_u);
    let rest1_b = body1 + sep + dec_int(t1);
    let rest2_b = body2 + sep + dec_int(t2);
    lemma_split_first_plus(url1, rest1_b, url2, rest2_b);
    lemma_split_first_plus(body1, dec_int(t1), body2, dec_int(t2));
    if t1 != t2 {
        lemma_dec_int_injective(t1, t2);
    }
}

/// The decimal rendering of an integer is injective.
proof fn lemma_dec_int_injective(a: int, b: int)
    requires
        a != b,
    ensures
        dec_int(a) != dec_int(b),
{
    if a >= 0 && b >= 0 {
        lemma_dec_digits_injective(a as nat, b as nat);
    } else if a < 0 && b < 0 {
        lemma_dec_digits_injective((-a) as nat, (-b) as nat);
        if dec_int(a) == dec_int(b) {
            assert((seq!['-'] + dec_digits((-a) as nat)).skip(1) =~= dec_digits((-a) as nat));
            assert((seq!['-'] + dec_digits((-b) as nat)).skip(1) =~= dec_digits((-b) as nat));
        }
    } else {
        let neg = if a < 0 { a } else { b };
        let pos = if a < 0 { b } else { a };
        lemma_dec_digits_no_sign(pos as nat);
        assert(dec_int(neg)[0] == '-');
    }
}

/// A nonnegative rendering never starts with a sign character.
proof fn lemma_dec_digits_no_sign(n: nat)
    ensures
        dec_digits(n).len() >= 1,
        dec_digits(n)[0] != '-',
    decreases n,
{
    if n >= 10 {
        lemma_dec_digits_no_sign(n / 10);
    }
}

/// Decimal digit sequences of distinct naturals differ.
proof fn lemma_dec_digits_injective(a: nat, b: nat)
    requires
        a != b,
    ensures
        dec_digits(a) != dec_digits(b),
    decreases a + b,
{
    lemma_dec_digits_len(a);
    lemma_dec_digits_len(b);
    if a < 10 && b < 10 {
        assert(dec_digits(a)[0] == crate::num::dec_digit_char(a));
        assert(dec_digits(b)[0] == crate::num::dec_digit_char(b));
    } else if a < 10 {
        assert(dec_digits(a).len() == 1);
        assert(dec_digits(b).len() >= 2);
    } else if b < 10 {
        assert(dec_digits(a).len() >= 2);
        assert(dec_digits(b).len() == 1);
    } else {
        if a / 10 == b / 10 {
            assert(a % 10 != b % 10);
            assert(dec_digits(a).last() == crate::num::dec_digit_char(a % 10));
            assert(dec_digits(b).last() == crate::num::dec_digit_char(b % 10));
        } else {
            lemma_dec_digits_injective(a / 10, b / 10);
            if dec_digits(a) == dec_digits(b) {
                assert(dec_digits(a).drop_last() =~= dec_digits(a / 10));
                assert(dec_digits(b).drop_last() =~= dec_digits(b / 10));
            }
        }
    }
}

/// Longer numbers have longer renderings; every rendering is nonempty.
proof fn lemma_dec_digits_len(n: nat)
    ensures
        n < 10 ==> dec_digits(n).len() == 1,
        n >= 10 ==> dec_digits(n).len() >= 2,
    decreases n,
{
    if n >= 10 {
        lemma_dec_digits_len(n / 10);
    }
}

} // verus!
