//! Task ids: ULIDs, rendered as 26 Crockford base32 characters.
use vstd::prelude::*;
use std::str::FromStr;
use vstd::arithmetic::power::{lemma_pow_positive, pow};
use vstd::arithmetic::div_mod::{lemma_div_denominator, lemma_fundamental_div_mod};

use crate::errors::SurrealError;

verus! {

/// The Crockford base32 digit for a value below 32: the ten decimal digits,
/// then the capitals without `I`, `L`, `O` and `U`.
pub open spec fn crockford_digit(d: int) -> char {
    if d < 10 {
        ('0' as int + d) as char
    } else if d < 18 {
        ('A' as int + (d - 10)) as char
    } else if d < 20 {
        ('J' as int + (d - 18)) as char
    } else if d < 22 {
        ('M' as int + (d - 20)) as char
    } else if d < 27 {
        ('P' as int + (d - 22)) as char
    } else {
        ('V' as int + (d - 27)) as char
    }
}

/// The value of a Crockford base32 digit, read without regard to case;
/// `None` for any other character (`I`, `L`, `O` and `U` among them).
pub open spec fn crockford_value(c: char) -> Option<int> {
    let u = if 'a' <= c && c <= 'z' { c as int - 32 } else { c as int };
    if '0' as int <= u <= '9' as int {
        Some(u - '0' as int)
    } else if 'A' as int <= u <= 'H' as int {
        Some(u - 'A' as int + 10)
    } else if 'J' as int <= u <= 'K' as int {
        Some(u - 'J' as int + 18)
    } else if 'M' as int <= u <= 'N' as int {
        Some(u - 'M' as int + 20)
    } else if 'P' as int <= u <= 'T' as int {
        Some(u - 'P' as int + 22)
    } else if 'V' as int <= u <= 'Z' as int {
        Some(u - 'V' as int + 27)
    } else {
        None
    }
}

/// A value as a ULID text: 26 base32 digits, the most significant first, the
/// first digit holding the top three bits.
pub open spec fn ulid_encode(value: u128) -> Seq<char> {
    Seq::new(26, |i: int| crockford_digit((value as int / pow(32, (25 - i) as nat)) % 32))
}

/// How many bytes a character takes in UTF-8.
pub open spec fn utf8_width(c: char) -> int {
    if (c as int) < 0x80 {
        1
    } else if (c as int) < 0x800 {
        2
    } else if (c as int) < 0x10000 {
        3
    } else {
        4
    }
}

/// How many bytes a text takes in UTF-8.
pub open spec fn utf8_len(s: Seq<char>) -> int
    decreases s.len(),
{
    if s.len() == 0 {
        0
    } else {
        utf8_len(s.drop_last()) + utf8_width(s.last())
    }
}

/// The number that base32 digits spell, the most significant first.
pub open spec fn crockford_number(s: Seq<char>) -> int
    decreases s.len(),
{
    if s.len() == 0 {
        0
    } else {
        crockford_number(s.drop_last()) * 32 + match crockford_value(s.last()) {
            Some(d) => d,
            None => 0,
        }
    }
}

/// What `TaskId::<Ulid>::from_str` of apalis-core makes of a text: a text of
/// other than 26 bytes has an invalid length; one with a character that is no
/// base32 digit has an invalid character; otherwise the number its digits
/// spell, kept to 128 bits. An error is the `Display` text of apalis-core's
/// task id error around ulid's decode error.
pub open spec fn task_id_decode(text: Seq<char>) -> Result<u128, Seq<char>> {
    if utf8_len(text) != 26 {
        Err("could not decode task_id: `invalid length`"@)
    } else if exists|i: int| 0 <= i < text.len() && #[trigger] crockford_value(text[i]) is None {
        Err("could not decode task_id: `invalid character`"@)
    } else {
        Ok(crockford_number(text) as u128)
    }
}

/// The value of a digit that `crockford_digit` writes is the digit's value,
/// and the digit is a single byte.
proof fn lemma_digit_value(d: int)
    requires
        0 <= d < 32,
    ensures
        crockford_value(crockford_digit(d)) == Some(d),
        (crockford_digit(d) as int) < 0x80,
{
}

/// A text of single-byte characters takes one byte each.
proof fn lemma_single_byte_len(s: Seq<char>)
    requires
        forall|i: int| 0 <= i < s.len() ==> (#[trigger] s[i] as int) < 0x80,
    ensures
        utf8_len(s) == s.len(),
    decreases s.len(),
{
    if s.len() > 0 {
        assert forall|i: int| 0 <= i < s.drop_last().len() implies (#[trigger] s.drop_last()[i] as int) < 0x80 by {
            assert(s.drop_last()[i] == s[i]);
        }
        lemma_single_byte_len(s.drop_last());
        assert((s[s.len() - 1] as int) < 0x80);
    }
}

/// The first `k` digits of a value's ULID text spell the value with its
/// lowest `26 - k` digits cut off.
proof fn lemma_encode_prefix(v: u128, k: int)
    requires
        0 <= k <= 26,
    ensures
        crockford_number(ulid_encode(v).take(k)) == v as int / pow(32, (26 - k) as nat),
    decreases k,
{
    let e = ulid_encode(v);
    if k == 0 {
        assert(pow(32, 26) == 0x4_0000_0000_0000_0000_0000_0000_0000_0000int) by {
            reveal_with_fuel(pow, 27);
        }
        assert(e.take(0) =~= Seq::<char>::empty());
    } else {
        lemma_encode_prefix(v, k - 1);
        let a = pow(32, (26 - k) as nat);
        lemma_pow_positive(32, (26 - k) as nat);
        assert(pow(32, (27 - k) as nat) == 32 * a) by {
            reveal(pow);
        }
        let q = v as int / a;
        let d = q % 32;
        assert(e.take(k).drop_last() =~= e.take(k - 1));
        assert(e.take(k).last() == crockford_digit(d));
        lemma_digit_value(d);
        lemma_div_denominator(v as int, a, 32);
        assert(a * 32 == 32 * a) by (nonlinear_arith);
        lemma_fundamental_div_mod(q, 32);
        assert(crockford_number(e.take(k)) == (q / 32) * 32 + d);
    }
}

/// Reading back a task id's ULID text gives the id: decoding what the
/// rendering writes yields the value rendered.
pub proof fn law_task_id_round_trip(v: u128)
    ensures
        task_id_decode(ulid_encode(v)) == Ok::<u128, Seq<char>>(v),
{
    let e = ulid_encode(v);
    assert forall|i: int| 0 <= i < e.len() implies (#[trigger] e[i] as int) < 0x80
        && crockford_value(e[i]) is Some by {
        lemma_pow_positive(32, (25 - i) as nat);
        lemma_digit_value((v as int / pow(32, (25 - i) as nat)) % 32);
    }
    lemma_single_byte_len(e);
    lemma_encode_prefix(v, 26);
    assert(e.take(26) =~= e);
    assert(pow(32, 0) == 1) by {
        reveal(pow);
    }
}

/// `FromStr` of apalis-core's `TaskId`, over `Ulid`: the value of a text,
/// or the `Display` text of the decode error, as `task_id_decode` states:
/// ulid's `decode` checks the byte length, then reads each byte through a
/// table of the base32 digits in either case, shifting five bits at a time.
#[verifier::external_body]
fn task_id_parse(text: &str) -> (r: Result<u128, String>)
    ensures
        match r {
            Ok(v) => task_id_decode(text@) == Ok::<u128, Seq<char>>(v),
            Err(m) => task_id_decode(text@) == Err::<u128, Seq<char>>(m@),
        },
{
    match apalis_core::task::task_id::TaskId::<ulid::Ulid>::from_str(text) {
        Ok(id) => Ok(id.inner().0),
        Err(e) => Err(e.to_string()),
    }
}

/// `Ulid::to_string` of the ulid crate: the base32 rendering, five bits to
/// a digit from the least significant end, 26 characters (`ULID_LEN`) long.
#[verifier::external_body]
fn ulid_render(value: u128) -> (r: String)
    ensures
        r@ == ulid_encode(value),
        r@.len() == 26,
{
    ulid::Ulid(value).to_string()
}

/// `Ulid::new` of the ulid crate: a fresh id from the clock and a random
/// source. Nothing is stated of the value: it depends on the time and chance.
#[verifier::external_body]
fn ulid_fresh() -> (r: u128) {
    ulid::Ulid::new().0
}

/// The text of a task id.
pub fn task_id_text(id: u128) -> (r: String)
    ensures
        r@ == ulid_encode(id),
        r@.len() == 26,
        task_id_decode(r@) == Ok::<u128, Seq<char>>(id),
{
    proof {
        law_task_id_round_trip(id);
    }
    ulid_render(id)
}

/// The task id that a text holds; a text that is no ULID is a decode error
/// that carries the message of apalis-core's task id error.
pub fn parse_task_id(text: &str) -> (r: Result<u128, SurrealError>)
    ensures
        match task_id_decode(text@) {
            Ok(v) => r == Ok::<u128, SurrealError>(v),
            Err(m) => r matches Err(SurrealError::Decode(s)) && s@ == m,
        },
{
    match task_id_parse(text) {
        Ok(v) => Ok(v),
        Err(m) => Err(SurrealError::Decode(m)),
    }
}

/// The id a pushed task is stored under: its own, or a fresh one.
pub fn push_task_id(task_id: Option<u128>) -> (r: String)
    ensures
        r@.len() == 26,
        task_id matches Some(v) ==> r@ == ulid_encode(v),
        exists|v: u128| r@ == ulid_encode(v),
{
    let v = match task_id {
        Some(v) => v,
        None => ulid_fresh(),
    };
    task_id_text(v)
}

} // verus!
