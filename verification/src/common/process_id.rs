use vstd::arithmetic::div_mod::{lemma_basic_div, lemma_div_denominator, lemma_fundamental_div_mod};
use vstd::arithmetic::power::{lemma_pow_positive, pow};
use vstd::prelude::*;

use crate::common::json::{hex_digit, plain_char};

verus! {

/// The `i`-th hexadecimal digit of `id`, counting from the most significant.
pub open spec fn id_nibble(id: u128, i: int) -> int {
    ((id as int) / pow(16, (31 - i) as nat)) % 16
}

/// The 32 lower-case hexadecimal digits of `id`.
pub open spec fn id_hex(id: u128) -> Seq<char> {
    Seq::new(32, |i: int| hex_digit(id_nibble(id, i)))
}

/// The hyphenated text of a UUID: 8-4-4-4-12 lower-case hexadecimal digits.
pub open spec fn uuid_text(id: u128) -> Seq<char> {
    let h = id_hex(id);
    h.subrange(0, 8) + seq!['-'] + h.subrange(8, 12) + seq!['-'] + h.subrange(12, 16) + seq!['-']
        + h.subrange(16, 20) + seq!['-'] + h.subrange(20, 32)
}

/// The value of a hexadecimal digit of either case.
pub open spec fn hex_value(c: char) -> Option<int> {
    if '0' <= c && c <= '9' {
        Some(c as int - '0' as int)
    } else if 'a' <= c && c <= 'f' {
        Some(c as int - 'a' as int + 10)
    } else if 'A' <= c && c <= 'F' {
        Some(c as int - 'A' as int + 10)
    } else {
        None
    }
}

/// The number that a run of hexadecimal digits writes, most significant
/// first; `None` if a character is no hexadecimal digit.
pub open spec fn hex_number(h: Seq<char>) -> Option<int>
    decreases h.len(),
{
    if h.len() == 0 {
        Some(0)
    } else {
        match (hex_number(h.drop_last()), hex_value(h.last())) {
            (Some(high), Some(low)) => Some(high * 16 + low),
            _ => None,
        }
    }
}

/// A UUID written as 32 hexadecimal digits.
pub open spec fn simple_uuid(h: Seq<char>) -> Option<u128> {
    if h.len() == 32 {
        match hex_number(h) {
            Some(n) => Some(n as u128),
            None => None,
        }
    } else {
        None
    }
}

/// A UUID written as 8-4-4-4-12 hexadecimal digits.
pub open spec fn hyphenated_uuid(s: Seq<char>) -> Option<u128> {
    if s.len() == 36 && s[8] == '-' && s[13] == '-' && s[18] == '-' && s[23] == '-' {
        simple_uuid(s.subrange(0, 8) + s.subrange(9, 13) + s.subrange(14, 18) + s.subrange(19, 23) + s.subrange(24, 36))
    } else {
        None
    }
}

/// An ASCII letter in lower case; other characters as they are.
pub open spec fn ascii_lower(c: char) -> char {
    if 'A' <= c && c <= 'Z' {
        (c as int + 32) as char
    } else {
        c
    }
}

/// What `uuid::Uuid::parse_str` makes of a text, as a 128-bit value: the
/// simple form, the hyphenated form, the hyphenated form in braces, or the
/// hyphenated form after a `urn:uuid:` prefix of either case.
pub open spec fn uuid_parse(s: Seq<char>) -> Option<u128> {
    if s.len() == 32 {
        simple_uuid(s)
    } else if s.len() == 36 {
        hyphenated_uuid(s)
    } else if s.len() == 38 {
        if s[0] == '{' && s[37] == '}' {
            hyphenated_uuid(s.subrange(1, 37))
        } else {
            None
        }
    } else if s.len() == 45 {
        if s.take(9).map_values(|c: char| ascii_lower(c)) == "urn:uuid:"@ {
            hyphenated_uuid(s.skip(9))
        } else {
            None
        }
    } else {
        None
    }
}

/// The hyphenated text of an id is made of lower-case hexadecimal digits
/// and hyphens only, none of which a JSON string literal escapes.
pub proof fn law_uuid_text_plain(id: u128)
    ensures
        uuid_text(id).len() == 36,
        forall|i: int| 0 <= i < 36 ==> plain_char(#[trigger] uuid_text(id)[i]),
{
    let h = id_hex(id);
    assert forall|i: int| 0 <= i < 32 implies plain_char(#[trigger] h[i]) by {
        lemma_pow_positive(16, (31 - i) as nat);
        let d = id_nibble(id, i);
        assert(0 <= d < 16);
    }
    let t = uuid_text(id);
    assert forall|i: int| 0 <= i < 36 implies plain_char(#[trigger] t[i]) by {
        if i < 8 {
            assert(t[i] == h[i]);
        } else if i == 8 || i == 13 || i == 18 || i == 23 {
        } else if i < 13 {
            assert(t[i] == h[i - 1]);
        } else if i < 18 {
            assert(t[i] == h[i - 2]);
        } else if i < 23 {
            assert(t[i] == h[i - 3]);
        } else {
            assert(t[i] == h[i - 4]);
        }
    }
}

/// A hexadecimal digit reads back as its value.
pub proof fn lemma_hex_digit_value(d: int)
    requires
        0 <= d < 16,
    ensures
        hex_value(hex_digit(d)) == Some(d),
{
}

/// The first `k` hexadecimal digits of an id write the id without its last
/// `32 - k` digits.
pub proof fn lemma_id_hex_prefix(id: u128, k: int)
    requires
        0 <= k <= 32,
    ensures
        hex_number(id_hex(id).take(k)) == Some((id as int) / pow(16, (32 - k) as nat)),
    decreases k,
{
    let h = id_hex(id);
    if k == 0 {
        assert(h.take(0) =~= Seq::<char>::empty());
        lemma_pow_positive(16, 32);
        assert((id as int) < pow(16, 32)) by {
            reveal_with_fuel(pow, 33);
        }
        lemma_basic_div(id as int, pow(16, 32));
    } else {
        lemma_id_hex_prefix(id, k - 1);
        assert(h.take(k).drop_last() =~= h.take(k - 1));
        let d = id_nibble(id, k - 1);
        lemma_hex_digit_value(d);
        let small = pow(16, (32 - k) as nat);
        lemma_pow_positive(16, (32 - k) as nat);
        assert(pow(16, (32 - (k - 1)) as nat) == 16 * small) by {
            reveal(pow);
        }
        let q = (id as int) / small;
        lemma_div_denominator(id as int, small, 16);
        lemma_fundamental_div_mod(q, 16);
        assert(small * 16 == 16 * small) by (nonlinear_arith);
    }
}

/// The hyphenated text of an id parses back to the id.
pub proof fn lemma_uuid_text_parses(id: u128)
    ensures
        uuid_parse(uuid_text(id)) == Some(id),
{
    let h = id_hex(id);
    let t = uuid_text(id);
    assert(t.subrange(0, 8) + t.subrange(9, 13) + t.subrange(14, 18) + t.subrange(19, 23) + t.subrange(24, 36) =~= h);
    lemma_id_hex_prefix(id, 32);
    assert(h.take(32) =~= h);
    assert(pow(16, 0) == 1) by {
        reveal(pow);
    }
}

/// A random request or process id, not checked against ids in use.
///
/// Calls `uuid::Uuid::new_v4` and returns the UUID as its 128-bit value.
/// Nothing is claimed of the value: it comes from the random number
/// generator.
#[verifier::external_body]
pub(crate) fn fresh_id() -> (id: u128) {
    uuid::Uuid::new_v4().as_u128()
}

/// The hyphenated lower-case text of an id.
///
/// Calls `to_string` on `uuid::Uuid::from_u128(id)`; uuid's `Display` writes
/// the sixteen big-endian bytes as lower-case hex digits with hyphens after
/// the 8th, 12th, 16th and 20th digit.
#[verifier::external_body]
pub(crate) fn id_text(id: u128) -> (s: String)
    ensures
        s@ == uuid_text(id),
{
    uuid::Uuid::from_u128(id).to_string()
}

/// Reads an id back from its text.
///
/// Calls `uuid::Uuid::parse_str` and returns the UUID's 128-bit value, or
/// `None` where the text is no UUID. The contract claims what uuid's
/// `try_parse` does, stated by `uuid_parse` (a text that uuid accepts is
/// all ASCII, so counting characters and counting bytes agree on it).
#[verifier::external_body]
pub(crate) fn parse_id(s: &str) -> (r: Option<u128>)
    ensures
        r == uuid_parse(s@),
{
    match uuid::Uuid::parse_str(s) {
        Ok(u) => Some(u.as_u128()),
        Err(_) => None,
    }
}

} // verus!
