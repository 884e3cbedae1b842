use vstd::prelude::*;

verus! {

/// A lower-case hexadecimal digit.
pub open spec fn hex_digit(d: int) -> char {
    if d < 10 {
        (('0' as int) + d) as char
    } else {
        (('a' as int) + d - 10) as char
    }
}

/// How a JSON string literal writes one character: the quote, the reverse
/// solidus and the control characters are escaped, everything else is kept.
pub open spec fn json_escape_char(c: char) -> Seq<char> {
    if c == '"' {
        seq!['\\', '"']
    } else if c == '\\' {
        seq!['\\', '\\']
    } else if c == '\u{8}' {
        seq!['\\', 'b']
    } else if c == '\t' {
        seq!['\\', 't']
    } else if c == '\n' {
        seq!['\\', 'n']
    } else if c == '\u{c}' {
        seq!['\\', 'f']
    } else if c == '\r' {
        seq!['\\', 'r']
    } else if (c as int) < 0x20 {
        seq!['\\', 'u', '0', '0', hex_digit((c as int) / 16), hex_digit((c as int) % 16)]
    } else {
        seq![c]
    }
}

/// The escaped body of a JSON string literal.
pub open spec fn json_escape(s: Seq<char>) -> Seq<char>
    decreases s.len(),
{
    if s.len() == 0 {
        Seq::empty()
    } else {
        json_escape(s.drop_last()) + json_escape_char(s.last())
    }
}

/// A JSON string literal, quotes included.
pub open spec fn json_string(s: Seq<char>) -> Seq<char> {
    seq!['"'] + json_escape(s) + seq!['"']
}

/// JSON string literals separated by commas, as in the body of an array.
pub open spec fn json_string_list(items: Seq<Seq<char>>) -> Seq<char>
    decreases items.len(),
{
    if items.len() == 0 {
        Seq::empty()
    } else if items.len() == 1 {
        json_string(items[0])
    } else {
        json_string_list(items.drop_last()) + seq![','] + json_string(items.last())
    }
}

/// A character that a JSON string literal writes as it is.
pub open spec fn plain_char(c: char) -> bool {
    c != '"' && c != '\\' && (c as int) >= 0x20
}

/// A text of plain characters is written inside the quotes as it is.
pub proof fn law_plain_text_unescaped(s: Seq<char>)
    requires
        forall|i: int| 0 <= i < s.len() ==> plain_char(#[trigger] s[i]),
    ensures
        json_string(s) == seq!['"'] + s + seq!['"'],
    decreases s.len(),
{
    lemma_plain_escape(s);
}

proof fn lemma_plain_escape(s: Seq<char>)
    requires
        forall|i: int| 0 <= i < s.len() ==> plain_char(#[trigger] s[i]),
    ensures
        json_escape(s) == s,
    decreases s.len(),
{
    if s.len() > 0 {
        let rest = s.drop_last();
        assert forall|i: int| 0 <= i < rest.len() implies plain_char(#[trigger] rest[i]) by {
            assert(rest[i] == s[i]);
        }
        lemma_plain_escape(rest);
        assert(plain_char(s[s.len() - 1]));
        assert(rest.push(s.last()) =~= s);
    }
}

/// A list of one text is that text's literal.
pub proof fn law_string_list_single(x: Seq<char>)
    ensures
        json_string_list(seq![x]) == json_string(x),
{
}

/// Adding a text to a non-empty list writes one comma, then the text's
/// literal, after the list.
pub proof fn law_string_list_push(items: Seq<Seq<char>>, x: Seq<char>)
    requires
        items.len() > 0,
    ensures
        json_string_list(items.push(x)) == json_string_list(items) + seq![','] + json_string(x),
{
    assert(items.push(x).drop_last() =~= items);
}

/// Two non-empty lists written one after the other are joined by exactly
/// one comma.
pub proof fn law_string_list_concat(a: Seq<Seq<char>>, b: Seq<Seq<char>>)
    requires
        a.len() > 0,
        b.len() > 0,
    ensures
        json_string_list(a + b) == json_string_list(a) + seq![','] + json_string_list(b),
    decreases b.len(),
{
    if b.len() == 1 {
        assert(a + b =~= a.push(b[0]));
        law_string_list_push(a, b[0]);
        assert(b =~= seq![b[0]]);
    } else {
        let c = b.drop_last();
        law_string_list_concat(a, c);
        assert(a + b =~= (a + c).push(b.last()));
        law_string_list_push(a + c, b.last());
        assert(c.push(b.last()) =~= b);
        law_string_list_push(c, b.last());
    }
}

/// The decimal digits of a natural number, without leading zeros.
pub open spec fn decimal_digits(n: nat) -> Seq<char>
    decreases n,
{
    if n < 10 {
        seq![hex_digit(n as int)]
    } else {
        decimal_digits(n / 10).push(hex_digit((n % 10) as int))
    }
}

/// A JSON integer: a minus sign for negative numbers, then the digits.
pub open spec fn json_integer_text(n: int) -> Seq<char> {
    if n < 0 {
        seq!['-'] + decimal_digits((-n) as nat)
    } else {
        decimal_digits(n as nat)
    }
}

/// Writes `s` as a JSON string literal.
///
/// Calls `serde_json::to_string` on the `str`. The contract claims what
/// serde_json's `format_escaped_str` does: a quote, then each character with
/// `"`, `\` and the control characters below U+0020 escaped (the short forms
/// `\b \t \n \f \r` where they exist, `\u00xx` with lower-case hex digits
/// otherwise), then a quote. Serialising a `str` into memory does not fail.
#[verifier::external_body]
pub(crate) fn quote_json_string(s: &str) -> (r: String)
    ensures
        r@ == json_string(s@),
{
    match serde_json::to_string(s) {
        Ok(text) => text,
        Err(_) => String::new(),
    }
}

/// Writes `n` as a JSON number.
///
/// Calls `serde_json::to_string` on the `i32`; serde_json writes integers
/// with `itoa`: a minus sign for negative numbers, then the decimal digits
/// without leading zeros. Serialising an integer into memory does not fail.
#[verifier::external_body]
pub(crate) fn json_integer(n: i32) -> (r: String)
    ensures
        r@ == json_integer_text(n as int),
{
    match serde_json::to_string(&n) {
        Ok(text) => text,
        Err(_) => String::new(),
    }
}

} // verus!
