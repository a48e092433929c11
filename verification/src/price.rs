//! The Yahoo Finance chart endpoints the price provider calls, and the key
//! its short-lived cache uses.

use vstd::prelude::*;

use crate::text::{
    push_decimal, push_signed_decimal, push_str_chars, signed_decimal, spec_uppercase,
    string_from_chars, uppercase,
};

verus! {

/// RFC 3986 unreserved bytes: ASCII letters and digits, `-`, `_`, `.`, `~`.
pub open spec fn unreserved(b: u8) -> bool {
    (0x30 <= b <= 0x39) || (0x41 <= b <= 0x5a) || (0x61 <= b <= 0x7a) || b == 0x2d || b == 0x5f
        || b == 0x2e || b == 0x7e
}

/// Upper-case hexadecimal digit of `d < 16`.
pub open spec fn hex_upper(d: u8) -> char {
    if d < 10 {
        ((d + 48) as u8) as char
    } else {
        ((d + 55) as u8) as char
    }
}

/// One byte percent-encoded: unreserved bytes stand for themselves, every
/// other byte becomes `%XY`.
pub open spec fn encode_byte(b: u8) -> Seq<char> {
    if unreserved(b) {
        seq![b as char]
    } else {
        seq!['%', hex_upper(b / 16), hex_upper(b % 16)]
    }
}

pub open spec fn percent_encode(bytes: Seq<u8>) -> Seq<char>
    decreases bytes.len(),
{
    if bytes.len() == 0 {
        seq![]
    } else {
        percent_encode(bytes.drop_last()) + encode_byte(bytes.last())
    }
}

fn hex_digit(d: u8) -> (c: char)
    requires
        d < 16,
    ensures
        c == hex_upper(d),
{
    if d < 10 {
        (d + 48) as char
    } else {
        (d + 55) as char
    }
}

/// Percent-encodes the UTF-8 bytes of `input` for use as one URL path
/// segment, so that symbols like `BRK.B` pass unchanged and nothing can
/// inject a path separator.
pub fn urlencoding_encode(input: &str) -> (res: String)
    ensures
        res@ == percent_encode(vstd::utf8::encode_utf8(input@)),
{
    let bytes = input.as_bytes();
    let mut out: Vec<char> = Vec::new();
    let mut i: usize = 0;
    while i < bytes.len()
        invariant
            0 <= i <= bytes@.len(),
            bytes@ == vstd::utf8::encode_utf8(input@),
            out@ == percent_encode(bytes@.take(i as int)),
        decreases bytes@.len() - i,
    {
        let b = bytes[i];
        let ghost before = out@;
        if (0x30 <= b && b <= 0x39) || (0x41 <= b && b <= 0x5a) || (0x61 <= b && b <= 0x7a) || b
            == 0x2d || b == 0x5f || b == 0x2e || b == 0x7e {
            out.push(b as char);
        } else {
            out.push('%');
            out.push(hex_digit(b / 16));
            out.push(hex_digit(b % 16));
        }
        assert(out@ =~= before + encode_byte(b));
        assert(bytes@.take(i + 1).drop_last() =~= bytes@.take(i as int));
        i = i + 1;
    }
    assert(bytes@.take(bytes@.len() as int) =~= bytes@);
    string_from_chars(&out)
}

pub open spec fn chart_base() -> Seq<char> {
    "https://query1.finance.yahoo.com/v8/finance/chart/"@
}

/// The chart URL of today's quote of `ticker`.
pub fn current_price_url(ticker: &str) -> (res: String)
    ensures
        res@ == chart_base() + percent_encode(vstd::utf8::encode_utf8(ticker@)) + "?interval=1d&range=1d"@,
{
    let mut out: Vec<char> = Vec::new();
    push_str_chars(&mut out, "https://query1.finance.yahoo.com/v8/finance/chart/");
    let encoded = urlencoding_encode(ticker);
    push_str_chars(&mut out, encoded.as_str());
    push_str_chars(&mut out, "?interval=1d&range=1d");
    string_from_chars(&out)
}

/// The chart URL of the daily quotes of `ticker` between two Unix times.
pub fn historical_prices_url(ticker: &str, period1: i64, period2: i64) -> (res: String)
    ensures
        res@ == chart_base() + percent_encode(vstd::utf8::encode_utf8(ticker@)) + "?period1="@
            + signed_decimal(period1 as int) + "&period2="@ + signed_decimal(period2 as int)
            + "&interval=1d"@,
{
    let mut out: Vec<char> = Vec::new();
    push_str_chars(&mut out, "https://query1.finance.yahoo.com/v8/finance/chart/");
    let encoded = urlencoding_encode(ticker);
    push_str_chars(&mut out, encoded.as_str());
    push_str_chars(&mut out, "?period1=");
    push_signed_decimal(&mut out, period1);
    push_str_chars(&mut out, "&period2=");
    push_signed_decimal(&mut out, period2);
    push_str_chars(&mut out, "&interval=1d");
    string_from_chars(&out)
}

/// The key under which a ticker's current price is cached and reported:
/// the ticker upper-cased.
pub fn price_cache_key(ticker: &str) -> (res: String)
    ensures
        res@ == spec_uppercase(ticker@),
{
    uppercase(ticker)
}

/// A character that can appear in an encoded path segment: an unreserved
/// ASCII character, `%`, or an upper-case hexadecimal digit.
pub open spec fn encoded_char(c: char) -> bool {
    let u = c as u32;
    ||| (0x30 <= u <= 0x39)
    ||| (0x41 <= u <= 0x5a)
    ||| (0x61 <= u <= 0x7a)
    ||| u == 0x2d
    ||| u == 0x5f
    ||| u == 0x2e
    ||| u == 0x7e
    ||| u == 0x25
}

/// An encoded segment holds only unreserved characters, `%` and hex digits,
/// so it can never carry a `/`, `?` or `#` into the URL.
pub proof fn law_encoded_segment_is_safe(bytes: Seq<u8>)
    ensures
        forall|i: int| 0 <= i < percent_encode(bytes).len() ==> encoded_char(#[trigger] percent_encode(bytes)[i]),
    decreases bytes.len(),
{
    if bytes.len() > 0 {
        let p = bytes.drop_last();
        law_encoded_segment_is_safe(p);
        let e = percent_encode(p);
        let b = bytes.last();
        let t = encode_byte(b);
        assert(b / 16 < 16 && b % 16 < 16);
        assert forall|i: int| 0 <= i < percent_encode(bytes).len() implies encoded_char(#[trigger] percent_encode(bytes)[i]) by {
            if i < e.len() {
                assert(percent_encode(bytes)[i] == e[i]);
            } else {
                assert(percent_encode(bytes)[i] == t[i - e.len()]);
            }
        }
    }
}

/// Unreserved bytes are kept as they are: a segment of letters, digits,
/// `-`, `_`, `.` and `~` is encoded as itself.
pub proof fn law_unreserved_text_is_unchanged(bytes: Seq<u8>)
    requires
        forall|i: int| 0 <= i < bytes.len() ==> unreserved(#[trigger] bytes[i]),
    ensures
        percent_encode(bytes) == bytes.map_values(|b: u8| b as char),
    decreases bytes.len(),
{
    if bytes.len() > 0 {
        let p = bytes.drop_last();
        assert forall|i: int| 0 <= i < p.len() implies unreserved(#[trigger] p[i]) by {
            assert(p[i] == bytes[i]);
        }
        law_unreserved_text_is_unchanged(p);
        assert(unreserved(bytes[bytes.len() - 1]));
        assert(bytes.map_values(|b: u8| b as char) =~= p.map_values(|b: u8| b as char).push(
            bytes.last() as char,
        ));
    } else {
        assert(bytes.map_values(|b: u8| b as char) =~= Seq::<char>::empty());
    }
}

/// The length of the encoding: one character per unreserved byte, three per
/// other byte.
pub open spec fn encoded_len(bytes: Seq<u8>) -> nat
    decreases bytes.len(),
{
    if bytes.len() == 0 {
        0
    } else {
        encoded_len(bytes.drop_last()) + if unreserved(bytes.last()) {
            1nat
        } else {
            3nat
        }
    }
}

/// An upper-case hexadecimal digit: `0`-`9` or `A`-`F`.
pub open spec fn hex_digit_char(c: char) -> bool {
    let u = c as u32;
    (0x30 <= u <= 0x39) || (0x41 <= u <= 0x46)
}

/// Every `%` of `s` starts an escape: two hexadecimal digits follow it.
pub open spec fn escapes_well_formed(s: Seq<char>) -> bool {
    forall|i: int|
        0 <= i < s.len() && #[trigger] s[i] == '%' ==> i + 2 < s.len() && hex_digit_char(s[i + 1])
            && hex_digit_char(s[i + 2])
}

/// The shape of an encoded path segment: it is ASCII, its length is one
/// character per unreserved byte and three per other byte, and every `%` in
/// it is followed by two upper-case hexadecimal digits.
pub proof fn law_percent_encoding_shape(bytes: Seq<u8>)
    ensures
        percent_encode(bytes).len() == encoded_len(bytes),
        forall|i: int|
            0 <= i < percent_encode(bytes).len() ==> (#[trigger] percent_encode(bytes)[i] as u32)
                < 128,
        escapes_well_formed(percent_encode(bytes)),
    decreases bytes.len(),
{
    law_encoded_segment_is_safe(bytes);
    if bytes.len() > 0 {
        let p = bytes.drop_last();
        law_percent_encoding_shape(p);
        let e = percent_encode(p);
        let r = percent_encode(bytes);
        let b = bytes.last();
        let t = encode_byte(b);
        assert(r == e + t);
        assert(b / 16 < 16 && b % 16 < 16);
        assert(hex_digit_char(hex_upper(b / 16)));
        assert(hex_digit_char(hex_upper(b % 16)));
        assert forall|i: int| 0 <= i < r.len() && #[trigger] r[i] == '%' implies i + 2 < r.len()
            && hex_digit_char(r[i + 1]) && hex_digit_char(r[i + 2]) by {
            if i < e.len() {
                assert(r[i] == e[i]);
                assert(r[i + 1] == e[i + 1]);
                assert(r[i + 2] == e[i + 2]);
            } else {
                assert(r[i] == t[i - e.len()]);
                if unreserved(b) {
                    assert(t[0] == b as char);
                } else {
                    assert(i == e.len());
                    assert(r[i + 1] == t[1]);
                    assert(r[i + 2] == t[2]);
                }
            }
        }
    }
}

} // verus!
