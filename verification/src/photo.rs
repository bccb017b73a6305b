use base64::prelude::{Engine, BASE64_STANDARD};
use vstd::prelude::*;

use crate::calendar::{format_timestamp, timestamp_text, LocalTime};
use crate::text::{push_str, str_eq};

verus! {

/// The base64 digit for a six-bit value: `A`-`Z`, `a`-`z`, `0`-`9`, `+`, `/`.
pub open spec fn base64_digit(v: int) -> char {
    if v < 26 {
        (('A' as int) + v) as char
    } else if v < 52 {
        (('a' as int) + v - 26) as char
    } else if v < 62 {
        (('0' as int) + v - 52) as char
    } else if v == 62 {
        '+'
    } else {
        '/'
    }
}

/// Four characters for the 24-bit group `n`, of which the first `count`
/// bytes (1 to 3) are real; the places of missing bytes read `=`.
pub open spec fn base64_group(n: int, count: int) -> Seq<char> {
    seq![
        base64_digit(n / 262144),
        base64_digit((n / 4096) % 64),
        if count >= 2 { base64_digit((n / 64) % 64) } else { '=' },
        if count >= 3 { base64_digit(n % 64) } else { '=' },
    ]
}

/// The standard base64 encoding (RFC 4648 alphabet, `=` padding) of
/// `bytes`: each group of three bytes gives four digits, and a last group
/// of one or two bytes is padded to four characters with `=`.
pub open spec fn base64_standard(bytes: Seq<u8>) -> Seq<char>
    decreases bytes.len(),
{
    if bytes.len() == 0 {
        Seq::empty()
    } else if bytes.len() == 1 {
        base64_group(bytes[0] * 65536, 1)
    } else if bytes.len() == 2 {
        base64_group(bytes[0] * 65536 + bytes[1] * 256, 2)
    } else {
        base64_group(bytes[0] * 65536 + bytes[1] * 256 + bytes[2], 3) + base64_standard(
            bytes.subrange(3, bytes.len() as int),
        )
    }
}

/// A character of the standard base64 alphabet, or the padding `=`.
pub open spec fn is_base64_char(c: char) -> bool {
    ('A' <= c <= 'Z') || ('a' <= c <= 'z') || ('0' <= c <= '9') || c == '+' || c == '/' || c == '='
}

proof fn lemma_base64_group(n: int, count: int)
    requires
        0 <= n < 16777216,
    ensures
        base64_group(n, count).len() == 4,
        forall|i: int| 0 <= i < 4 ==> is_base64_char(#[trigger] base64_group(n, count)[i]),
{
    let g = base64_group(n, count);
    assert(0 <= n / 262144 < 64);
    assert(0 <= (n / 4096) % 64 < 64);
    assert(0 <= (n / 64) % 64 < 64);
    assert(0 <= n % 64 < 64);
    assert forall|i: int| 0 <= i < 4 implies is_base64_char(#[trigger] g[i]) by {
        let v = if i == 0 {
            n / 262144
        } else if i == 1 {
            (n / 4096) % 64
        } else if i == 2 {
            (n / 64) % 64
        } else {
            n % 64
        };
        if g[i] != '=' {
            assert(g[i] == base64_digit(v));
        }
    }
}

/// The standard base64 encoding of `n` bytes has `4 * ceil(n / 3)`
/// characters, all from the standard alphabet or `=`.
pub proof fn lemma_base64_shape(bytes: Seq<u8>)
    ensures
        base64_standard(bytes).len() == 4 * ((bytes.len() + 2) / 3),
        forall|i: int|
            0 <= i < base64_standard(bytes).len() ==> is_base64_char(
                #[trigger] base64_standard(bytes)[i],
            ),
    decreases bytes.len(),
{
    let r = base64_standard(bytes);
    if bytes.len() == 0 {
    } else if bytes.len() == 1 {
        lemma_base64_group(bytes[0] * 65536, 1);
    } else if bytes.len() == 2 {
        lemma_base64_group(bytes[0] * 65536 + bytes[1] * 256, 2);
    } else {
        let n = bytes[0] * 65536 + bytes[1] * 256 + bytes[2];
        let rest = bytes.subrange(3, bytes.len() as int);
        lemma_base64_group(n, 3);
        lemma_base64_shape(rest);
        let g = base64_group(n, 3);
        assert(r == g + base64_standard(rest));
        assert forall|i: int| 0 <= i < r.len() implies is_base64_char(#[trigger] r[i]) by {
            if i < 4 {
                assert(r[i] == g[i]);
            } else {
                assert(r[i] == base64_standard(rest)[i - 4]);
            }
        }
    }
}

/// Calls `BASE64_STANDARD.encode`, the standard alphabet with `=` padding.
/// The call panics where the encoded length does not fit in `usize`.
#[verifier::external_body]
fn base64_encode(bytes: &[u8]) -> (r: String)
    requires
        4 * ((bytes@.len() + 2) / 3) <= usize::MAX,
    ensures
        r@ == base64_standard(bytes@),
{
    BASE64_STANDARD.encode(bytes)
}

/// The photo of a receipt as the recognition request carries it: standard
/// base64 with padding.
pub fn encode_photo(photo: &[u8]) -> (r: String)
    requires
        4 * ((photo@.len() + 2) / 3) <= usize::MAX,
    ensures
        r@ == base64_standard(photo@),
        r@.len() == 4 * ((photo@.len() + 2) / 3),
        forall|i: int| 0 <= i < r@.len() ==> is_base64_char(#[trigger] r@[i]),
{
    proof {
        lemma_base64_shape(photo@);
    }
    base64_encode(photo)
}

/// The address of the recognition service, with the API key as query
/// parameter.
pub open spec fn spec_gemini_url(api_key: Seq<char>) -> Seq<char> {
    "https://generativelanguage.googleapis.com/v1beta/models/gemini-2.5-flash:generateContent?key="@
        + api_key
}

/// The address of the recognition service for an API key.
pub fn gemini_url(api_key: &str) -> (r: String)
    ensures
        r@ == spec_gemini_url(api_key@),
{
    let mut s = String::new();
    push_str(
        &mut s,
        "https://generativelanguage.googleapis.com/v1beta/models/gemini-2.5-flash:generateContent?key=",
    );
    push_str(&mut s, api_key);
    s
}

/// The text of the first candidate of the service's answer, or `{}` (an
/// empty receipt) where the answer has none.
pub fn candidate_text(text: Option<&str>) -> (r: String)
    ensures
        r@ == match text {
            Some(t) => t@,
            None => "{}"@,
        },
{
    match text {
        Some(t) => t.to_owned(),
        None => "{}".to_owned(),
    }
}

/// The date stored with a receipt: the recognised date at midnight, or the
/// current time where the date is missing or reads `UNKNOWN`.
pub open spec fn spec_stored_date(receipt_date: Option<Seq<char>>, now: LocalTime) -> Seq<char> {
    match receipt_date {
        Some(d) => if d == "UNKNOWN"@ {
            timestamp_text(now)
        } else {
            d + " 00:00:00"@
        },
        None => timestamp_text(now),
    }
}

/// The timestamp stored with a receipt.
pub fn stored_date(receipt_date: Option<&str>, now: &LocalTime) -> (r: String)
    requires
        now.well_formed(),
    ensures
        r@ == spec_stored_date(
            match receipt_date {
                Some(d) => Some(d@),
                None => None,
            },
            *now,
        ),
{
    let r_date = match receipt_date {
        Some(d) => d,
        None => "UNKNOWN",
    };
    if str_eq(r_date, "UNKNOWN") {
        format_timestamp(now)
    } else {
        let mut s = String::new();
        push_str(&mut s, r_date);
        push_str(&mut s, " 00:00:00");
        s
    }
}

/// The shop name stored with a receipt: the recognised one, or `UNKNOWN`.
pub fn shop_name_or_unknown(shop_name: Option<&str>) -> (r: &str)
    ensures
        r@ == match shop_name {
            Some(s) => s@,
            None => "UNKNOWN"@,
        },
{
    match shop_name {
        Some(s) => s,
        None => "UNKNOWN",
    }
}

/// The number under which a Telegram user is stored: the user id read as a
/// signed 64-bit number (ids beyond `i64::MAX` wrap around), 0 where the
/// message has no sender.
pub open spec fn spec_telegram_key(user_id: Option<u64>) -> int {
    match user_id {
        Some(id) => if id <= i64::MAX { id as int } else { id as int - 0x1_0000_0000_0000_0000 },
        None => 0,
    }
}

/// The number under which a Telegram user is stored.
pub fn telegram_key(user_id: Option<u64>) -> (r: i64)
    ensures
        r as int == spec_telegram_key(user_id),
{
    match user_id {
        Some(id) => {
            if id <= i64::MAX as u64 {
                id as i64
            } else {
                let below: u64 = id - 0x8000_0000_0000_0000u64;
                (below as i64) - 0x4000_0000_0000_0000i64 - 0x4000_0000_0000_0000i64
            }
        },
        None => 0,
    }
}

} // verus!
