use base64::prelude::{Engine, BASE64_STANDARD};
use william::calendar::{format_timestamp, LocalTime};
use william::photo::{
    candidate_text, encode_photo, gemini_url, shop_name_or_unknown, stored_date, telegram_key,
};

#[test]
fn photo_is_base64_encoded() {
    assert_eq!(encode_photo(b"Man"), "TWFu");
    assert_eq!(encode_photo(b"Ma"), "TWE=");
    assert_eq!(encode_photo(b"M"), "TQ==");
    assert_eq!(encode_photo(b""), "");
    let bytes: Vec<u8> = (0..=255u8).collect();
    assert_eq!(encode_photo(&bytes), BASE64_STANDARD.encode(&bytes));
    assert_eq!(encode_photo(&bytes).len(), 4 * ((bytes.len() + 2) / 3));
}

#[test]
fn request_address_carries_the_key() {
    assert_eq!(
        gemini_url("test-key"),
        "https://generativelanguage.googleapis.com/v1beta/models/gemini-2.5-flash:generateContent?key=test-key"
    );
}

#[test]
fn candidate_text_defaults_to_empty_object() {
    assert_eq!(candidate_text(Some("{\"total\": 1}")), "{\"total\": 1}");
    assert_eq!(candidate_text(None), "{}");
}

#[test]
fn stored_date_of_recognised_date() {
    let t = LocalTime { year: 2024, month: 3, day: 5, hour: 7, minute: 8, second: 9, nanosecond: 0 };
    assert_eq!(stored_date(Some("2024-05-01"), &t), "2024-05-01 00:00:00");
    assert_eq!(stored_date(Some(""), &t), " 00:00:00");
}

#[test]
fn stored_date_falls_back_to_now() {
    let t = LocalTime { year: 2024, month: 3, day: 5, hour: 7, minute: 8, second: 9, nanosecond: 0 };
    assert_eq!(stored_date(Some("UNKNOWN"), &t), "2024-03-05 07:08:09");
    assert_eq!(stored_date(None, &t), format_timestamp(&t));
    assert_eq!(stored_date(Some("unknown"), &t), "unknown 00:00:00");
}

#[test]
fn shop_name_default() {
    assert_eq!(shop_name_or_unknown(Some("Biedronka")), "Biedronka");
    assert_eq!(shop_name_or_unknown(None), "UNKNOWN");
}

#[test]
fn telegram_key_wraps_like_a_cast() {
    for id in [0u64, 1, 123456789, i64::MAX as u64, i64::MAX as u64 + 1, u64::MAX] {
        assert_eq!(telegram_key(Some(id)), id as i64);
    }
    assert_eq!(telegram_key(None), 0);
}
