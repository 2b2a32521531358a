use client_side::domain::{AuthTokens, UuidValue};
use client_side::events::CaptchaData;

#[test]
fn image_preview_truncates_to_64_characters() {
    let short = CaptchaData { id: UuidValue::nil(), image_base64: "AAA=".to_string() };
    assert_eq!(short.image_preview(), "AAA=");
    let long = CaptchaData { id: UuidValue::nil(), image_base64: "x".repeat(100) };
    assert_eq!(long.image_preview(), "x".repeat(64));
}

#[test]
fn auth_tokens_carry_both_lifetimes() {
    let t = AuthTokens {
        access_token: "a".to_string(),
        access_expires_in: 900,
        refresh_token: "r".to_string(),
        refresh_expires_in: 86400,
    };
    assert_eq!(t.access_expires_in, 900);
    assert_eq!(t.refresh_expires_in, 86400);
    assert_eq!(t.access_token, "a");
    assert_eq!(t.refresh_token, "r");
}
