use client_side::rest::{api_base_url, captcha_suffix, endpoint_url, join_url, login_suffix,
    signup_suffix, ws_chat_url};

#[test]
fn endpoint_urls_join_with_one_slash() {
    assert_eq!(endpoint_url("captcha"), "https://127.0.0.1:8443/api/v1/captcha");
    assert_eq!(endpoint_url("signup"), "https://127.0.0.1:8443/api/v1/signup");
    assert_eq!(endpoint_url("login"), "https://127.0.0.1:8443/api/v1/login");
}

#[test]
fn suffix_constants_match_the_wire_contract() {
    assert_eq!(captcha_suffix(), "captcha");
    assert_eq!(signup_suffix(), "signup");
    assert_eq!(login_suffix(), "login");
    assert_eq!(api_base_url(), "https://127.0.0.1:8443/api/v1");
    assert_eq!(ws_chat_url(), "wss://127.0.0.1:8443/api/v1/chat");
}

#[test]
fn redundant_slashes_are_stripped() {
    assert_eq!(join_url("https://h/api/", "/captcha"), "https://h/api/captcha");
    assert_eq!(join_url("https://h/api//", "///captcha"), "https://h/api/captcha");
    assert_eq!(join_url("https://h/api", "captcha"), "https://h/api/captcha");
}

#[test]
fn empty_parts_still_get_one_separator() {
    assert_eq!(join_url("", ""), "/");
    assert_eq!(join_url("base", ""), "base/");
    assert_eq!(join_url("", "leaf"), "/leaf");
}
