use athene_bot::login::{build_login_token, extract_auth_param, find_char};
use base64::Engine;

#[test]
fn finds_first_occurrence() {
    assert_eq!(find_char("a#b#c", '#', 0), Some(1));
    assert_eq!(find_char("a#b#c", '#', 2), Some(3));
    assert_eq!(find_char("a#b#c", 'x', 0), None);
    assert_eq!(find_char("", '#', 0), None);
}

#[test]
fn extracts_auth_value() {
    let link = "https://t.me/bot?start=x#tgWebAppData=PAYLOAD&tgWebAppVersion=7";
    assert_eq!(extract_auth_param(link).as_deref(), Some("PAYLOAD"));
}

#[test]
fn extracts_value_up_to_second_equals() {
    assert_eq!(extract_auth_param("x#a=b=c").as_deref(), Some("b"));
    assert_eq!(extract_auth_param("x#a=b&c=d").as_deref(), Some("b"));
}

#[test]
fn link_without_fragment_fails() {
    assert_eq!(extract_auth_param("https://t.me/bot?start=x"), None);
    assert_eq!(build_login_token("https://t.me/bot?start=x", "code"), None);
}

#[test]
fn fragment_without_equals_fails() {
    assert_eq!(extract_auth_param("https://t.me/bot#justtext&x=1"), None);
}

#[test]
fn token_is_base64_of_decoded_value_and_invite_code() {
    let link = "https://x#d=hello&y=2";
    let token = build_login_token(link, "abc").expect("parseable link");
    assert_eq!(token, "aGVsbG8maW52aXRlX2NvZGU9YWJj");
}

#[test]
fn token_percent_decodes_auth_value() {
    let link = "https://x#d=hello%20world&y";
    let token = build_login_token(link, "z").expect("parseable link");
    let expected =
        base64::engine::general_purpose::STANDARD.encode("hello world&invite_code=z");
    assert_eq!(token, expected);
}
