use tsticker::api::{
    api_entry, check_status, download_url, file_info_url, login_url, method_url,
    payload_or_error, sticker_set_url, MAX_REQUEST_BYTES,
};
use tsticker::bot::{TelegramFile, TelegramFilePath, ThumbFile};
use tsticker::error::Error;

#[test]
fn entry_gets_a_slash_before_a_bare_path() {
    assert_eq!(api_entry("123:abc", "getMe"), "https://api.telegram.org/bot123:abc/getMe");
}

#[test]
fn entry_keeps_the_slash_of_a_rooted_path() {
    assert_eq!(api_entry("123:abc", "/getMe"), "https://api.telegram.org/bot123:abc/getMe");
}

#[test]
fn entry_with_empty_path_ends_in_a_slash() {
    assert_eq!(api_entry("t", ""), "https://api.telegram.org/bott/");
}

#[test]
fn method_url_appends_the_parameters() {
    let url = method_url("123:abc", "getStickerSet", &[("name", "my_set")]);
    assert_eq!(
        url.as_deref(),
        Some("https://api.telegram.org/bot123:abc/getStickerSet?name=my_set")
    );
}

#[test]
fn method_url_encodes_the_parameters() {
    let url = method_url("t", "m", &[("a b", "c&d"), ("e", "é")]);
    assert_eq!(url.as_deref(), Some("https://api.telegram.org/bott/m?a+b=c%26d&e=%C3%A9"));
}

#[test]
fn method_url_without_parameters_has_an_empty_query() {
    let url = method_url("t", "getMe", &[]);
    assert_eq!(url.as_deref(), Some("https://api.telegram.org/bott/getMe?"));
}

#[test]
fn method_url_agrees_with_the_parser() {
    let params = [("file_id", "AgAD/x y"), ("k", "v")];
    let expected =
        reqwest::Url::parse_with_params("https://api.telegram.org/botT/getFile", &params).unwrap();
    assert_eq!(method_url("T", "getFile", &params).as_deref(), Some(expected.as_str()));
}

#[test]
fn oversized_request_has_no_url() {
    let big = "x".repeat(MAX_REQUEST_BYTES);
    assert_eq!(method_url("t", "m", &[("k", &big)]), None);
    assert_eq!(method_url(&big, "m", &[]), None);
}

#[test]
fn request_at_the_limit_has_a_url() {
    let entry = api_entry("t", "m");
    let room = MAX_REQUEST_BYTES - entry.len() - 1 - 2;
    let value = "v".repeat(room);
    assert!(method_url("t", "m", &[("k", &value)]).is_some());
    let longer = "v".repeat(room + 1);
    assert!(method_url("t", "m", &[("k", &longer)]).is_none());
}

#[test]
fn login_url_calls_get_me() {
    assert_eq!(login_url("42:x").as_deref(), Some("https://api.telegram.org/bot42:x/getMe?"));
}

#[test]
fn sticker_set_url_names_the_set() {
    assert_eq!(
        sticker_set_url("42:x", "in_EDIHDC_by_NaiDrawBot").as_deref(),
        Some("https://api.telegram.org/bot42:x/getStickerSet?name=in_EDIHDC_by_NaiDrawBot")
    );
}

#[test]
fn file_info_url_names_the_file() {
    let thumb = ThumbFile::new("FILE-1".to_string(), "U1".to_string(), 7, 1, 2);
    assert_eq!(thumb.file_id(), "FILE-1");
    assert_eq!(thumb.file_size(), 7);
    assert_eq!(
        file_info_url("42:x", &thumb).as_deref(),
        Some("https://api.telegram.org/bot42:x/getFile?file_id=FILE-1")
    );
}

#[test]
fn file_info_url_takes_any_file() {
    let thumb = ThumbFile::new("F2".to_string(), "U2".to_string(), 7, 1, 2);
    let file: &dyn TelegramFile = &thumb;
    assert_eq!(
        file_info_url("t", file).as_deref(),
        Some("https://api.telegram.org/bott/getFile?file_id=F2")
    );
}

#[test]
fn download_url_points_below_file() {
    let path = TelegramFilePath::new("stickers/file_7.webp".to_string());
    assert_eq!(
        download_url("42:x", &path),
        "https://api.telegram.org/file/bot42:x/stickers/file_7.webp"
    );
    assert_eq!(path.to_string(), "stickers/file_7.webp");
    assert_eq!(path.as_str(), "stickers/file_7.webp");
}

#[test]
fn unreadable_status_is_a_json_error() {
    let answer = check_status("<html>".to_string(), Err("expected value".to_string()));
    match answer {
        Err(Error::ResponseJsonError(message)) => assert_eq!(message, "expected value"),
        other => panic!("unexpected answer: {other:?}"),
    }
}

#[test]
fn failed_call_is_a_bot_error_with_the_reply() {
    let reply = r#"{"ok":false,"error_code":401}"#.to_string();
    match check_status(reply.clone(), Ok(false)) {
        Err(Error::BotError(held)) => assert_eq!(held, reply),
        other => panic!("unexpected answer: {other:?}"),
    }
}

#[test]
fn good_status_hands_the_reply_back() {
    let reply = r#"{"ok":true,"result":1}"#.to_string();
    match check_status(reply.clone(), Ok(true)) {
        Ok(back) => assert_eq!(back, reply),
        other => panic!("unexpected answer: {other:?}"),
    }
}

#[test]
fn payload_is_passed_on() {
    match payload_or_error::<u32>(Ok(7)) {
        Ok(value) => assert_eq!(value, 7),
        other => panic!("unexpected outcome: {other:?}"),
    }
}

#[test]
fn unreadable_payload_is_a_json_error() {
    match payload_or_error::<u32>(Err("missing field `result`".to_string())) {
        Err(Error::ResponseJsonError(message)) => assert_eq!(message, "missing field `result`"),
        other => panic!("unexpected outcome: {other:?}"),
    }
}

#[test]
fn errors_are_rendered() {
    assert_eq!(Error::BotError("{}".to_string()).to_string(), "bot error: {}");
    assert_eq!(Error::RequestError("timed out".to_string()).to_string(), "timed out");
    assert_eq!(Error::ResponseJsonError("eof".to_string()).to_string(), "eof");
}
