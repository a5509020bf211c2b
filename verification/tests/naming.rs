use tsticker::bot::{Sticker, ThumbFile};
use tsticker::naming::{
    convert_sticker_to_filename, destination_for, file_name_from_lookup, path_join,
};

fn thumb(id: &str) -> ThumbFile {
    ThumbFile::new(id.to_string(), format!("u{id}"), 10, 128, 128)
}

fn sticker(emoji: &str, file_id: &str, is_animated: bool, is_video: bool) -> Sticker {
    Sticker {
        width: 512,
        height: 512,
        emoji: emoji.to_string(),
        is_animated,
        is_video,
        ty: "regular".to_string(),
        thumbnail: thumb("t1"),
        thumb: thumb("t2"),
        file_id: file_id.to_string(),
        file_unique_id: format!("u{file_id}"),
        file_size: 1234,
    }
}

#[test]
fn known_emoji_gives_its_name() {
    let s = sticker("🚀", "AAQ1", false, false);
    assert_eq!(convert_sticker_to_filename(&s), "rocket_AAQ1.webp");
}

#[test]
fn emoji_name_with_spaces_is_kept() {
    let s = sticker("😎", "f9", false, false);
    assert_eq!(convert_sticker_to_filename(&s), "smiling face with sunglasses_f9.webp");
}

#[test]
fn file_name_agrees_with_the_emoji_table() {
    let s = sticker("🤌", "x", false, false);
    let expected = format!("{}_x.webp", emojis::get("🤌").unwrap().name());
    assert_eq!(convert_sticker_to_filename(&s), expected);
}

#[test]
fn unknown_emoji_gives_the_placeholder() {
    let s = sticker("not an emoji", "id7", false, false);
    assert_eq!(convert_sticker_to_filename(&s), "emoji_missing_id7.webp");
}

#[test]
fn empty_emoji_gives_the_placeholder() {
    let s = sticker("", "id8", false, false);
    assert_eq!(convert_sticker_to_filename(&s), "emoji_missing_id8.webp");
}

#[test]
fn animated_sticker_is_webm() {
    let s = sticker("🚀", "a1", true, false);
    assert_eq!(s.file_ext(), "webm");
    assert_eq!(convert_sticker_to_filename(&s), "rocket_a1.webm");
}

#[test]
fn video_sticker_is_webm() {
    let s = sticker("🚀", "v1", false, true);
    assert_eq!(s.file_ext(), "webm");
    assert_eq!(convert_sticker_to_filename(&s), "rocket_v1.webm");
}

#[test]
fn still_sticker_is_webp() {
    let s = sticker("🚀", "s1", false, false);
    assert_eq!(s.file_ext(), "webp");
}

#[test]
fn media_flags_are_checked() {
    assert!(sticker("🚀", "a", false, false).has_valid_media());
    assert!(sticker("🚀", "a", true, false).has_valid_media());
    assert!(sticker("🚀", "a", false, true).has_valid_media());
    assert!(!sticker("🚀", "a", true, true).has_valid_media());
}

#[test]
fn file_name_is_built_from_its_parts() {
    assert_eq!(file_name_from_lookup(Some("rocket"), "id", "webp"), "rocket_id.webp");
    assert_eq!(file_name_from_lookup(None, "id", "webm"), "emoji_missing_id.webm");
    assert_eq!(file_name_from_lookup(Some(""), "", ""), "_.");
}

#[test]
fn paths_are_joined_with_one_slash() {
    assert_eq!(path_join("out", "set"), "out/set");
    assert_eq!(path_join("out/", "set"), "out/set");
    assert_eq!(path_join("", "set"), "set");
    assert_eq!(path_join("/", "set"), "/set");
    assert_eq!(path_join("out", ""), "out/");
    assert_eq!(path_join("выход", "набор"), "выход/набор");
}

#[test]
fn destination_has_directory_and_path() {
    let s = sticker("🚀", "AAQ1", false, false);
    let dest = destination_for("/tmp/out", "My Set", &s);
    assert_eq!(dest.directory, "/tmp/out/My Set");
    assert_eq!(dest.path, "/tmp/out/My Set/rocket_AAQ1.webp");
}

#[test]
fn naming_is_deterministic() {
    let a = sticker("😎", "same", false, true);
    let b = sticker("😎", "same", false, true);
    let first = destination_for("out", "Title", &a);
    let second = destination_for("out", "Title", &b);
    let again = destination_for("out", "Title", &a);
    assert_eq!(first.path, second.path);
    assert_eq!(first.directory, second.directory);
    assert_eq!(first.path, again.path);
    assert_eq!(first.path, "out/Title/smiling face with sunglasses_same.webm");
}

#[test]
fn different_file_ids_give_different_names() {
    let a = sticker("🚀", "one", false, false);
    let b = sticker("🚀", "two", false, false);
    assert_ne!(convert_sticker_to_filename(&a), convert_sticker_to_filename(&b));
}
