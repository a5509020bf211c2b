use tsticker::links::sticker_set_name;

#[test]
fn link_gives_last_segment() {
    assert_eq!(sticker_set_name("https://t.me/addstickers/in_EDIHDC_by_NaiDrawBot"), "in_EDIHDC_by_NaiDrawBot");
}

#[test]
fn plain_name_is_kept() {
    assert_eq!(
        sticker_set_name("myadestes_1_amashiro_natsuki_plus_nacho_neko"),
        "myadestes_1_amashiro_natsuki_plus_nacho_neko"
    );
}

#[test]
fn trailing_slash_gives_empty_name() {
    assert_eq!(sticker_set_name("https://t.me/addstickers/"), "");
}

#[test]
fn empty_link_gives_empty_name() {
    assert_eq!(sticker_set_name(""), "");
}

#[test]
fn single_slash_gives_empty_name() {
    assert_eq!(sticker_set_name("/"), "");
}

#[test]
fn leading_slash_is_dropped() {
    assert_eq!(sticker_set_name("/name"), "name");
}

#[test]
fn name_agrees_with_split() {
    for link in ["a/b/c", "abc", "x//y", "//", "t.me/addstickers/Ünï_cødé"] {
        let expected = if link.contains('/') {
            link.split('/').last().unwrap().to_owned()
        } else {
            link.to_owned()
        };
        assert_eq!(sticker_set_name(link), expected);
    }
}

#[test]
fn name_never_holds_a_slash() {
    for link in ["a/b/c", "abc", "x//y", "//", "https://t.me/addstickers/set"] {
        assert!(!sticker_set_name(link).contains('/'));
    }
}
