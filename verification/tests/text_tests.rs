use hilen_release::run::probe;
use hilen_release::text::{env_stem_of, join_strings, join_strs, replace_char, trim, trim_end_char};

#[test]
fn trim_drops_unicode_whitespace_at_both_ends() {
    assert_eq!(trim("  \t abc def \n"), "abc def");
    assert_eq!(trim("\u{3000}x\u{a0}"), "x");
    assert_eq!(trim(" \n\t "), "");
    assert_eq!(trim(""), "");
}

#[test]
fn trailing_slashes_go_all_at_once() {
    assert_eq!(trim_end_char("https://a.b/c///", '/'), "https://a.b/c");
    assert_eq!(trim_end_char("https://a.b/c", '/'), "https://a.b/c");
    assert_eq!(trim_end_char("///", '/'), "");
}

#[test]
fn replace_and_uppercase_make_env_stems() {
    assert_eq!(replace_char("linux/amd64", '/', '-'), "linux-amd64");
    assert_eq!(env_stem_of("ünï-app"), "ÜNÏ_APP");
    assert_eq!(env_stem_of("my-app"), "MY_APP");
}

#[test]
fn joins_put_the_separator_between() {
    assert_eq!(join_strs(&["a", "b", "c"], ", "), "a, b, c");
    assert_eq!(join_strs(&[], " "), "");
    assert_eq!(join_strings(&vec!["x".to_string()], " "), "x");
}

#[test]
fn lossy_text_decodes_valid_utf8_as_is() {
    assert_eq!(probe(Some(("héllo".as_bytes(), b""))), "héllo");
    assert_eq!(probe(Some((&[0x61, 0xff, 0x62], b"!"))), "a\u{fffd}b!");
}

#[test]
fn trimming_twice_is_trimming_once() {
    let once = trim(" \t a b \n");
    assert_eq!(trim(&once), once);
}
