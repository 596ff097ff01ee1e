use vm_translator::words::{chars_of, is_whitespace_char, split_words};

#[test]
fn words_are_the_runs_between_white_space() {
    assert_eq!(split_words("push local 2"), vec!["push", "local", "2"]);
    assert_eq!(split_words("  push \t local\t\t2  "), vec!["push", "local", "2"]);
    assert_eq!(split_words("one"), vec!["one"]);
    assert_eq!(split_words("a b"), vec!["a", "b"]);
    assert_eq!(split_words("add//x y"), vec!["add//x", "y"]);
}

#[test]
fn line_of_white_space_has_no_words() {
    assert_eq!(split_words(""), Vec::<String>::new());
    assert_eq!(split_words(" "), Vec::<String>::new());
    assert_eq!(split_words(" \t\r\n "), Vec::<String>::new());
}

#[test]
fn words_may_hold_any_other_character() {
    assert_eq!(split_words("caf\u{e9} \u{65e5}\u{672c} x"), vec!["caf\u{e9}", "\u{65e5}\u{672c}", "x"]);
    assert_eq!(split_words("a\u{3000}b\u{a0}c"), vec!["a", "b", "c"]);
    // a zero-width space is no white space
    assert_eq!(split_words("a\u{200b}b"), vec!["a\u{200b}b"]);
}

#[test]
fn splitting_agrees_with_the_standard_splitter() {
    for line in [
        "",
        " ",
        "push constant 7",
        "  a  b  ",
        "\ta\u{b}b\u{c}c\r\n",
        "x\u{85}y\u{1680}z",
        "\u{2000}a\u{200a}b\u{2028}c\u{2029}d\u{202f}e\u{205f}f\u{3000}",
        "a\u{180e}b\u{200b}c\u{feff}d",
    ] {
        let expected: Vec<String> = line.split_whitespace().map(String::from).collect();
        assert_eq!(split_words(line), expected, "{:?}", line);
    }
}

#[test]
fn white_space_is_what_the_standard_library_calls_so() {
    for code in 0..0x11000u32 {
        if let Some(c) = char::from_u32(code) {
            assert_eq!(is_whitespace_char(c), c.is_whitespace(), "{:x}", code);
        }
    }
}

#[test]
fn chars_of_gives_every_character() {
    assert_eq!(chars_of(""), Vec::<char>::new());
    assert_eq!(chars_of("a\u{e9}\u{65e5}"), vec!['a', '\u{e9}', '\u{65e5}']);
}
