use ls_parser::trim::trim_line;

#[test]
fn whitespace_at_both_ends_is_removed() {
    assert_eq!(trim_line("  a b  "), "a b");
    assert_eq!(trim_line("\t\r\n a \u{3000}"), "a");
    assert_eq!(trim_line("a"), "a");
    assert_eq!(trim_line(" a"), "a");
    assert_eq!(trim_line("a "), "a");
}

#[test]
fn whitespace_inside_is_kept() {
    assert_eq!(trim_line(" a \t  b \n c "), "a \t  b \n c");
}

#[test]
fn a_text_of_whitespace_alone_becomes_empty() {
    assert_eq!(trim_line(""), "");
    assert_eq!(trim_line(" "), "");
    assert_eq!(trim_line(" \t\n\r\u{a0}\u{2028} "), "");
}

#[test]
fn trimming_agrees_with_the_standard_trim() {
    for text in [
        "",
        " ",
        "x",
        " x",
        "x ",
        " x ",
        "\u{85}x\u{85}",
        "\u{200b} x \u{200b}",
        "  drwxr-xr-x 1 owner group 3452 Jun 11 10:15 device \r\n",
        "é \u{2003}",
        "\u{1680}\u{2000}ß\u{205f}ß\u{202f}",
    ] {
        assert_eq!(trim_line(text), text.trim(), "{text:?}");
        assert_eq!(trim_line(trim_line(text)), trim_line(text));
    }
}
