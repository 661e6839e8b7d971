use solanum::figlet::{Font, FontError};
use solanum::path::{env_vars, expand_home, substitute_vars};
use solanum::text::{chars_of, parse_usize_chars, replace_chars, split_whitespace, string_of};

/// A font file of height 2 whose character number `k` has rows `g<k>$` and `<k>`.
fn font_lines(chars: usize, header: &str) -> Vec<String> {
    let mut lines = vec![header.to_string(), "a comment".to_string()];
    for k in 0..chars {
        lines.push(format!("g{}$@", k));
        lines.push(format!("{}@@", k));
    }
    lines
}

#[test]
fn flf_parse_and_convert() {
    let lines = font_lines(95, "flf2a$ 2 1 10 0 1");
    let font = Font::parse_flf("test.flf", &lines).unwrap();
    assert_eq!(font.convert("1:"), "g17 g26 \n1726");
    assert_eq!(font.convert("!0"), "g1 g16 \n116");
    assert_eq!(font.convert("9"), "g25 \n25");
}

#[test]
fn flf_parse_skips_unmarked_lines_and_reads_extra_chars() {
    let mut lines = font_lines(95, "flf2a$ 2 1 10 0 1");
    lines.push("196  LATIN CAPITAL LETTER A WITH DIAERESIS".to_string());
    lines.push("x@".to_string());
    lines.push("y@@".to_string());
    let font = Font::parse_flf("test.flf", &lines).unwrap();
    assert_eq!(font.convert("2"), "g18 \n18");
}

#[test]
fn flf_parse_errors() {
    let invalid = Err(FontError::InvalidFile("bad.flf".to_string()));
    let no_lines: Vec<String> = vec![];
    assert_eq!(Font::parse_flf("bad.flf", &no_lines).map(|_| ()), invalid);
    let wrong_signature = font_lines(95, "flf2b$ 2 1 10 0 1");
    assert_eq!(Font::parse_flf("bad.flf", &wrong_signature).map(|_| ()), invalid);
    let short_header = font_lines(95, "flf2a$ 2 1 10 0");
    assert_eq!(Font::parse_flf("bad.flf", &short_header).map(|_| ()), invalid);
    let bad_height = font_lines(95, "flf2a$ x 1 10 0 1");
    assert_eq!(Font::parse_flf("bad.flf", &bad_height).map(|_| ()), invalid);
    let zero_height = font_lines(95, "flf2a$ 0 1 10 0 1");
    assert_eq!(Font::parse_flf("bad.flf", &zero_height).map(|_| ()), invalid);
    let too_few = font_lines(94, "flf2a$ 2 1 10 0 1");
    assert_eq!(Font::parse_flf("bad.flf", &too_few).map(|_| ()), invalid);
    let mut trailing = font_lines(95, "flf2a$ 2 1 10 0 1");
    trailing.push("no mark".to_string());
    assert_eq!(Font::parse_flf("bad.flf", &trailing).map(|_| ()), invalid);
    let many_comments = font_lines(95, "flf2a$ 2 1 10 0 500");
    assert_eq!(Font::parse_flf("bad.flf", &many_comments).map(|_| ()), invalid);
}

#[test]
fn text_words_numbers_replace() {
    let words: Vec<String> = split_whitespace(&chars_of("  $ 6\t5 20\u{3000}x  "))
        .iter()
        .map(string_of)
        .collect();
    assert_eq!(words, vec!["$", "6", "5", "20", "x"]);
    assert_eq!(parse_usize_chars(&chars_of("42")), Some(42));
    assert_eq!(parse_usize_chars(&chars_of("+7")), Some(7));
    assert_eq!(parse_usize_chars(&chars_of("+")), None);
    assert_eq!(parse_usize_chars(&chars_of("")), None);
    assert_eq!(parse_usize_chars(&chars_of("-1")), None);
    assert_eq!(parse_usize_chars(&chars_of("1a")), None);
    assert_eq!(parse_usize_chars(&chars_of(&usize::MAX.to_string())), Some(usize::MAX));
    assert_eq!(parse_usize_chars(&chars_of("99999999999999999999999")), None);
    let r = replace_chars(&chars_of("aaa-aa"), &chars_of("aa"), &chars_of("b"));
    assert_eq!(string_of(&r), "ba-b");
    let r = replace_chars(&chars_of("x$y$"), &chars_of("$"), &chars_of(""));
    assert_eq!(string_of(&r), "xy");
}

#[test]
fn path_expansion() {
    assert_eq!(expand_home("~/fonts/big.flf", "/home/me"), "/home/me/fonts/big.flf");
    assert_eq!(expand_home("/etc/x", "/home/me"), "/etc/x");
    let vars = env_vars("$XDG_DATA_HOME/fonts/$NAME/x.flf").unwrap();
    assert_eq!(vars, vec!["$XDG_DATA_HOME".to_string(), "$NAME".to_string()]);
    assert_eq!(env_vars("/a/$END"), None);
    assert_eq!(env_vars("/plain/path"), Some(vec![]));
    let values = vec!["/data".to_string(), "mono".to_string()];
    assert_eq!(
        substitute_vars("$XDG_DATA_HOME/fonts/$NAME/x.flf", &vars, &values),
        "/data/fonts/mono/x.flf"
    );
}
