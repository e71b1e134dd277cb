use gatekeeper::number::{decimal_string, parse_int};
use gatekeeper::text::{chars_of, chars_eq, is_whitespace, str_eq, string_from_chars, strip_backslashes};
use gatekeeper::tokens::{split_lines, split_tokens};

#[test]
fn whitespace_is_what_the_standard_library_says() {
    for code in 0..=0x10ffffu32 {
        if let Some(c) = char::from_u32(code) {
            assert_eq!(c.is_whitespace(), is_whitespace(c), "U+{:04X}", code);
        }
    }
}

#[test]
fn chars_round_trip() {
    let text = "a\u{e9}\u{1f385} \\+";
    let chars = chars_of(text);
    assert_eq!(text.chars().collect::<Vec<char>>(), chars);
    assert_eq!(text, string_from_chars(&chars, 0, chars.len()));
    assert_eq!("\u{e9}\u{1f385}", string_from_chars(&chars, 1, 3));
    assert_eq!("", string_from_chars(&chars, 2, 2));
}

#[test]
fn equality_is_by_characters() {
    assert!(str_eq("!g", "!g"));
    assert!(str_eq("", ""));
    assert!(!str_eq("!g", "!G"));
    assert!(!str_eq("!g", "!g "));
    assert!(!str_eq("a", ""));
    assert!(chars_eq(&vec!['a', 'b'], &vec!['a', 'b']));
    assert!(!chars_eq(&vec!['a', 'b'], &vec!['a', 'c']));
    assert!(!chars_eq(&vec!['a'], &vec!['a', 'c']));
}

#[test]
fn leading_backslashes_go() {
    assert_eq!("+1", strip_backslashes("\\+1"));
    assert_eq!("+1", strip_backslashes("\\\\\\+1"));
    assert_eq!("+\\1", strip_backslashes("+\\1"));
    assert_eq!("", strip_backslashes("\\\\"));
    assert_eq!("", strip_backslashes(""));
    for text in ["\\+1", "\\\\a\\", "abc", "\\", ""] {
        assert_eq!(text.trim_start_matches('\\'), strip_backslashes(text));
    }
}

#[test]
fn numbers_parse_as_in_the_standard_library() {
    let texts = [
        "0", "7", "+7", "-7", "-0", "+0", "007", "-007", "2147483647", "2147483648", "-2147483648",
        "-2147483649", "+2147483647", "99999999999999999999", "-99999999999999999999",
        "000000000000000000000000000001", "", "+", "-", "+-1", "--1", "1+", "1 ", " 1", "1_0",
        "0x10", "\u{663}", "1\u{663}", "-\u{0967}", "a", "1a", "12345", "-12345",
    ];
    for text in texts {
        assert_eq!(text.parse::<i32>().ok(), parse_int(text), "{:?}", text);
    }
    assert_eq!(Some(-1), parse_int("-1"));
    assert_eq!(Some(1), parse_int("+1"));
    assert_eq!(Some(2147483647), parse_int("2147483647"));
    assert_eq!(Some(-2147483648), parse_int("-2147483648"));
    assert_eq!(None, parse_int("2147483648"));
}

#[test]
fn numbers_are_written_in_base_ten() {
    assert_eq!("0", decimal_string(0));
    assert_eq!("7", decimal_string(7));
    assert_eq!("10", decimal_string(10));
    assert_eq!("1203", decimal_string(1203));
    assert_eq!("4294967295", decimal_string(u32::MAX));
    for n in [1u32, 9, 11, 99, 100, 101, 65535, 1000000, 4294967294] {
        assert_eq!(n.to_string(), decimal_string(n));
    }
}

#[test]
fn lines_are_split_at_newlines() {
    assert_eq!(vec![""], split_lines(""));
    assert_eq!(vec!["a"], split_lines("a"));
    assert_eq!(vec!["a", ""], split_lines("a\n"));
    assert_eq!(vec!["", "a", "", "b c"], split_lines("\na\n\nb c"));
    assert_eq!(vec!["a\r", "b"], split_lines("a\r\nb"));
}

#[test]
fn tokens_are_split_at_whitespace() {
    assert_eq!(Vec::<String>::new(), split_tokens(""));
    assert_eq!(Vec::<String>::new(), split_tokens(" \t\r "));
    assert_eq!(vec!["a"], split_tokens("a"));
    assert_eq!(vec!["!g", "+1", "rfc", "bob"], split_tokens("  !g +1\trfc \u{a0} bob\r"));
    for text in ["", " ", "a b", "  a  b  ", "\u{3000}x\u{2003}y", "!g \\+1 will\\_revote"] {
        let expected: Vec<&str> = text.split_whitespace().collect();
        assert_eq!(expected, split_tokens(text), "{:?}", text);
    }
}

#[test]
fn tokens_of_lines_are_what_the_standard_library_finds() {
    let text = "comment\r\n  !g a  b\r\n\r\n!g c\n";
    let ours: Vec<Vec<String>> = split_lines(text)
        .iter()
        .map(|line| split_tokens(line))
        .filter(|tokens| !tokens.is_empty())
        .collect();
    let theirs: Vec<Vec<String>> = text
        .lines()
        .map(|line| line.split_whitespace().map(|t| t.to_string()).collect::<Vec<String>>())
        .filter(|tokens| !tokens.is_empty())
        .collect();
    assert_eq!(theirs, ours);
}
