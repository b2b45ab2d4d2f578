use cardamom::card::same_text;
use cardamom::text::{chars_of, concatenate, ends_with, to_decimal, trim_trailing_newlines};

#[test]
fn ends_with_agrees_with_the_standard_library() {
    let texts = ["", "a", "OK", "200 OK", "HTTP/1.1 200 OK", "HTTP/1.1 200 OK ", "200 ok", "00 OK"];
    for text in texts {
        for suffix in texts {
            assert_eq!(text.ends_with(suffix), ends_with(text, suffix), "{:?} {:?}", text, suffix);
        }
    }
}

#[test]
fn ends_with_counts_characters() {
    assert!(ends_with("caf\u{e9} 200 OK", "200 OK"));
    assert!(ends_with("200 OK caf\u{e9}", "caf\u{e9}"));
    assert!(!ends_with("\u{e9}", "caf\u{e9}"));
}

#[test]
fn trailing_newlines_are_cut() {
    assert_eq!("secret", trim_trailing_newlines("secret\n"));
    assert_eq!("secret", trim_trailing_newlines("secret\r\n"));
    assert_eq!("secret", trim_trailing_newlines("secret\n\r\n\r"));
    assert_eq!("secret", trim_trailing_newlines("secret"));
    assert_eq!("sec\nret", trim_trailing_newlines("sec\nret\n"));
    assert_eq!("\nsecret ", trim_trailing_newlines("\nsecret \n"));
    assert_eq!("secret\t", trim_trailing_newlines("secret\t"));
    assert_eq!("", trim_trailing_newlines("\r\n"));
    assert_eq!("", trim_trailing_newlines(""));
    for text in ["a\n", "\n\na", "p\u{e4}ss\r\n\r\n", " x \r"] {
        assert_eq!(
            text.trim_end_matches(|c| c == '\r' || c == '\n'),
            trim_trailing_newlines(text)
        );
    }
}

#[test]
fn numbers_in_decimal() {
    assert_eq!("0", to_decimal(0));
    assert_eq!("7", to_decimal(7));
    assert_eq!("10", to_decimal(10));
    assert_eq!("443", to_decimal(443));
    assert_eq!("8843", to_decimal(8843));
    assert_eq!("65535", to_decimal(65535));
    for number in [1u16, 9, 11, 99, 100, 101, 1000, 5232, 60000] {
        assert_eq!(number.to_string(), to_decimal(number));
    }
}

#[test]
fn characters_and_concatenation() {
    assert_eq!(vec!['a', '\u{e9}', 'b'], chars_of("a\u{e9}b"));
    assert_eq!(Vec::<char>::new(), chars_of(""));
    assert_eq!("https://host", concatenate("https://", "host"));
    assert_eq!("a", concatenate("", "a"));
    assert!(same_text("abc", "abc"));
    assert!(!same_text("abc", "abd"));
    assert!(!same_text("abc", "ab"));
}
