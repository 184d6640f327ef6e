use svn2git::ops::conflict::{conflict_code, status_has_conflict};
use svn2git::text::{
    chars_of, decimal_string, decimal_successor, is_whitespace, text_eq, trim,
};
use svn2git::SyncError;

#[test]
fn decimal_rendering() {
    assert_eq!(decimal_string(0), "0");
    assert_eq!(decimal_string(7), "7");
    assert_eq!(decimal_string(10), "10");
    assert_eq!(decimal_string(1234567890), "1234567890");
    assert_eq!(decimal_string(usize::MAX), usize::MAX.to_string());
}

#[test]
fn decimal_successor_rendering() {
    assert_eq!(decimal_successor(0), "1");
    assert_eq!(decimal_successor(8), "9");
    assert_eq!(decimal_successor(9), "10");
    assert_eq!(decimal_successor(19), "20");
    assert_eq!(decimal_successor(199), "200");
    assert_eq!(decimal_successor(1234), "1235");
    let mut expected = (usize::MAX / 10).to_string();
    expected.push_str(&((usize::MAX % 10) + 1).to_string());
    assert_eq!(decimal_successor(usize::MAX), expected);
}

#[test]
fn trimming() {
    assert_eq!(trim("  a b  "), "a b");
    assert_eq!(trim("\n\t x\r\n"), "x");
    assert_eq!(trim(""), "");
    assert_eq!(trim(" \t\n"), "");
    assert_eq!(trim("x"), "x");
    assert_eq!(trim("\u{3000}中文\u{a0}"), "中文");
    assert_eq!(trim("a\u{200b}"), "a\u{200b}");
}

#[test]
fn text_comparison_and_characters() {
    assert!(text_eq("abc", "abc"));
    assert!(!text_eq("abc", "abd"));
    assert!(!text_eq("abc", "ab"));
    assert!(text_eq("", ""));
    assert_eq!(chars_of("a中b"), vec!['a', '中', 'b']);
}

#[test]
fn conflict_codes() {
    for code in ["DD", "AU", "UD", "UA", "DU", "AA", "UU"] {
        let mut chars = code.chars();
        assert!(conflict_code(chars.next().unwrap(), chars.next().unwrap()), "{code}");
    }
    for code in ["??", "A ", " M", "MM", "AD", "DA", "UM", "R ", "uu", "!!"] {
        let mut chars = code.chars();
        assert!(!conflict_code(chars.next().unwrap(), chars.next().unwrap()), "{code}");
    }
}

#[test]
fn conflicts_are_found_at_the_start_of_any_line() {
    assert!(status_has_conflict("UU conflict.txt"));
    assert!(status_has_conflict("?? a\nAA b\n"));
    assert!(status_has_conflict("?? a\n M b\nDU c"));
    assert!(status_has_conflict("UU"));
    assert!(status_has_conflict("\nUD x"));
    assert!(!status_has_conflict(""));
    assert!(!status_has_conflict("U"));
    assert!(!status_has_conflict("?? UU.txt\n"));
    assert!(!status_has_conflict(" UU x\n"));
    assert!(!status_has_conflict("?? a\n M b\nA  c\n"));
    assert!(!status_has_conflict("M  AA\n"));
}

#[test]
fn error_messages() {
    assert_eq!(SyncError::Io(String::from("x")).message(), "IO error: x");
    assert_eq!(
        SyncError::StrUtf8(String::from("x")).message(),
        "Invalid Utf8 in string slice: x"
    );
    assert_eq!(SyncError::App(String::from("x")).message(), "Application error: x");
    assert_eq!(SyncError::Json(String::from("x")).message(), "Json error: x");
    assert_eq!(SyncError::Inquire(String::from("x")).message(), "Inquire error: x");
    assert_eq!(SyncError::Roxmltree(String::from("x")).message(), "Roxmltree error: x");
    assert_eq!(SyncError::UnexpectedEvent.message(), "Unexpected event");
    assert_eq!(
        SyncError::Conflict {
            step: 3,
            revision: String::from("17"),
            status: String::from("UU a.txt"),
        }
        .message(),
        "Conflict at step 3 (revision 17): UU a.txt"
    );
    let wrapped = SyncError::at_step(12, &String::from("r9"), SyncError::Io(String::from("gone")));
    assert_eq!(
        wrapped,
        SyncError::Step {
            step: 12,
            revision: String::from("r9"),
            cause: Box::new(SyncError::Io(String::from("gone"))),
        }
    );
    assert_eq!(wrapped.message(), "Step 12 (revision r9) failed: IO error: gone");
    assert!(!wrapped.is_conflict());
}

#[test]
fn whitespace_is_what_the_standard_library_takes_it_to_be() {
    for code in 0..=0x10FFFFu32 {
        if let Some(c) = char::from_u32(code) {
            assert_eq!(is_whitespace(c), c.is_whitespace(), "U+{code:04X}");
        }
    }
    assert!(is_whitespace(' ') && is_whitespace('\n') && is_whitespace('\u{3000}'));
    assert!(!is_whitespace('a') && !is_whitespace('\u{200B}') && !is_whitespace('\u{180E}'));
}

#[test]
fn trimming_is_what_the_standard_library_does() {
    for text in ["", " ", " a ", "\u{2003}x y\u{205F}\r\n", "\u{200B} z", "中 文\u{85}"] {
        assert_eq!(trim(text), text.trim());
    }
}
