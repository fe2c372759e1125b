use c0pl4nd::text::{
    contains, decimal_of, is_control, is_whitespace, replace_char, same_text, trim,
};

#[test]
fn control_and_white_space_are_those_of_the_standard_library() {
    for n in 0..=0x10ffffu32 {
        if let Some(c) = char::from_u32(n) {
            assert_eq!(is_control(c), c.is_control(), "U+{n:04X}");
            assert_eq!(is_whitespace(c), c.is_whitespace(), "U+{n:04X}");
        }
    }
}

#[test]
fn texts_are_trimmed_searched_and_replaced() {
    assert_eq!(trim("\u{3000} a b \t\n"), "a b");
    assert_eq!(trim("   "), "");
    assert!(contains("Windows PowerShell", "PowerShell"));
    assert!(contains("anything", ""));
    assert!(!contains("pwsh", "PowerShell"));
    assert!(!contains("ab", "abc"));
    assert!(same_text("é", "é") && !same_text("é", "e") && !same_text("a", "ab"));
    assert_eq!(replace_char("a'b'", '\'', "'\\''"), "a'\\''b'\\''");
}

#[test]
fn numbers_are_written_in_decimal() {
    for n in [0u64, 7, 10, 99, 100, 1_234_567_890, u64::MAX] {
        assert_eq!(decimal_of(n), n.to_string());
    }
}
