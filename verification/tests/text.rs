use photo_scraper::text::{
    chars_of, contains, decimal_text, ends_with, parse_unsigned, replace_char, same_text,
    slice_text, starts_with, trim_bounds, white_space,
};

#[test]
fn characters_are_split_and_joined() {
    let chars = chars_of("Ardie Savéa");
    assert_eq!(chars.len(), 11);
    assert_eq!(chars[9], 'é');
    assert_eq!(slice_text(&chars, 6, 11), "Savéa");
    assert_eq!(slice_text(&chars, 3, 3), "");
}

#[test]
fn texts_are_compared() {
    assert!(same_text("found", "found"));
    assert!(!same_text("found", "Found"));
    assert!(!same_text("found", "found_via_google"));
    assert!(starts_with("download_failed: x", "download_failed"));
    assert!(!starts_with("download", "download_failed"));
    assert!(starts_with("x", ""));
    assert!(ends_with("a.png", ".png"));
    assert!(!ends_with("png", ".png"));
    assert!(!ends_with("a.png?x", ".png"));
    assert!(contains("http://gstatic.com/a", "gstatic.com"));
    assert!(contains("aab", "ab"));
    assert!(!contains("abc", "ac"));
    assert!(!contains("a", "ab"));
    assert!(contains("", ""));
    assert!(contains("abc", ""));
}

#[test]
fn characters_are_replaced() {
    assert_eq!(replace_char("Jo \"Jack\" Ré", '"', '\''), "Jo 'Jack' Ré");
    assert_eq!(replace_char("", 'a', 'b'), "");
}

#[test]
fn white_space_agrees_with_the_standard_library() {
    for code in 0..0x11_0000u32 {
        if let Some(c) = char::from_u32(code) {
            assert_eq!(white_space(c), c.is_whitespace(), "{:?}", c);
        }
    }
}

#[test]
fn bounds_leave_out_white_space() {
    let chars = chars_of(" \t a b\u{a0}\r");
    assert_eq!(trim_bounds(&chars, 0, chars.len()), (3, 6));
    let blank = chars_of("  \n ");
    let bounds = trim_bounds(&blank, 0, 4);
    assert_eq!(bounds.0, bounds.1);
    assert_eq!(trim_bounds(&chars, 3, 5), (3, 4));
}

#[test]
fn numbers_are_read_like_the_standard_library_reads_them() {
    for text in [
        "0", "7", "+7", "007", "400", "", "+", "-1", "1 ", " 1", "1a", "++1", "4294967295",
        "4294967296", "99999999999999999999999999x", "18446744073709551615",
        "18446744073709551616", "٣",
    ] {
        assert_eq!(parse_unsigned(text, u32::MAX as u64), text.parse::<u32>().ok().map(u64::from));
        assert_eq!(parse_unsigned(text, u64::MAX), text.parse::<u64>().ok());
    }
}

#[test]
fn numbers_are_written_in_decimal() {
    for n in [0u32, 9, 10, 400, 1000, u32::MAX] {
        assert_eq!(decimal_text(n), n.to_string());
        assert_eq!(parse_unsigned(&decimal_text(n), u64::MAX), Some(n as u64));
    }
}
