use muri::text::{
    ascii_lower, characters, holds_folded, is_control, is_white, join_words, same_folded,
    same_text, setting_value, split_words, to_decimal, trim, Margin,
};

#[test]
fn trimming_takes_the_margin_alone() {
    assert_eq!(trim(" \t a b \n", Margin::White), "a b");
    assert_eq!(trim("'\"a'b\"'", Margin::Quote), "a'b");
    assert_eq!(trim("   ", Margin::White), "");
    assert_eq!(trim("\u{2003}é\u{a0}", Margin::White), "é");
}

#[test]
fn settings_are_unquoted_between_the_white_space() {
    assert_eq!(setting_value(" ' Cantarell 11 '\n"), "Cantarell 11");
    assert_eq!(setting_value("''"), "");
}

#[test]
fn words_are_split_and_joined() {
    let words = split_words("  Noto  Sans\u{2003}Mono ");
    assert_eq!(words, vec!["Noto", "Sans", "Mono"]);
    assert_eq!(join_words(&words, 3), "Noto Sans Mono");
    assert_eq!(join_words(&words, 1), "Noto");
    assert_eq!(join_words(&words, 0), "");
    assert!(split_words(" \n").is_empty());
}

#[test]
fn text_is_compared_with_and_without_case() {
    assert!(same_text("é", "é") && !same_text("a", "ab") && !same_text("a", "b"));
    assert!(same_folded("SemiBold", "semibold"));
    assert!(!same_folded("semibolder", "semibold"));
    assert!(holds_folded("ubuntu:GNOME", "gnome"));
    assert!(!holds_folded("gnom", "gnome"));
    assert!(holds_folded("x", ""));
}

#[test]
fn characters_and_numbers() {
    assert_eq!(characters("aé"), vec!['a', 'é']);
    assert_eq!(ascii_lower('Z'), 'z');
    assert_eq!(ascii_lower('É'), 'É');
    assert_eq!(to_decimal(0), "0");
    assert_eq!(to_decimal(1234567890), "1234567890");
}

#[test]
fn white_space_and_control_characters_are_those_of_unicode() {
    for c in (0..0x11_0000u32).filter_map(char::from_u32) {
        assert_eq!(is_white(c), c.is_whitespace(), "{c:?}");
        assert_eq!(is_control(c), c.is_control(), "{c:?}");
    }
}
