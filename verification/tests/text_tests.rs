use stock_trading::text::{
    first_word_of, split_first_piece, split_second_piece, trim_leading_dollars, trim_whitespace,
};

#[test]
fn trim_removes_surrounding_white_space() {
    assert_eq!(trim_whitespace("  187.45 "), "187.45");
    assert_eq!(trim_whitespace("\t190.12\n"), "190.12");
    assert_eq!(trim_whitespace("1 2"), "1 2");
}

#[test]
fn trim_handles_unicode_white_space() {
    assert_eq!(trim_whitespace("\u{A0}12.5\u{2003}"), "12.5");
    assert_eq!(trim_whitespace("\u{3000}"), "");
}

#[test]
fn trim_of_blank_text_is_empty() {
    assert_eq!(trim_whitespace(""), "");
    assert_eq!(trim_whitespace("   "), "");
}

#[test]
fn trim_agrees_with_std() {
    for s in ["", " a ", "a", " \n b c \t", "\u{85}x\u{85}", "é "] {
        assert_eq!(trim_whitespace(s), s.trim());
    }
}

#[test]
fn leading_dollars_are_removed() {
    assert_eq!(trim_leading_dollars("$189.84"), "189.84");
    assert_eq!(trim_leading_dollars("$$5"), "5");
    assert_eq!(trim_leading_dollars("12$"), "12$");
    assert_eq!(trim_leading_dollars(""), "");
    assert_eq!(trim_leading_dollars("$"), "");
}

#[test]
fn first_piece_matches_split_nth_zero() {
    assert_eq!(split_first_piece("187.45 - 190.12", '-'), "187.45 ");
    assert_eq!(split_first_piece("no dash", '-'), "no dash");
    assert_eq!(split_first_piece("-1", '-'), "");
    for s in ["a-b-c", "", "-", "abc", "x--y"] {
        assert_eq!(split_first_piece(s, '-'), s.split('-').nth(0).unwrap());
    }
}

#[test]
fn second_piece_matches_split_nth_one() {
    assert_eq!(split_second_piece("187.45 - 190.12", '-'), Some(" 190.12"));
    assert_eq!(split_second_piece("a-b-c", '-'), Some("b"));
    assert_eq!(split_second_piece("abc", '-'), None);
    assert_eq!(split_second_piece("a-", '-'), Some(""));
    for s in ["a-b-c", "", "-", "abc", "x--y", "10:00:00"] {
        assert_eq!(split_second_piece(s, '-'), s.split('-').nth(1));
        assert_eq!(split_second_piece(s, ':'), s.split(':').nth(1));
    }
}

#[test]
fn first_word_matches_split_whitespace() {
    assert_eq!(first_word_of("10:00 AM"), Some("10:00"));
    assert_eq!(first_word_of("   9:30\tAM"), Some("9:30"));
    assert_eq!(first_word_of(""), None);
    assert_eq!(first_word_of(" \n "), None);
    for s in ["a b", " x", "", "  ", "word"] {
        assert_eq!(first_word_of(s), s.split_whitespace().next());
    }
}
