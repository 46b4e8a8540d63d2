use nano::chars::{
    advance_over, breadth, char_length, collect_char, control_mbrep, control_rep, is_alnum_char,
    is_alpha_char, is_blank_char, is_cntrl_char, is_doublewidth, is_punct_char, is_word_char,
    is_zerowidth, mbstrcasecmp, mbstrlen, mbstrncasecmp, mbtowide, step_left, step_right,
    strip_leading_blanks_from,
};
use nano::strfind::{
    has_blank_char, mbrevstrcasestr, mbstrcasestr, mbstrchr, mbstrpbrk, mbrevstrpbrk,
    revstrcasestr, revstrstr, white_string,
};

#[test]
fn characters_are_measured_in_bytes_and_columns() {
    assert_eq!(char_length("é!", true), 2);
    assert_eq!(char_length("é!", false), 1);
    assert_eq!(mbstrlen("héllo", true), 5);
    assert_eq!(mbstrlen("héllo", false), 6);
    assert_eq!(collect_char("日本", true), (3, "日".to_string()));
    let mut col = 3;
    assert_eq!(advance_over("\tx", &mut col, true, 8), 1);
    assert_eq!(col, 8);
    let mut col = 0;
    assert_eq!(advance_over("日", &mut col, true, 8), 3);
    assert_eq!(col, 2);
    assert_eq!(breadth("a\tb", true, 8), 9);
    assert_eq!(breadth("日本", true, 8), 4);
    assert_eq!(breadth("\x01", true, 8), 2);
}

#[test]
fn stepping_moves_over_whole_characters() {
    assert_eq!(step_right("aé", 1, true), 3);
    assert_eq!(step_left("aé", 3, true), 1);
    assert_eq!(step_left("aé", 0, true), 0);
    assert_eq!(mbtowide("é", true), Ok(('é', 2)));
    assert_eq!(mbtowide("\u{80}", false), Ok(('\u{c2}', 1)));
}

#[test]
fn control_characters_have_a_caret_form() {
    assert_eq!(control_rep(1), 'A');
    assert_eq!(control_rep(0x7F), '?');
    assert_eq!(control_mbrep("\n", true, false, true), '@');
    assert_eq!(control_mbrep("\n", true, true, true), '@');
    assert!(is_cntrl_char("\x07", true));
    assert!(!is_cntrl_char("a", true));
}

#[test]
fn characters_are_classified() {
    assert!(is_alpha_char("ä"));
    assert!(!is_alpha_char("1"));
    assert!(is_alnum_char("1"));
    assert!(is_blank_char(" "));
    assert!(is_blank_char("\t"));
    assert!(!is_blank_char("x"));
    assert!(is_punct_char("!"));
    assert!(is_word_char("a", false, None, true));
    assert!(!is_word_char("-", false, None, true));
    assert!(is_word_char("-", false, Some("-_"), true));
    assert!(is_word_char("!", true, None, true));
    assert!(is_doublewidth("日", true));
    assert!(!is_doublewidth("a", true));
    assert!(is_zerowidth("\u{301}", true));
}

#[test]
fn comparisons_ignore_case() {
    assert_eq!(mbstrcasecmp("Hello", "hello", true), 0);
    assert!(mbstrcasecmp("apple", "Banana", true) < 0);
    assert!(mbstrcasecmp("b", "A", true) > 0);
    assert_eq!(mbstrncasecmp("abcX", "ABCy", 3, true), 0);
}

#[test]
fn searches_find_the_first_or_last_occurrence() {
    assert_eq!(mbstrcasestr("Hello World", "WORLD", true), Some(6));
    assert_eq!(mbstrcasestr("Hello", "xyz", true), None);
    assert_eq!(revstrstr("abcabc", "abc", 5), Some(3));
    assert_eq!(revstrstr("abcabc", "abc", 2), Some(0));
    assert_eq!(revstrcasestr("ABCabc", "abc", 5), Some(3));
    assert_eq!(mbrevstrcasestr("ÄbÄb", "äB", 5, true), Some(3));
    assert_eq!(mbstrchr("aéb", "b", true), Some(3));
    assert_eq!(mbstrpbrk("hello, world", ",!", true), Some(5));
    assert_eq!(mbrevstrpbrk("a,b,c", ",", 4, true), Some(3));
    assert!(has_blank_char("a b", true));
    assert!(!has_blank_char("ab", true));
    assert!(white_string(" \t ", true));
    assert!(!white_string(" x", true));
}

#[test]
fn leading_blanks_are_stripped() {
    let mut s = String::from(" \t text ");
    strip_leading_blanks_from(&mut s);
    assert_eq!(s, "text ");
}

#[test]
fn stepping_left_lands_one_character_back() {
    let s = "a€😀b";
    let mut pos = s.len();
    let mut starts = Vec::new();
    while pos > 0 {
        let p = step_left(s, pos, true);
        assert!(s.is_char_boundary(p));
        assert_eq!(s[p..pos].chars().count(), 1);
        assert_eq!(step_right(s, p, true), pos);
        starts.push(p);
        pos = p;
    }
    assert_eq!(starts, [8, 4, 1, 0]);
}

#[test]
fn case_blind_comparison_is_antisymmetric() {
    let words = ["Alpha", "alpha", "Beta", "éclair", "Éclair", "z", "", "ab"];
    for a in words {
        assert_eq!(mbstrcasecmp(a, a, true), 0);
        for b in words {
            assert_eq!(mbstrcasecmp(a, b, true).signum(), -mbstrcasecmp(b, a, true).signum());
            assert_eq!(mbstrcasecmp(a, b, false), -mbstrcasecmp(b, a, false));
        }
    }
}

#[test]
fn case_blind_comparison_goes_by_lowercased_characters() {
    assert_eq!(mbstrcasecmp("ÉCLAIR", "éclair", true), 0);
    assert_eq!(mbstrcasecmp("\u{212A}elvin", "kelvin", true), 0);
    assert!(mbstrcasecmp("abc", "abd", true) < 0);
    assert!(mbstrcasecmp("ab", "ABC", true) < 0);
    assert!(mbstrcasecmp("Zeta", "alpha", true) > 0);
    assert_ne!(mbstrcasecmp("Straße", "STRASSE", true), 0);
    assert_eq!(mbstrcasecmp("same\0one", "SAME\0two", true), 0);
}
