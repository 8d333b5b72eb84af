use social_economy::engagement::engagement_raw;
use social_economy::quality::{diversity_bonus, has_newline, quality_core};
use social_economy::words::{count_distinct, is_space, split_whitespace_words};
use social_economy::{clamp_score, MAX_SCORE};

fn distinct_words_line(len: usize) -> String {
    let mut s = String::new();
    let mut i = 0;
    while s.chars().count() + 6 <= len {
        if !s.is_empty() {
            s.push(' ');
        }
        s.push_str(&format!("w{:04}", i));
        i += 1;
    }
    while s.chars().count() < len {
        s.push('z');
    }
    s
}

fn chars_of(words: &[&str]) -> Vec<Vec<char>> {
    words.iter().map(|w| w.chars().collect()).collect()
}

#[test]
fn clamp_below_above_and_inside() {
    assert_eq!(clamp_score(-5), 0);
    assert_eq!(clamp_score(150), 100);
    assert_eq!(clamp_score(50), 50);
    assert_eq!(clamp_score(0), 0);
    assert_eq!(clamp_score(MAX_SCORE), MAX_SCORE);
    assert_eq!(clamp_score(i64::MIN), 0);
    assert_eq!(clamp_score(i64::MAX), 100);
}

#[test]
fn clamp_is_idempotent() {
    for x in [i64::MIN, -5, -1, 0, 1, 50, 99, 100, 101, 150, i64::MAX] {
        assert_eq!(clamp_score(clamp_score(x)), clamp_score(x));
    }
}

#[test]
fn engagement_zero_and_negative() {
    assert_eq!(engagement_raw(0, 0), None);
    assert_eq!(engagement_raw(-3, 1), None);
    assert_eq!(engagement_raw(2, -1), None);
    assert_eq!(engagement_raw(-10, -10), None);
    assert_eq!(engagement_raw(i64::MIN, i64::MIN), None);
}

#[test]
fn engagement_weights_comments_twice() {
    assert_eq!(engagement_raw(1, 0), Some(1));
    assert_eq!(engagement_raw(0, 1), Some(2));
    assert_eq!(engagement_raw(10, 5), Some(20));
    assert_eq!(engagement_raw(-1, 1), Some(1));
    assert_eq!(engagement_raw(147, 0), Some(147));
}

#[test]
fn engagement_counts_exactly_at_the_extremes() {
    let max = i64::MAX as u128;
    assert_eq!(engagement_raw(i64::MAX, i64::MAX), Some(3 * max));
    // Exact arithmetic: a sum that floating point would round to zero.
    assert_eq!(engagement_raw((1i64 << 62) + 1, -(1i64 << 61)), Some(1));
}

#[test]
fn engagement_is_monotone() {
    let counts = [-5i64, -1, 0, 1, 2, 7, 100];
    let level = |l: i64, c: i64| engagement_raw(l, c).unwrap_or(0);
    for &l in &counts {
        for &c in &counts {
            assert!(level(l + 1, c) >= level(l, c));
            assert!(level(l, c + 1) >= level(l, c));
        }
    }
}

#[test]
fn quality_of_empty_text() {
    assert_eq!(quality_core(""), 20);
}

#[test]
fn quality_of_distinct_single_line() {
    let s = distinct_words_line(100);
    assert_eq!(s.chars().count(), 100);
    assert!(!s.contains('\n'));
    assert_eq!(quality_core(&s), 90);
}

#[test]
fn quality_of_long_repetitive_text() {
    let mut s = String::from("spam");
    while s.len() + 5 <= 3000 {
        s.push_str(" spam");
    }
    while s.len() < 3000 {
        s.push(' ');
    }
    assert_eq!(s.chars().count(), 3000);
    assert_eq!(quality_core(&s), 40);
}

#[test]
fn quality_of_long_text_is_at_most_eighty() {
    let mut s = distinct_words_line(3000);
    s.push('\n');
    assert_eq!(quality_core(&s), 80);
}

#[test]
fn quality_length_boundaries() {
    let one_word = |n: usize| "a".repeat(n);
    assert_eq!(quality_core(&one_word(49)), 50);
    assert_eq!(quality_core(&one_word(50)), 90);
    assert_eq!(quality_core(&one_word(2000)), 90);
    assert_eq!(quality_core(&one_word(2001)), 70);
}

#[test]
fn quality_counts_characters_not_bytes() {
    let s = "é".repeat(49);
    assert_eq!(s.len(), 98);
    assert_eq!(quality_core(&s), 50);
}

#[test]
fn quality_newline_bonus() {
    assert_eq!(quality_core("\n"), 30);
    assert_eq!(quality_core("one\ntwo"), 60);
    assert_eq!(quality_core("one two"), 50);
}

#[test]
fn quality_whitespace_only() {
    assert_eq!(quality_core("   \t  "), 20);
}

#[test]
fn quality_diversity_thresholds() {
    // 3 distinct of 5: exactly three fifths, not above it.
    assert_eq!(quality_core("a b c a b"), 35);
    // 2 distinct of 5: exactly two fifths, not above it.
    assert_eq!(quality_core("a b a b a"), 20);
    // 2 distinct of 4: between the thresholds.
    assert_eq!(quality_core("a b a b"), 35);
    // two copies of one word
    assert_eq!(quality_core("x x"), 35);
    // three copies of one word
    assert_eq!(quality_core("x x x"), 20);
}

#[test]
fn quality_is_case_and_punctuation_sensitive() {
    assert_eq!(quality_core("Word word word."), 50);
    assert_eq!(quality_core("word word word"), 20);
}

#[test]
fn quality_is_deterministic() {
    let s = distinct_words_line(321);
    let first = quality_core(&s);
    for _ in 0..5 {
        assert_eq!(quality_core(&s), first);
    }
    assert_eq!(engagement_raw(12, 3), engagement_raw(12, 3));
}

#[test]
fn diversity_bonus_values() {
    assert_eq!(diversity_bonus(0, 0), 0);
    assert_eq!(diversity_bonus(1, 1), 30);
    assert_eq!(diversity_bonus(4, 5), 30);
    assert_eq!(diversity_bonus(3, 5), 15);
    assert_eq!(diversity_bonus(2, 5), 0);
    assert_eq!(diversity_bonus(1, 2), 15);
    assert_eq!(diversity_bonus(usize::MAX, usize::MAX), 30);
}

#[test]
fn newline_detection() {
    assert!(!has_newline(""));
    assert!(has_newline("a\nb"));
    assert!(has_newline("abc\n"));
    assert!(!has_newline("a\rb"));
}

#[test]
fn splitting_matches_std() {
    let samples = [
        "",
        "   ",
        "one",
        "  one  two\tthree\n\nfour ",
        "a\u{85}b\u{a0}c\u{1680}d\u{2000}e\u{200a}f\u{2028}g\u{2029}h\u{202f}i\u{205f}j\u{3000}k",
        "x\u{200b}y\u{180e}z",
        "\u{b}\u{c}\r mixed é ünïcode\u{3000}",
    ];
    for s in samples {
        let expected: Vec<Vec<char>> = s.split_whitespace().map(|w| w.chars().collect()).collect();
        assert_eq!(split_whitespace_words(s), expected);
    }
}

#[test]
fn distinct_words_are_counted_exactly() {
    assert_eq!(count_distinct(&chars_of(&[])), 0);
    assert_eq!(count_distinct(&chars_of(&["a", "b", "a", "c", "b"])), 3);
    assert_eq!(count_distinct(&chars_of(&["ab", "a", "b", "ba"])), 4);
    assert_eq!(count_distinct(&chars_of(&["x", "x", "x"])), 1);
}

#[test]
fn whitespace_agrees_with_std_on_every_char() {
    for u in 0..=0x10ffffu32 {
        if let Some(c) = char::from_u32(u) {
            assert_eq!(is_space(c), c.is_whitespace(), "U+{:04X}", u);
        }
    }
}
