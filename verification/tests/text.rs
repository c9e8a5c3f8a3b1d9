use next_book::query::{
    contains_mark, fold_query, plus_for_spaces, without_apostrophes, without_marks,
};
use next_book::text::{chars_of, string_of};

fn chars(s: &str) -> Vec<char> {
    s.chars().collect()
}

#[test]
fn chars_of_gives_the_characters_in_order() {
    assert_eq!(chars_of("a b\u{20ac}"), vec!['a', ' ', 'b', '\u{20ac}']);
    assert!(chars_of("").is_empty());
}

#[test]
fn string_of_joins_the_characters() {
    assert_eq!(string_of(&vec!['h', 'i', '\u{2122}']), "hi\u{2122}");
    assert_eq!(string_of(&vec![]), "");
}

#[test]
fn string_of_undoes_chars_of() {
    for s in ["", "The Hobbit", "\u{e2}\u{20ac}\u{2122}", "a'b c"] {
        assert_eq!(string_of(&chars_of(s)), s);
    }
}

#[test]
fn plus_for_spaces_replaces_each_space() {
    assert_eq!(plus_for_spaces(&chars(" a  b ")), chars("+a++b+"));
    assert_eq!(plus_for_spaces(&chars("a\tb")), chars("a\tb"));
}

#[test]
fn without_apostrophes_drops_only_apostrophes() {
    assert_eq!(without_apostrophes(&chars("'a''b'")), chars("ab"));
    assert_eq!(without_apostrophes(&chars("a\u{2019}b\"c")), chars("a\u{2019}b\"c"));
}

#[test]
fn without_marks_drops_whole_occurrences_only() {
    assert_eq!(without_marks(&chars("a\u{e2}\u{20ac}\u{2122}b")), chars("ab"));
    assert_eq!(without_marks(&chars("\u{e2}\u{20ac}")), chars("\u{e2}\u{20ac}"));
    assert_eq!(without_marks(&chars("\u{20ac}\u{2122}")), chars("\u{20ac}\u{2122}"));
    assert_eq!(
        without_marks(&chars("\u{e2}\u{20ac}\u{2122}\u{e2}\u{20ac}\u{2122}")),
        chars("")
    );
    assert_eq!(without_marks(&chars("\u{e2}\u{e2}\u{20ac}\u{2122}")), chars("\u{e2}"));
}

#[test]
fn without_marks_scans_from_the_left_once() {
    assert_eq!(
        without_marks(&chars("\u{e2}\u{e2}\u{20ac}\u{2122}\u{20ac}\u{2122}")),
        chars("\u{e2}\u{20ac}\u{2122}")
    );
}

#[test]
fn fold_query_applies_the_three_rules_in_order() {
    assert_eq!(fold_query(&chars("o'brien's  tale")), chars("obriens++tale"));
    assert_eq!(fold_query(&chars("\u{e2}\u{20ac}'\u{2122}x")), chars("x"));
    assert_eq!(fold_query(&chars("Keeps Case")), chars("Keeps+Case"));
}

#[test]
fn contains_mark_finds_the_residue_anywhere() {
    assert!(contains_mark(&chars("\u{e2}\u{20ac}\u{2122}")));
    assert!(contains_mark(&chars("ab\u{e2}\u{20ac}\u{2122}")));
    assert!(contains_mark(&chars("\u{e2}\u{e2}\u{20ac}\u{2122}c")));
}

#[test]
fn contains_mark_wants_the_whole_residue() {
    assert!(!contains_mark(&chars("")));
    assert!(!contains_mark(&chars("\u{e2}\u{20ac}")));
    assert!(!contains_mark(&chars("\u{e2}\u{20ac}x\u{2122}")));
    assert!(!contains_mark(&chars("\u{20ac}\u{2122}\u{e2}")));
}
