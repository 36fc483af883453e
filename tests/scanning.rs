use dictionarium::results::{format_line, format_lines};
use dictionarium::scan::{match_line, scan};
use dictionarium::text::{find, rfind};

fn chars(s: &str) -> Vec<char> {
    s.chars().collect()
}

fn lines(ls: &[&str]) -> Vec<Vec<char>> {
    ls.iter().map(|l| chars(l)).collect()
}

fn parts(e: &dictionarium::results::MatchEntry) -> (String, String, String) {
    (
        e.prefix.iter().collect(),
        e.matched.iter().collect(),
        e.suffix.iter().collect(),
    )
}

#[test]
fn cat_scenario_gives_two_entries_in_order() {
    let dict = lines(&["a cat sat", "catalog", "dog"]);
    let token = chars("cat");
    let found = scan(&dict, &token);
    assert_eq!(found, lines(&["a cat sat", "catalog"]));
    let entries = format_lines(&found, &token);
    assert_eq!(entries.len(), 2);
    assert_eq!(parts(&entries[0]), ("a ".to_string(), "cat".to_string(), " sat".to_string()));
    assert_eq!(parts(&entries[1]), ("".to_string(), "cat".to_string(), "alog".to_string()));
}

#[test]
fn scan_is_case_insensitive_and_lowercases_lines() {
    let dict = lines(&["Big CAT", "dog"]);
    assert_eq!(scan(&dict, &chars("Cat")), lines(&["big cat"]));
}

#[test]
fn short_token_finds_nothing() {
    let dict = lines(&["a", "ab", "abc"]);
    assert_eq!(scan(&dict, &chars("a")), Vec::<Vec<char>>::new());
    assert_eq!(scan(&dict, &chars("")), Vec::<Vec<char>>::new());
    assert_eq!(scan(&dict, &chars("ab")), lines(&["ab", "abc"]));
}

#[test]
fn empty_dictionary_finds_nothing() {
    assert_eq!(scan(&Vec::new(), &chars("cat")), Vec::<Vec<char>>::new());
}

#[test]
fn at_most_twenty_results_in_dictionary_order() {
    let mut dict: Vec<Vec<char>> = Vec::new();
    for i in 0..50 {
        if i % 2 == 0 {
            dict.push(chars(&format!("word{}", i)));
        } else {
            dict.push(chars(&format!("other{}", i)));
        }
    }
    let found = scan(&dict, &chars("word"));
    assert_eq!(found.len(), 20);
    for (k, line) in found.iter().enumerate() {
        assert_eq!(line, &chars(&format!("word{}", 2 * k)));
    }
}

#[test]
fn match_line_returns_lowered_line_or_none() {
    assert_eq!(match_line(&chars("A Cat"), &chars("cat")), Some(chars("a cat")));
    assert_eq!(match_line(&chars("A Dog"), &chars("cat")), None);
}

#[test]
fn line_is_split_at_first_occurrence() {
    let e = format_line(&chars("cat and cat"), &chars("cat"));
    assert_eq!(parts(&e), ("".to_string(), "cat".to_string(), " and cat".to_string()));
}

#[test]
fn line_without_token_keeps_whole_prefix() {
    let e = format_line(&chars("dog"), &chars("cat"));
    assert_eq!(parts(&e), ("dog".to_string(), "cat".to_string(), "".to_string()));
}

#[test]
fn find_and_rfind_positions() {
    assert_eq!(find(&chars("abcabc"), &chars("ca")), Some(2));
    assert_eq!(find(&chars("abc"), &chars("abcd")), None);
    assert_eq!(find(&chars("abc"), &chars("")), Some(0));
    assert_eq!(rfind(&chars("a b c"), ' '), Some(3));
    assert_eq!(rfind(&chars("abc"), ' '), None);
}
