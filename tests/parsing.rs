use dictionarium::query::{derive_token, parse, strip_brackets};

fn chars(s: &str) -> Vec<char> {
    s.chars().collect()
}

#[test]
fn plain_input_is_lowercased_whole() {
    assert_eq!(derive_token(&chars("CaT")), chars("cat"));
    assert_eq!(derive_token(&chars("Haus")), chars("haus"));
}

#[test]
fn plain_input_is_never_rewritten() {
    assert_eq!(strip_brackets(&chars("Haus")), None);
}

#[test]
fn last_word_is_the_token_after_a_space() {
    assert_eq!(derive_token(&chars("Un Bon IDÉ")), chars("idé"));
    assert_eq!(derive_token(&chars("trailing ")), chars(""));
}

#[test]
fn bracketed_phrase_is_the_token() {
    let (token, rewritten) = parse(&chars("a [bon idé]"));
    assert_eq!(token, chars("bon idé"));
    assert_eq!(rewritten, Some(chars("a bon idé")));
    let (second, again) = parse(&chars("a bon idé"));
    assert_eq!(second, chars("idé"));
    assert_eq!(again, None);
}

#[test]
fn bracketed_phrase_keeps_its_case() {
    assert_eq!(derive_token(&chars("x [Bon Idé]")), chars("Bon Idé"));
}

#[test]
fn last_bracket_pair_is_used() {
    assert_eq!(derive_token(&chars("[un] e [du tri]")), chars("du tri"));
    assert_eq!(strip_brackets(&chars("[un] e [du tri]")), Some(chars("un e du tri")));
}

#[test]
fn reversed_brackets_fall_back_to_last_word() {
    assert_eq!(derive_token(&chars("a] B [C")), chars("[c"));
    assert_eq!(derive_token(&chars("ab]X[")), chars("ab]x["));
    assert_eq!(strip_brackets(&chars("a] B [C")), Some(chars("a B C")));
}

#[test]
fn single_bracket_kind_is_no_bracket_syntax() {
    assert_eq!(derive_token(&chars("un [bon")), chars("[bon"));
    assert_eq!(strip_brackets(&chars("un [bon")), None);
}

#[test]
fn rewritten_buffer_is_not_rewritten_again() {
    let once = strip_brackets(&chars("[a] [b c]")).unwrap();
    assert_eq!(once, chars("a b c"));
    assert_eq!(strip_brackets(&once), None);
}
