use dictionarium::dictionaries::Dictionaries;
use dictionarium::language::Language;
use dictionarium::session::{Action, Event, Session, ViewMode};

fn chars(s: &str) -> Vec<char> {
    s.chars().collect()
}

fn lines(ls: &[&str]) -> Vec<Vec<char>> {
    ls.iter().map(|l| chars(l)).collect()
}

fn store() -> Dictionaries {
    Dictionaries::new(
        lines(&["a cat sat", "catalog", "dog"]),
        lines(&["Katze", "Hund"]),
        lines(&["kočka"]),
        lines(&["kato"]),
        lines(&["un bon idé", "idé"]),
        lines(&["altri idé"]),
    )
}

fn session() -> Session {
    let d = store();
    Session::new(d.english, d.german, d.czech, d.esperanto, d.cosmoglotta, d.cosmoglotta2)
}

#[test]
fn six_advances_return_to_start() {
    let all = [
        Language::English,
        Language::German,
        Language::Czech,
        Language::Esperanto,
        Language::Cosmoglotta,
        Language::Cosmoglotta2,
    ];
    for start in all {
        let mut l = start;
        let mut seen = Vec::new();
        for _ in 0..6 {
            seen.push(l.index());
            l = l.next();
        }
        assert_eq!(l, start);
        seen.sort();
        assert_eq!(seen, vec![0, 1, 2, 3, 4, 5]);
    }
}

#[test]
fn cycle_order_and_indices() {
    assert_eq!(Language::English.next(), Language::German);
    assert_eq!(Language::German.next(), Language::Czech);
    assert_eq!(Language::Czech.next(), Language::Esperanto);
    assert_eq!(Language::Esperanto.next(), Language::Cosmoglotta);
    assert_eq!(Language::Cosmoglotta.next(), Language::Cosmoglotta2);
    assert_eq!(Language::Cosmoglotta2.next(), Language::English);
    assert_eq!(Language::Cosmoglotta2.index(), 5);
    assert_eq!(Language::from_index(7), Language::German);
}

#[test]
fn search_uses_selected_dictionary() {
    let mut d = store();
    d.current_string = chars("cat");
    let entries = d.search();
    assert_eq!(entries.len(), 2);
    d.switch();
    assert_eq!(d.current_language, Language::German);
    d.current_string = chars("KATZ");
    let entries = d.search();
    assert_eq!(entries.len(), 1);
    assert_eq!(entries[0].matched, chars("katz"));
    assert_eq!(entries[0].suffix, chars("e"));
}

#[test]
fn search_consumes_brackets_once() {
    let mut d = store();
    d.current_language = Language::Cosmoglotta;
    d.current_string = chars("a [Bon idé]");
    let entries = d.search();
    assert_eq!(d.current_string, chars("a Bon idé"));
    assert_eq!(entries.len(), 1);
    assert_eq!(entries[0].prefix, chars("un "));
    assert_eq!(entries[0].matched, chars("bon idé"));
    let entries = d.search();
    assert_eq!(d.current_string, chars("a Bon idé"));
    assert_eq!(entries.len(), 2);
}

#[test]
fn short_buffer_gives_no_entries() {
    let mut d = store();
    d.current_string = chars("c");
    assert!(d.search().is_empty());
}

#[test]
fn intro_discards_first_event() {
    let mut s = session();
    assert_eq!(s.mode, ViewMode::Intro);
    assert_eq!(s.handle(Event::Character('x')), Action::Render);
    assert_eq!(s.mode, ViewMode::Browsing);
    assert!(s.dictionaries.current_string.is_empty());
}

#[test]
fn browsing_edits_the_buffer() {
    let mut s = session();
    s.handle(Event::Other);
    s.handle(Event::Character('c'));
    s.handle(Event::Character('a'));
    s.handle(Event::Character('x'));
    s.handle(Event::Backspace);
    s.handle(Event::Character('t'));
    assert_eq!(s.dictionaries.current_string, chars("cat"));
    assert_eq!(s.dictionaries.search().len(), 2);
    assert_eq!(s.handle(Event::Escape), Action::Render);
    assert!(s.dictionaries.current_string.is_empty());
    assert_eq!(s.handle(Event::Backspace), Action::Render);
    assert!(s.dictionaries.current_string.is_empty());
}

#[test]
fn preview_consumes_the_next_event() {
    let mut s = session();
    s.handle(Event::Other);
    s.handle(Event::Character('a'));
    assert_eq!(s.handle(Event::Preview), Action::ShowPreview);
    assert_eq!(s.mode, ViewMode::PreviewOverlay);
    assert_eq!(s.handle(Event::Quit), Action::Render);
    assert_eq!(s.mode, ViewMode::Browsing);
    assert_eq!(s.dictionaries.current_string, chars("a"));
}

#[test]
fn advance_redraw_and_quit() {
    let mut s = session();
    s.handle(Event::Other);
    assert_eq!(s.handle(Event::AdvanceLanguage), Action::Render);
    assert_eq!(s.dictionaries.current_language, Language::German);
    assert_eq!(s.handle(Event::Redraw), Action::ClearAndRender);
    assert_eq!(s.handle(Event::Quit), Action::Quit);
}
