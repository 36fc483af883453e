use vstd::prelude::*;
use crate::dictionaries::Dictionaries;
use crate::language::{next_of, Language};

verus! {

/// What the session shows.
#[derive(Clone, Copy, Debug, PartialEq, Eq, Structural)]
pub enum ViewMode {
    /// The welcome text, before the first input event.
    Intro,
    /// The interactive lookup.
    Browsing,
    /// The buffer shown alone until the next input event.
    PreviewOverlay,
}

/// One input event, as the input source delivers it.
#[derive(Clone, Copy, Debug, PartialEq, Eq, Structural)]
pub enum Event {
    /// A printable character.
    Character(char),
    Backspace,
    Escape,
    /// Select the next language.
    AdvanceLanguage,
    /// Show the buffer alone.
    Preview,
    /// Clear and redraw the display.
    Redraw,
    /// End the session.
    Quit,
    /// Any other key or event.
    Other,
}

/// What the session asks of the display after an event.
#[derive(Clone, Copy, Debug, PartialEq, Eq, Structural)]
pub enum Action {
    /// Search again and draw the results.
    Render,
    /// Clear the display, then search again and draw the results.
    ClearAndRender,
    /// Draw the buffer alone and wait for the next event.
    ShowPreview,
    /// End the session.
    Quit,
}

/// The state the session holds besides the dictionaries.
pub struct SessionView {
    pub mode: ViewMode,
    pub language: Language,
    pub buffer: Seq<char>,
}

/// The transition of the session on one event: the next state and the action.
pub open spec fn step(s: SessionView, e: Event) -> (SessionView, Action) {
    match s.mode {
        ViewMode::Intro => match e {
            Event::Quit => (s, Action::Quit),
            _ => (
                SessionView { mode: ViewMode::Browsing, language: s.language, buffer: Seq::empty() },
                Action::Render,
            ),
        },
        ViewMode::PreviewOverlay => (SessionView { mode: ViewMode::Browsing, ..s }, Action::Render),
        ViewMode::Browsing => match e {
            Event::Character(c) => (SessionView { buffer: s.buffer.push(c), ..s }, Action::Render),
            Event::Backspace => (
                SessionView {
                    buffer: if s.buffer.len() == 0 {
                        s.buffer
                    } else {
                        s.buffer.drop_last()
                    },
                    ..s
                },
                Action::Render,
            ),
            Event::Escape => (SessionView { buffer: Seq::empty(), ..s }, Action::Render),
            Event::AdvanceLanguage => (
                SessionView { language: next_of(s.language), ..s },
                Action::Render,
            ),
            Event::Preview => (
                SessionView { mode: ViewMode::PreviewOverlay, ..s },
                Action::ShowPreview,
            ),
            Event::Redraw => (s, Action::ClearAndRender),
            Event::Quit => (s, Action::Quit),
            Event::Other => (s, Action::Render),
        },
    }
}

/// A lookup session: the dictionaries with buffer and language, and the view mode.
pub struct Session {
    pub dictionaries: Dictionaries,
    pub mode: ViewMode,
}

impl Session {
    /// The session's state besides the dictionaries.
    pub open spec fn view_state(&self) -> SessionView {
        SessionView {
            mode: self.mode,
            language: self.dictionaries.current_language,
            buffer: self.dictionaries.current_string@,
        }
    }

    /// A session that starts on the welcome text, with an empty buffer and
    /// English selected.
    pub fn new(
        english: Vec<Vec<char>>,
        german: Vec<Vec<char>>,
        czech: Vec<Vec<char>>,
        esperanto: Vec<Vec<char>>,
        cosmoglotta: Vec<Vec<char>>,
        cosmoglotta2: Vec<Vec<char>>,
    ) -> (r: Session)
        ensures
            r.mode == ViewMode::Intro,
            r.dictionaries.current_string@.len() == 0,
            r.dictionaries.current_language == Language::English,
            r.dictionaries.english == english,
            r.dictionaries.german == german,
            r.dictionaries.czech == czech,
            r.dictionaries.esperanto == esperanto,
            r.dictionaries.cosmoglotta == cosmoglotta,
            r.dictionaries.cosmoglotta2 == cosmoglotta2,
    {
        Session {
            dictionaries: Dictionaries::new(
                english,
                german,
                czech,
                esperanto,
                cosmoglotta,
                cosmoglotta2,
            ),
            mode: ViewMode::Intro,
        }
    }

    /// Applies one input event and says what the display must do next.
    pub fn handle(&mut self, event: Event) -> (r: Action)
        ensures
            (final(self).view_state(), r) == step(old(self).view_state(), event),
            final(self).dictionaries.same_store(&old(self).dictionaries),
    {
        match self.mode {
            ViewMode::Intro => {
                if event == Event::Quit {
                    return Action::Quit;
                }
                self.dictionaries.current_string = Vec::new();
                self.mode = ViewMode::Browsing;
                Action::Render
            },
            ViewMode::PreviewOverlay => {
                self.mode = ViewMode::Browsing;
                Action::Render
            },
            ViewMode::Browsing => match event {
                Event::Character(c) => {
                    self.dictionaries.current_string.push(c);
                    Action::Render
                },
                Event::Backspace => {
                    self.dictionaries.current_string.pop();
                    Action::Render
                },
                Event::Escape => {
                    self.dictionaries.current_string.clear();
                    Action::Render
                },
                Event::AdvanceLanguage => {
                    self.dictionaries.switch();
                    Action::Render
                },
                Event::Preview => {
                    self.mode = ViewMode::PreviewOverlay;
                    Action::ShowPreview
                },
                Event::Redraw => Action::ClearAndRender,
                Event::Quit => Action::Quit,
                Event::Other => Action::Render,
            },
        }
    }
}

} // verus!
