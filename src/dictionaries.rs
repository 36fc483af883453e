use vstd::prelude::*;
use crate::results::{entry_of, format_lines, MatchEntry};
use crate::language::{next_of, Language};
use crate::query::{derive_token, lemma_normalization_once, normalized_of, strip_brackets, token_of};
use crate::scan::{scan, scan_of, texts};
use crate::text::{lower_of, lowercase};

verus! {

/// The six dictionaries, one ordered list of lines per language, with the
/// input buffer and the selected language of a lookup session.
pub struct Dictionaries {
    pub english: Vec<Vec<char>>,
    pub german: Vec<Vec<char>>,
    pub czech: Vec<Vec<char>>,
    pub esperanto: Vec<Vec<char>>,
    pub cosmoglotta: Vec<Vec<char>>,
    pub cosmoglotta2: Vec<Vec<char>>,
    /// The input buffer.
    pub current_string: Vec<char>,
    /// The selected language.
    pub current_language: Language,
}

/// The entries shown for a matched line list and a token.
pub open spec fn entries_of(lines: Seq<Seq<char>>, token: Seq<char>) -> Seq<(Seq<char>, Seq<char>, Seq<char>)> {
    lines.map_values(|l: Seq<char>| entry_of(l, token))
}

/// The entries shown for a dictionary and an input buffer: the buffer's token
/// is scanned for, and each matched line split at the lowercased token.
pub open spec fn results_of(lines: Seq<Seq<char>>, buffer: Seq<char>) -> Seq<(Seq<char>, Seq<char>, Seq<char>)> {
    entries_of(scan_of(lines, token_of(buffer)), lower_of(token_of(buffer)))
}

/// The parts of each entry.
pub open spec fn entry_parts(entries: Seq<MatchEntry>) -> Seq<(Seq<char>, Seq<char>, Seq<char>)> {
    entries.map_values(|e: MatchEntry| e.parts())
}

/// The buffer after a parse has consumed its bracket syntax.
pub open spec fn after_parse(buffer: Seq<char>) -> Seq<char> {
    match normalized_of(buffer) {
        Some(n) => n,
        None => buffer,
    }
}

impl Dictionaries {
    /// The lines of the dictionary for `l`.
    pub open spec fn lines_for(&self, l: Language) -> Seq<Seq<char>> {
        match l {
            Language::English => texts(self.english@),
            Language::German => texts(self.german@),
            Language::Czech => texts(self.czech@),
            Language::Esperanto => texts(self.esperanto@),
            Language::Cosmoglotta => texts(self.cosmoglotta@),
            Language::Cosmoglotta2 => texts(self.cosmoglotta2@),
        }
    }

    /// The six dictionaries of `self` and `other` are the same.
    pub open spec fn same_store(&self, other: &Dictionaries) -> bool {
        &&& self.english == other.english
        &&& self.german == other.german
        &&& self.czech == other.czech
        &&& self.esperanto == other.esperanto
        &&& self.cosmoglotta == other.cosmoglotta
        &&& self.cosmoglotta2 == other.cosmoglotta2
    }

    /// A session over six dictionaries: empty buffer, English selected.
    pub fn new(
        english: Vec<Vec<char>>,
        german: Vec<Vec<char>>,
        czech: Vec<Vec<char>>,
        esperanto: Vec<Vec<char>>,
        cosmoglotta: Vec<Vec<char>>,
        cosmoglotta2: Vec<Vec<char>>,
    ) -> (r: Dictionaries)
        ensures
            r.english == english,
            r.german == german,
            r.czech == czech,
            r.esperanto == esperanto,
            r.cosmoglotta == cosmoglotta,
            r.cosmoglotta2 == cosmoglotta2,
            r.current_string@.len() == 0,
            r.current_language == Language::English,
    {
        Dictionaries {
            english,
            german,
            czech,
            esperanto,
            cosmoglotta,
            cosmoglotta2,
            current_string: Vec::new(),
            current_language: Language::English,
        }
    }

    /// The dictionary of the selected language.
    pub fn dictionary(&self) -> (r: &Vec<Vec<char>>)
        ensures
            texts(r@) == self.lines_for(self.current_language),
    {
        match self.current_language {
            Language::English => &self.english,
            Language::German => &self.german,
            Language::Czech => &self.czech,
            Language::Esperanto => &self.esperanto,
            Language::Cosmoglotta => &self.cosmoglotta,
            Language::Cosmoglotta2 => &self.cosmoglotta2,
        }
    }

    /// Looks the buffer up in the selected dictionary. The token is derived
    /// from the buffer as it stands; then the buffer loses its brackets where
    /// it used the bracket syntax. The result holds one entry per matched
    /// line, at most twenty, in the dictionary's order.
    pub fn search(&mut self) -> (r: Vec<MatchEntry>)
        ensures
            entry_parts(r@) == results_of(
                old(self).lines_for(old(self).current_language),
                old(self).current_string@,
            ),
            final(self).current_string@ == after_parse(old(self).current_string@),
            final(self).current_language == old(self).current_language,
            final(self).same_store(old(self)),
    {
        let token = derive_token(&self.current_string);
        if let Some(normalized) = strip_brackets(&self.current_string) {
            self.current_string = normalized;
        }
        let lines = scan(self.dictionary(), &token);
        let lowered = lowercase(&token);
        let entries = format_lines(&lines, &lowered);
        proof {
            assert(entry_parts(entries@) =~= entries_of(texts(lines@), lowered@));
        }
        entries
    }

    /// Selects the next language of the cycle; nothing else changes.
    pub fn switch(&mut self)
        ensures
            final(self).current_language == next_of(old(self).current_language),
            final(self).current_string == old(self).current_string,
            final(self).same_store(old(self)),
    {
        self.current_language = self.current_language.next();
    }
}

/// A token shorter than two characters finds nothing.
pub proof fn lemma_short_token_no_results(lines: Seq<Seq<char>>, buffer: Seq<char>)
    requires
        token_of(buffer).len() < 2,
    ensures
        results_of(lines, buffer).len() == 0,
{
}

/// A search rewrites the buffer at most once: what it leaves is left as it is
/// by the next search, and a buffer without brackets is never rewritten.
pub proof fn lemma_rewrite_at_most_once(buffer: Seq<char>)
    ensures
        after_parse(after_parse(buffer)) == after_parse(buffer),
        !buffer.contains('[') && !buffer.contains(']') ==> after_parse(buffer) == buffer,
{
    lemma_normalization_once(buffer);
}

} // verus!
