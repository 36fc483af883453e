use vstd::prelude::*;
use crate::text::{copy_range, find, is_first_occurrence, occurs_in};

verus! {

/// One matching line split at the first occurrence of the token, for
/// highlighted display.
pub struct MatchEntry {
    /// What precedes the token.
    pub prefix: Vec<char>,
    /// The token itself.
    pub matched: Vec<char>,
    /// What follows the token.
    pub suffix: Vec<char>,
}

impl MatchEntry {
    /// The three parts of the entry.
    pub open spec fn parts(&self) -> (Seq<char>, Seq<char>, Seq<char>) {
        (self.prefix@, self.matched@, self.suffix@)
    }
}

/// The entry for `line`: split at the first occurrence of `token`, or, where
/// the token does not occur, the whole line as prefix and an empty suffix.
pub open spec fn entry_of(line: Seq<char>, token: Seq<char>) -> (Seq<char>, Seq<char>, Seq<char>) {
    if occurs_in(line, token) {
        let i = choose|i: int| is_first_occurrence(line, token, i);
        (line.take(i), token, line.skip(i + token.len()))
    } else {
        (line, token, Seq::empty())
    }
}

/// Only one position is the first occurrence.
proof fn lemma_first_occurrence_unique(line: Seq<char>, token: Seq<char>, i: int, j: int)
    requires
        is_first_occurrence(line, token, i),
        is_first_occurrence(line, token, j),
    ensures
        i == j,
{
}

/// Splits one line at the first occurrence of the token.
pub fn format_line(line: &Vec<char>, token: &Vec<char>) -> (r: MatchEntry)
    ensures
        r.parts() == entry_of(line@, token@),
{
    let matched = copy_range(token, 0, token.len());
    assert(matched@ =~= token@);
    match find(line, token) {
        Some(i) => {
            let n: usize = line.len();
            let prefix = copy_range(line, 0, i);
            let suffix = copy_range(line, i + token.len(), n);
            proof {
                let c = choose|c: int| is_first_occurrence(line@, token@, c);
                lemma_first_occurrence_unique(line@, token@, c, i as int);
                assert(prefix@ =~= line@.take(i as int));
                assert(suffix@ =~= line@.skip(i + token@.len()));
            }
            MatchEntry { prefix, matched, suffix }
        },
        None => {
            let n: usize = line.len();
            let prefix = copy_range(line, 0, n);
            assert(prefix@ =~= line@);
            MatchEntry { prefix, matched, suffix: Vec::new() }
        },
    }
}

/// One entry per matched line, in the lines' order.
pub fn format_lines(lines: &Vec<Vec<char>>, token: &Vec<char>) -> (r: Vec<MatchEntry>)
    ensures
        r@.len() == lines@.len(),
        forall|k: int| 0 <= k < lines@.len() ==> #[trigger] r@[k].parts() == entry_of(lines@[k]@, token@),
{
    let mut out: Vec<MatchEntry> = Vec::new();
    let mut i: usize = 0;
    while i < lines.len()
        invariant
            i <= lines@.len(),
            out@.len() == i,
            forall|k: int| 0 <= k < i ==> #[trigger] out@[k].parts() == entry_of(lines@[k]@, token@),
        decreases lines@.len() - i,
    {
        out.push(format_line(&lines[i], token));
        i = i + 1;
    }
    out
}

} // verus!
