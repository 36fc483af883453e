use vstd::prelude::*;
use crate::text::{
    contains_char, copy_range, last_index, lemma_last_index, lower_of, lowercase, remove_brackets,
    rfind, without_brackets, is_bracket,
};

verus! {

/// The buffer uses the bracket syntax: it holds at least one `[` and one `]`.
pub open spec fn bracketed(b: Seq<char>) -> bool {
    b.contains('[') && b.contains(']')
}

/// The last `[` comes before the last `]`, so the two enclose a literal token.
pub open spec fn well_bracketed(b: Seq<char>) -> bool {
    bracketed(b) && last_index(b, '[') < last_index(b, ']')
}

/// The search token derived from an input buffer.
///
/// With well-ordered brackets it is the text between the last `[` and the last
/// `]`, brackets removed, case kept. Otherwise it is the lowercased text after
/// the last space, or the whole buffer lowercased where there is no space.
pub open spec fn token_of(b: Seq<char>) -> Seq<char> {
    if well_bracketed(b) {
        without_brackets(b.subrange(last_index(b, '['), last_index(b, ']')))
    } else if b.contains(' ') {
        lower_of(b.subrange(last_index(b, ' ') + 1, b.len() as int))
    } else {
        lower_of(b)
    }
}

/// The rewrite that the bracket syntax asks of the buffer: all brackets
/// removed, where the buffer uses that syntax; no rewrite otherwise.
pub open spec fn normalized_of(b: Seq<char>) -> Option<Seq<char>> {
    if bracketed(b) {
        Some(without_brackets(b))
    } else {
        None
    }
}

/// Derives the search token from the input buffer, without changing the buffer.
pub fn derive_token(buffer: &Vec<char>) -> (token: Vec<char>)
    ensures
        token@ == token_of(buffer@),
{
    proof {
        lemma_last_index(buffer@, '[');
        lemma_last_index(buffer@, ']');
        lemma_last_index(buffer@, ' ');
    }
    let open_at = rfind(buffer, '[');
    let close_at = rfind(buffer, ']');
    if let (Some(start), Some(finish)) = (open_at, close_at) {
        if start < finish {
            let inner = copy_range(buffer, start, finish);
            return remove_brackets(&inner);
        }
    }
    match rfind(buffer, ' ') {
        Some(space) => {
            let n: usize = buffer.len();
            let tail = copy_range(buffer, space + 1, n);
            lowercase(&tail)
        },
        None => lowercase(buffer),
    }
}

/// The buffer as it must be rewritten once its bracket syntax has been read:
/// `Some` of the buffer without brackets where it holds both `[` and `]`,
/// `None` where it is to stay as it is.
pub fn strip_brackets(buffer: &Vec<char>) -> (r: Option<Vec<char>>)
    ensures
        match r {
            Some(v) => normalized_of(buffer@) == Some(v@),
            None => normalized_of(buffer@) is None,
        },
{
    if contains_char(buffer, '[') && contains_char(buffer, ']') {
        Some(remove_brackets(buffer))
    } else {
        None
    }
}

/// Parses the buffer: the search token, and the rewrite the buffer needs.
pub fn parse(buffer: &Vec<char>) -> (r: (Vec<char>, Option<Vec<char>>))
    ensures
        r.0@ == token_of(buffer@),
        match r.1 {
            Some(v) => normalized_of(buffer@) == Some(v@),
            None => normalized_of(buffer@) is None,
        },
{
    (derive_token(buffer), strip_brackets(buffer))
}

/// A buffer without brackets is never rewritten, and a rewritten buffer holds
/// no brackets, so parsing it again rewrites nothing: the bracket syntax is
/// consumed at most once.
pub proof fn lemma_normalization_once(b: Seq<char>)
    ensures
        !b.contains('[') && !b.contains(']') ==> normalized_of(b) is None,
        normalized_of(b) matches Some(n) ==> !n.contains('[') && !n.contains(']')
            && normalized_of(n) is None,
{
    broadcast use vstd::seq_lib::group_filter_ensures;

    let n = without_brackets(b);
    if n.contains('[') {
        let i = choose|i: int| 0 <= i < n.len() && n[i] == '[';
        assert(!is_bracket(n[i]));
    }
    if n.contains(']') {
        let i = choose|i: int| 0 <= i < n.len() && n[i] == ']';
        assert(!is_bracket(n[i]));
    }
}

/// Without brackets and without a space, the token is the whole buffer lowercased.
pub proof fn lemma_plain_token(b: Seq<char>)
    requires
        !b.contains('['),
        !b.contains(']'),
        !b.contains(' '),
    ensures
        token_of(b) == lower_of(b),
{
}

/// Without brackets, a buffer holding a space gives as token the lowercased
/// text after its last space.
pub proof fn lemma_last_word_token(b: Seq<char>)
    requires
        !b.contains('['),
        !b.contains(']'),
        b.contains(' '),
    ensures
        token_of(b) == lower_of(b.subrange(last_index(b, ' ') + 1, b.len() as int)),
        forall|j: int| last_index(b, ' ') < j < b.len() ==> b[j] != ' ',
        0 <= last_index(b, ' ') < b.len() && b[last_index(b, ' ')] == ' ',
{
    lemma_last_index(b, ' ');
}

} // verus!
