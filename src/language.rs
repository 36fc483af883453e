use vstd::prelude::*;

verus! {

/// The number of languages in the selector's cycle.
pub const LANGUAGE_COUNT: usize = 6;

/// One of the dictionaries' languages, in cycle and display order.
#[derive(Clone, Copy, Debug, PartialEq, Eq, Structural)]
pub enum Language {
    English,
    German,
    Czech,
    Esperanto,
    Cosmoglotta,
    Cosmoglotta2,
}

/// Display position of a language, equal to its place in the cycle.
pub open spec fn index_of(l: Language) -> nat {
    match l {
        Language::English => 0,
        Language::German => 1,
        Language::Czech => 2,
        Language::Esperanto => 3,
        Language::Cosmoglotta => 4,
        Language::Cosmoglotta2 => 5,
    }
}

/// The language at a display position; positions wrap around the cycle.
pub open spec fn language_at(i: nat) -> Language {
    let k = i % 6;
    if k == 0 {
        Language::English
    } else if k == 1 {
        Language::German
    } else if k == 2 {
        Language::Czech
    } else if k == 3 {
        Language::Esperanto
    } else if k == 4 {
        Language::Cosmoglotta
    } else {
        Language::Cosmoglotta2
    }
}

/// The language that follows `l` in the cycle.
pub open spec fn next_of(l: Language) -> Language {
    language_at(index_of(l) + 1)
}

/// The language reached from `l` after `n` advances.
#[verifier::opaque]
pub open spec fn advance_by(l: Language, n: nat) -> Language
    decreases n,
{
    if n == 0 {
        l
    } else {
        next_of(advance_by(l, (n - 1) as nat))
    }
}

impl Language {
    /// The display position (0 to 5) of this language.
    pub fn index(&self) -> (r: usize)
        ensures
            r == index_of(*self),
            r < LANGUAGE_COUNT,
    {
        match self {
            Language::English => 0,
            Language::German => 1,
            Language::Czech => 2,
            Language::Esperanto => 3,
            Language::Cosmoglotta => 4,
            Language::Cosmoglotta2 => 5,
        }
    }

    /// The language at display position `i`, wrapping around the cycle.
    pub fn from_index(i: usize) -> (r: Language)
        ensures
            r == language_at(i as nat),
    {
        let k: usize = i % LANGUAGE_COUNT;
        if k == 0 {
            Language::English
        } else if k == 1 {
            Language::German
        } else if k == 2 {
            Language::Czech
        } else if k == 3 {
            Language::Esperanto
        } else if k == 4 {
            Language::Cosmoglotta
        } else {
            Language::Cosmoglotta2
        }
    }

    /// The next language in the fixed cycle
    /// English, German, Czech, Esperanto, Cosmoglotta, Cosmoglotta2, English.
    pub fn next(&self) -> (r: Language)
        ensures
            r == next_of(*self),
            index_of(r) == (index_of(*self) + 1) % 6,
    {
        Language::from_index(self.index() + 1)
    }
}

/// After `n` advances a language stands `n` places further along the cycle.
pub proof fn lemma_advance_index(l: Language, n: nat)
    ensures
        index_of(advance_by(l, n)) == (index_of(l) + n) % 6,
    decreases n,
{
    reveal(advance_by);
    if n > 0 {
        lemma_advance_index(l, (n - 1) as nat);
    }
}

/// Two languages at the same display position are the same language.
pub proof fn lemma_index_injective(a: Language, b: Language)
    ensures
        index_of(a) == index_of(b) ==> a == b,
{
}

/// Advancing the selector six times returns to the starting language, and the
/// six languages met on the way are pairwise distinct, so every language is
/// visited exactly once before the cycle repeats.
pub proof fn lemma_cycle_of_six(l: Language)
    ensures
        advance_by(l, 6) == l,
        forall|i: nat, j: nat|
            i < j < 6 ==> #[trigger] advance_by(l, i) != #[trigger] advance_by(l, j),
        forall|m: Language|
            advance_by(l, ((#[trigger] index_of(m) + 6 - index_of(l)) % 6) as nat) == m,
{
    assert(advance_by(l, 6) == l) by {
        lemma_advance_index(l, 6);
        lemma_index_injective(l, advance_by(l, 6));
    }
    assert forall|i: nat, j: nat| i < j < 6 implies advance_by(l, i) != advance_by(l, j) by {
        lemma_advance_index(l, i);
        lemma_advance_index(l, j);
    }
    assert forall|m: Language|
        advance_by(l, ((#[trigger] index_of(m) + 6 - index_of(l)) % 6) as nat) == m by {
        let i: nat = ((index_of(m) + 6 - index_of(l)) % 6) as nat;
        lemma_advance_index(l, i);
        lemma_index_injective(m, advance_by(l, i));
    }
}

} // verus!
