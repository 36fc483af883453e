use vstd::prelude::*;

verus! {

/// `token` occurs in `s` starting at position `i`.
pub open spec fn occurs_at(s: Seq<char>, token: Seq<char>, i: int) -> bool {
    0 <= i && i + token.len() <= s.len() && s.subrange(i, i + token.len()) == token
}

/// `token` occurs somewhere in `s`.
pub open spec fn occurs_in(s: Seq<char>, token: Seq<char>) -> bool {
    exists|i: int| occurs_at(s, token, i)
}

/// `i` is the first position at which `token` occurs in `s`.
pub open spec fn is_first_occurrence(s: Seq<char>, token: Seq<char>, i: int) -> bool {
    occurs_at(s, token, i) && forall|j: int| 0 <= j < i ==> !occurs_at(s, token, j)
}

/// Position of the last `c` among the first `k` characters of `s`, or -1.
pub open spec fn last_index_before(s: Seq<char>, c: char, k: int) -> int
    decreases k,
{
    if k <= 0 {
        -1
    } else if s[k - 1] == c {
        k - 1
    } else {
        last_index_before(s, c, k - 1)
    }
}

/// Position of the last `c` in `s`, or -1 where `s` holds none.
pub open spec fn last_index(s: Seq<char>, c: char) -> int {
    last_index_before(s, c, s.len() as int)
}

/// A bracket character of the query syntax.
pub open spec fn is_bracket(c: char) -> bool {
    c == '[' || c == ']'
}

/// `s` with every bracket character removed and all others kept in order.
pub open spec fn without_brackets(s: Seq<char>) -> Seq<char> {
    s.filter(|c: char| !is_bracket(c))
}

/// What lowercasing the characters of `s` gives.
pub uninterp spec fn lower_of(s: Seq<char>) -> Seq<char>;

/// Relies on `str::to_lowercase`, whose result depends on the characters alone.
#[verifier::external_body]
pub(crate) fn lowercase(s: &Vec<char>) -> (r: Vec<char>)
    ensures
        r@ == lower_of(s@),
{
    s.iter().collect::<String>().to_lowercase().chars().collect()
}

/// The last `c` before position `k` is where it is said to be, and no later one exists.
pub proof fn lemma_last_index_before(s: Seq<char>, c: char, k: int)
    requires
        0 <= k <= s.len(),
    ensures
        -1 <= last_index_before(s, c, k) < k,
        last_index_before(s, c, k) >= 0 ==> s[last_index_before(s, c, k)] == c,
        forall|j: int| last_index_before(s, c, k) < j < k ==> s[j] != c,
    decreases k,
{
    if k > 0 {
        lemma_last_index_before(s, c, k - 1);
    }
}

/// `last_index` finds a character exactly where the sequence holds it.
pub proof fn lemma_last_index(s: Seq<char>, c: char)
    ensures
        -1 <= last_index(s, c) < s.len(),
        last_index(s, c) >= 0 <==> s.contains(c),
        last_index(s, c) >= 0 ==> s[last_index(s, c)] == c,
        forall|j: int| last_index(s, c) < j < s.len() ==> s[j] != c,
{
    lemma_last_index_before(s, c, s.len() as int);
    if s.contains(c) {
        let w = choose|w: int| 0 <= w < s.len() && s[w] == c;
        assert(last_index(s, c) >= w);
    }
}

/// The position of the last `c` in `s`, if any.
pub fn rfind(s: &Vec<char>, c: char) -> (r: Option<usize>)
    ensures
        match r {
            Some(i) => i == last_index(s@, c) && i < s@.len(),
            None => last_index(s@, c) == -1 && !s@.contains(c),
        },
{
    proof {
        lemma_last_index(s@, c);
    }
    let mut k: usize = s.len();
    while k > 0
        invariant
            k <= s@.len(),
            last_index_before(s@, c, k as int) == last_index(s@, c),
        decreases k,
    {
        if s[k - 1] == c {
            return Some(k - 1);
        }
        k = k - 1;
    }
    None
}

/// Whether `s` holds the character `c`.
pub fn contains_char(s: &Vec<char>, c: char) -> (r: bool)
    ensures
        r == s@.contains(c),
{
    proof {
        lemma_last_index(s@, c);
    }
    rfind(s, c).is_some()
}

/// Whether `token` occurs in `s` at position `i`.
fn matches_at(s: &Vec<char>, token: &Vec<char>, i: usize) -> (r: bool)
    requires
        i + token@.len() <= s@.len(),
    ensures
        r == occurs_at(s@, token@, i as int),
{
    let n: usize = s.len();
    let mut k: usize = 0;
    while k < token.len()
        invariant
            n == s@.len(),
            i + token@.len() <= s@.len(),
            k <= token@.len(),
            forall|q: int| 0 <= q < k ==> s@[i + q] == token@[q],
        decreases token@.len() - k,
    {
        if s[i + k] != token[k] {
            assert(s@.subrange(i as int, i + token@.len())[k as int] != token@[k as int]);
            return false;
        }
        k = k + 1;
    }
    assert(s@.subrange(i as int, i + token@.len()) =~= token@);
    true
}

/// The first position at which `token` occurs in `s`, if any.
pub fn find(s: &Vec<char>, token: &Vec<char>) -> (r: Option<usize>)
    ensures
        match r {
            Some(i) => is_first_occurrence(s@, token@, i as int),
            None => !occurs_in(s@, token@),
        },
{
    if token.len() > s.len() {
        return None;
    }
    let last: usize = s.len() - token.len();
    let mut i: usize = 0;
    while i <= last
        invariant
            last + token@.len() == s@.len(),
            forall|j: int| 0 <= j < i ==> !occurs_at(s@, token@, j),
        decreases last + 1 - i,
    {
        if matches_at(s, token, i) {
            return Some(i);
        }
        if i == last {
            return None;
        }
        i = i + 1;
    }
    None
}

/// The characters of `s` from position `from` up to, not including, `to`.
pub fn copy_range(s: &Vec<char>, from: usize, to: usize) -> (r: Vec<char>)
    requires
        from <= to <= s@.len(),
    ensures
        r@ == s@.subrange(from as int, to as int),
{
    let mut out: Vec<char> = Vec::new();
    let mut k: usize = from;
    while k < to
        invariant
            from <= k <= to <= s@.len(),
            out@ == s@.subrange(from as int, k as int),
        decreases to - k,
    {
        out.push(s[k]);
        k = k + 1;
        assert(out@ =~= s@.subrange(from as int, k as int));
    }
    out
}

/// `s` with every bracket character removed.
pub fn remove_brackets(s: &Vec<char>) -> (r: Vec<char>)
    ensures
        r@ == without_brackets(s@),
{
    let mut out: Vec<char> = Vec::new();
    let mut k: usize = 0;
    while k < s.len()
        invariant
            k <= s@.len(),
            out@ == without_brackets(s@.take(k as int)),
        decreases s@.len() - k,
    {
        let c = s[k];
        proof {
            assert(s@.take(k + 1).drop_last() =~= s@.take(k as int));
            reveal_with_fuel(Seq::filter, 1);
        }
        if c != '[' && c != ']' {
            out.push(c);
        }
        k = k + 1;
    }
    assert(s@.take(s@.len() as int) =~= s@);
    out
}

} // verus!
