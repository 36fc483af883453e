use vstd::prelude::*;
use rayon::iter::{IndexedParallelIterator, IntoParallelRefIterator, ParallelIterator};
use crate::text::{copy_range, find, lower_of, lowercase, occurs_in};

verus! {

/// The most lines a scan returns.
pub const MAX_RESULTS: usize = 20;

/// The shortest token for which a scan is run.
pub const MIN_TOKEN_LEN: usize = 2;

/// The characters of each line.
pub open spec fn texts(lines: Seq<Vec<char>>) -> Seq<Seq<char>> {
    lines.map_values(|l: Vec<char>| l@)
}

/// The contents of an optional line.
pub open spec fn hit_view(o: Option<Vec<char>>) -> Option<Seq<char>> {
    match o {
        Some(v) => Some(v@),
        None => None,
    }
}

/// A line matches a lowercase token when its lowercased form contains the
/// token; the match yields that lowercased form.
pub open spec fn line_hit(line: Seq<char>, token: Seq<char>) -> Option<Seq<char>> {
    if occurs_in(lower_of(line), token) {
        Some(lower_of(line))
    } else {
        None
    }
}

/// The lowercased forms of all lines that match `token`, in line order.
pub open spec fn hits(lines: Seq<Seq<char>>, token: Seq<char>) -> Seq<Seq<char>>
    decreases lines.len(),
{
    if lines.len() == 0 {
        Seq::empty()
    } else {
        let before = hits(lines.drop_last(), token);
        match line_hit(lines.last(), token) {
            Some(l) => before.push(l),
            None => before,
        }
    }
}

/// The first `n` items of `s`, or all of them where there are fewer.
pub open spec fn first_n<T>(s: Seq<T>, n: nat) -> Seq<T> {
    if s.len() <= n {
        s
    } else {
        s.take(n as int)
    }
}

/// What a scan returns: nothing for a token shorter than two characters;
/// otherwise the first twenty matches of the lowercased token, in line order.
pub open spec fn scan_of(lines: Seq<Seq<char>>, token: Seq<char>) -> Seq<Seq<char>> {
    if token.len() < 2 {
        Seq::empty()
    } else {
        first_n(hits(lines, lower_of(token)), 20)
    }
}

/// The lowercased line where it contains the lowercase token, else `None`.
pub fn match_line(line: &Vec<char>, token: &Vec<char>) -> (r: Option<Vec<char>>)
    ensures
        hit_view(r) == line_hit(line@, token@),
{
    let lowered = lowercase(line);
    if find(&lowered, token).is_some() {
        Some(lowered)
    } else {
        None
    }
}

/// Relies on rayon's `par_iter().map(..).collect_into_vec(..)` over a slice:
/// an indexed parallel map, which leaves one result per line at the line's
/// own index. Each result is that of `match_line`.
#[verifier::external_body]
fn par_match_lines(lines: &Vec<Vec<char>>, token: &Vec<char>) -> (r: Vec<Option<Vec<char>>>)
    ensures
        r@.len() == lines@.len(),
        forall|i: int|
            0 <= i < lines@.len() ==> hit_view(#[trigger] r@[i]) == line_hit(lines@[i]@, token@),
{
    let mut out: Vec<Option<Vec<char>>> = Vec::new();
    lines.par_iter().map(|line| match_line(line, token)).collect_into_vec(&mut out);
    out
}

/// Scans a dictionary for a token: the lowercased lines that contain the
/// lowercased token, at most twenty, in the dictionary's order. A token of
/// fewer than two characters gives no lines.
pub fn scan(lines: &Vec<Vec<char>>, token: &Vec<char>) -> (r: Vec<Vec<char>>)
    ensures
        texts(r@) == scan_of(texts(lines@), token@),
{
    if token.len() < MIN_TOKEN_LEN {
        return Vec::new();
    }
    let lowered = lowercase(token);
    let found = par_match_lines(lines, &lowered);
    let ghost all = texts(lines@);
    let mut out: Vec<Vec<char>> = Vec::new();
    let mut i: usize = 0;
    while i < found.len()
        invariant
            found@.len() == lines@.len(),
            all == texts(lines@),
            forall|k: int|
                0 <= k < lines@.len() ==> hit_view(#[trigger] found@[k]) == line_hit(
                    lines@[k]@,
                    lowered@,
                ),
            i <= found@.len(),
            texts(out@) == first_n(hits(all.take(i as int), lowered@), 20),
        decreases found@.len() - i,
    {
        proof {
            assert(all.take(i + 1).drop_last() =~= all.take(i as int));
            assert(all.take(i + 1).last() == all[i as int]);
            assert(hit_view(found@[i as int]) == line_hit(lines@[i as int]@, lowered@));
        }
        if let Some(line) = &found[i] {
            if out.len() < MAX_RESULTS {
                let copy = copy_range(line, 0, line.len());
                let ghost h = hits(all.take(i as int), lowered@);
                let ghost before = out@;
                proof {
                    assert(copy@ =~= line@);
                    assert(hits(all.take(i + 1), lowered@) == h.push(line@));
                    assert(texts(before).len() == before.len());
                    assert(h.len() < 20);
                }
                out.push(copy);
                proof {
                    assert(texts(out@) =~= texts(before).push(line@));
                    assert(texts(out@) =~= first_n(hits(all.take(i + 1), lowered@), 20));
                }
            } else {
                proof {
                    assert(texts(out@) =~= first_n(hits(all.take(i + 1), lowered@), 20));
                }
            }
        } else {
            proof {
                assert(texts(out@) =~= first_n(hits(all.take(i + 1), lowered@), 20));
            }
        }
        i = i + 1;
    }
    proof {
        assert(all.take(lines@.len() as int) =~= all);
    }
    out
}

/// The indices of the lines that match `token`, in increasing order.
pub open spec fn hit_indices(lines: Seq<Seq<char>>, token: Seq<char>) -> Seq<int>
    decreases lines.len(),
{
    if lines.len() == 0 {
        Seq::empty()
    } else {
        let before = hit_indices(lines.drop_last(), token);
        if line_hit(lines.last(), token) is Some {
            before.push(lines.len() - 1)
        } else {
            before
        }
    }
}

/// The `k`-th match is the lowercased form of the `k`-th matching line, and
/// the matching lines are taken in increasing line order.
pub proof fn lemma_hits_in_order(lines: Seq<Seq<char>>, token: Seq<char>)
    ensures
        hits(lines, token).len() == hit_indices(lines, token).len(),
        forall|k: int|
            0 <= k < hit_indices(lines, token).len() ==> {
                let j = #[trigger] hit_indices(lines, token)[k];
                &&& 0 <= j < lines.len()
                &&& line_hit(lines[j], token) == Some(hits(lines, token)[k])
            },
        forall|a: int, b: int|
            0 <= a < b < hit_indices(lines, token).len() ==> #[trigger] hit_indices(lines, token)[a]
                < #[trigger] hit_indices(lines, token)[b],
    decreases lines.len(),
{
    if lines.len() > 0 {
        let init = lines.drop_last();
        lemma_hits_in_order(init, token);
        assert forall|k: int| 0 <= k < hit_indices(init, token).len() implies
            lines[hit_indices(init, token)[k]] == init[hit_indices(init, token)[k]] by {}
    }
}

/// A scan returns at most twenty lines, and they are matches taken in the
/// dictionary's order: the `k`-th result is the lowercased form of a matching
/// line whose index grows with `k`.
pub proof fn lemma_scan_bounded_in_order(lines: Seq<Seq<char>>, token: Seq<char>)
    ensures
        scan_of(lines, token).len() <= 20,
        token.len() >= 2 ==> {
            let idx = hit_indices(lines, lower_of(token));
            let r = scan_of(lines, token);
            &&& r.len() <= idx.len()
            &&& forall|k: int|
                0 <= k < r.len() ==> {
                    &&& 0 <= #[trigger] idx[k] < lines.len()
                    &&& r[k] == lower_of(lines[idx[k]])
                    &&& occurs_in(r[k], lower_of(token))
                }
            &&& forall|a: int, b: int| 0 <= a < b < r.len() ==> #[trigger] idx[a] < #[trigger] idx[b]
        },
{
    if token.len() >= 2 {
        let t = lower_of(token);
        lemma_hits_in_order(lines, t);
        let h = hits(lines, t);
        let idx = hit_indices(lines, t);
        let r = scan_of(lines, token);
        assert forall|k: int| 0 <= k < r.len() implies {
            &&& 0 <= #[trigger] idx[k] < lines.len()
            &&& r[k] == lower_of(lines[idx[k]])
            &&& occurs_in(r[k], t)
        } by {
            assert(r[k] == h[k]);
            assert(line_hit(lines[idx[k]], t) == Some(h[k]));
        }
    }
}

} // verus!
