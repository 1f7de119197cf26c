use vstd::prelude::*;

verus! {

/// Initial Elo score of a newly created rank.
pub const SCORE_INITIAL: i32 = 1200;

/// The scheduling record of one thing within one category.
///
/// The Elo score itself is a floating-point value and is kept by the caller;
/// this record carries what decides which things are drawn next.
#[derive(Clone, Copy, PartialEq, Eq, Debug)]
pub struct Rank {
    pub thing_id: i32,
    pub category_id: i32,
    /// Generation counter: ranks with a lower run are drawn first.
    pub run: i32,
    /// Random tie-break among ranks of the same run.
    pub shuffle: i32,
    /// Soft-deletion flag.
    pub deleted: bool,
}

/// `r` is a live rank of category `cat`.
pub open spec fn is_live_in(r: Rank, cat: i32) -> bool {
    !r.deleted && r.category_id == cat
}

/// Strict draw order of two ranks: by run, then by shuffle.
pub open spec fn key_lt(r: Rank, s: Rank) -> bool {
    r.run < s.run || (r.run == s.run && r.shuffle < s.shuffle)
}

/// Position `i` is drawn before position `j`: by key, and by position among
/// equal keys.
pub open spec fn drawn_before(ranks: Seq<Rank>, i: int, j: int) -> bool {
    key_lt(ranks[i], ranks[j]) || (!key_lt(ranks[j], ranks[i]) && i < j)
}

/// Position `i` holds a live rank of category `cat`.
pub open spec fn eligible(ranks: Seq<Rank>, cat: i32, i: int) -> bool {
    0 <= i < ranks.len() && is_live_in(ranks[i], cat)
}

/// Category `cat` has at least two live ranks.
pub open spec fn has_pair(ranks: Seq<Rank>, cat: i32) -> bool {
    exists|i: int, j: int| i != j && eligible(ranks, cat, i) && eligible(ranks, cat, j)
}

/// Position `i` is the first of category `cat` in draw order.
pub open spec fn is_first(ranks: Seq<Rank>, cat: i32, i: int) -> bool {
    &&& eligible(ranks, cat, i)
    &&& forall|j: int| #[trigger] eligible(ranks, cat, j) && j != i ==> drawn_before(ranks, i, j)
}

/// Position `k` is the second of category `cat` in draw order, after `i`.
pub open spec fn is_second(ranks: Seq<Rank>, cat: i32, i: int, k: int) -> bool {
    &&& eligible(ranks, cat, k)
    &&& k != i
    &&& forall|j: int|
        #[trigger] eligible(ranks, cat, j) && j != i && j != k ==> drawn_before(ranks, k, j)
}

fn precedes(ranks: &Vec<Rank>, i: usize, j: usize) -> (r: bool)
    requires
        i < ranks.len(),
        j < ranks.len(),
    ensures
        r == drawn_before(ranks@, i as int, j as int),
{
    let a = ranks[i];
    let b = ranks[j];
    if a.run < b.run || (a.run == b.run && a.shuffle < b.shuffle) {
        true
    } else if b.run < a.run || (b.run == a.run && b.shuffle < a.shuffle) {
        false
    } else {
        i < j
    }
}

/// Positions of the two ranks of category `cat` that come first in draw
/// order, or `None` when the category has fewer than two live ranks.
pub fn select_two(ranks: &Vec<Rank>, cat: i32) -> (r: Option<(usize, usize)>)
    ensures
        r is None <==> !has_pair(ranks@, cat),
        r matches Some((i, k)) ==> is_first(ranks@, cat, i as int) && is_second(
            ranks@,
            cat,
            i as int,
            k as int,
        ),
{
    let mut first: Option<usize> = None;
    let mut second: Option<usize> = None;
    let mut n: usize = 0;
    while n < ranks.len()
        invariant
            n <= ranks.len(),
            first is None ==> forall|j: int| 0 <= j < n ==> !#[trigger] eligible(ranks@, cat, j),
            second is Some ==> first is Some,
            first matches Some(i) ==> {
                &&& i < n
                &&& eligible(ranks@, cat, i as int)
                &&& forall|j: int|
                    0 <= j < n && #[trigger] eligible(ranks@, cat, j) && j != i ==> drawn_before(
                        ranks@,
                        i as int,
                        j,
                    )
            },
            first is Some && second is None ==> forall|j: int|
                0 <= j < n && #[trigger] eligible(ranks@, cat, j) ==> j == first.unwrap(),
            second matches Some(k) ==> {
                &&& k < n
                &&& eligible(ranks@, cat, k as int)
                &&& k != first.unwrap()
                &&& forall|j: int|
                    0 <= j < n && #[trigger] eligible(ranks@, cat, j) && j != first.unwrap() && j
                        != k ==> drawn_before(ranks@, k as int, j)
            },
        decreases ranks.len() - n,
    {
        let r = ranks[n];
        if !r.deleted && r.category_id == cat {
            match first {
                None => {
                    first = Some(n);
                },
                Some(i) => {
                    if precedes(ranks, n, i) {
                        second = first;
                        first = Some(n);
                    } else {
                        match second {
                            None => {
                                second = Some(n);
                            },
                            Some(k) => {
                                if precedes(ranks, n, k) {
                                    second = Some(n);
                                }
                            },
                        }
                    }
                },
            }
        }
        n = n + 1;
    }
    match (first, second) {
        (Some(i), Some(k)) => Some((i, k)),
        _ => None,
    }
}

} // verus!
