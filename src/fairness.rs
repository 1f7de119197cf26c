use vstd::prelude::*;
use crate::error::AppError;
use crate::rank::{Rank, eligible, has_pair, is_first, is_second, drawn_before};
use crate::store::{StoreModel, draw_outcome, first_of, second_of, next_run, marked_deleted, belongs_to};

verus! {

/// Among the positions below `n` that are eligible in `cat` and differ from
/// `excl`, one comes before all the others in draw order.
proof fn lemma_least_exists(ranks: Seq<Rank>, cat: i32, excl: int, n: int)
    requires
        0 <= n <= ranks.len(),
        exists|j: int| 0 <= j < n && j != excl && #[trigger] eligible(ranks, cat, j),
    ensures
        exists|i: int|
            0 <= i < n && i != excl && #[trigger] eligible(ranks, cat, i) && forall|j: int|
                0 <= j < n && j != excl && j != i && #[trigger] eligible(ranks, cat, j) ==> drawn_before(
                    ranks,
                    i,
                    j,
                ),
    decreases n,
{
    let last = n - 1;
    if exists|j: int| 0 <= j < last && j != excl && #[trigger] eligible(ranks, cat, j) {
        lemma_least_exists(ranks, cat, excl, last);
        let m = choose|i: int|
            0 <= i < last && i != excl && #[trigger] eligible(ranks, cat, i) && forall|j: int|
                0 <= j < last && j != excl && j != i && #[trigger] eligible(ranks, cat, j) ==> drawn_before(
                    ranks,
                    i,
                    j,
                );
        if last != excl && eligible(ranks, cat, last) && drawn_before(ranks, last, m) {
            assert forall|j: int|
                0 <= j < n && j != excl && j != last && #[trigger] eligible(ranks, cat, j) implies drawn_before(
                ranks,
                last,
                j,
            ) by {
                if j != m {
                    assert(drawn_before(ranks, m, j));
                }
            }
        } else {
            assert forall|j: int|
                0 <= j < n && j != excl && j != m && #[trigger] eligible(ranks, cat, j) implies drawn_before(
                ranks,
                m,
                j,
            ) by {
                if j < last {
                    assert(drawn_before(ranks, m, j));
                }
            }
        }
    } else {
        assert(last != excl && eligible(ranks, cat, last));
    }
}

/// A category with two live ranks has a first and a second in draw order.
pub proof fn lemma_draw_order_defined(ranks: Seq<Rank>, cat: i32)
    requires
        has_pair(ranks, cat),
    ensures
        is_first(ranks, cat, first_of(ranks, cat)),
        is_second(ranks, cat, first_of(ranks, cat), second_of(ranks, cat)),
{
    let (i0, j0) = choose|i: int, j: int| i != j && eligible(ranks, cat, i) && eligible(ranks, cat, j);
    lemma_least_exists(ranks, cat, -1, ranks.len() as int);
    let f = choose|i: int|
        0 <= i < ranks.len() && i != -1 && #[trigger] eligible(ranks, cat, i) && forall|j: int|
            0 <= j < ranks.len() && j != -1 && j != i && #[trigger] eligible(ranks, cat, j) ==> drawn_before(
                ranks,
                i,
                j,
            );
    assert(is_first(ranks, cat, f));
    let i = first_of(ranks, cat);
    let other = if i0 != i { i0 } else { j0 };
    assert(0 <= other < ranks.len() && other != i && eligible(ranks, cat, other));
    lemma_least_exists(ranks, cat, i, ranks.len() as int);
    let s = choose|k: int|
        0 <= k < ranks.len() && k != i && #[trigger] eligible(ranks, cat, k) && forall|j: int|
            0 <= j < ranks.len() && j != i && j != k && #[trigger] eligible(ranks, cat, j) ==> drawn_before(
                ranks,
                k,
                j,
            );
    assert(is_second(ranks, cat, i, s));
}

/// A draw gives both drawn ranks the run after the larger of theirs, so each
/// run strictly grows, and the drawn ranks had the least runs of the
/// category.
pub proof fn lemma_draw_advances_pair(m: StoreModel, cat: i32, sa: i32, sb: i32)
    requires
        draw_outcome(m, cat, sa, sb).1 is Ok,
    ensures
        ({
            let i = first_of(m.ranks, cat);
            let k = second_of(m.ranks, cat);
            let new = draw_outcome(m, cat, sa, sb).0.ranks;
            &&& i != k
            &&& new.len() == m.ranks.len()
            &&& new[i].run == next_run(m.ranks[i], m.ranks[k])
            &&& new[k].run == next_run(m.ranks[i], m.ranks[k])
            &&& new[i].run > m.ranks[i].run
            &&& new[k].run > m.ranks[k].run
            &&& new[i].shuffle == sa
            &&& new[k].shuffle == sb
            &&& forall|j: int|
                #[trigger] eligible(m.ranks, cat, j) && j != i && j != k ==> m.ranks[i].run
                    <= m.ranks[j].run && m.ranks[k].run <= m.ranks[j].run && new[j] == m.ranks[j]
        }),
{
    lemma_draw_order_defined(m.ranks, cat);
}

/// A category with fewer than two live ranks yields no pair, and the draw
/// changes nothing.
pub proof fn lemma_too_few_ranks(m: StoreModel, cat: i32, sa: i32, sb: i32)
    requires
        !has_pair(m.ranks, cat),
    ensures
        draw_outcome(m, cat, sa, sb) == (m, Err::<(Rank, Rank), AppError>(AppError::NotEnoughThings)),
{
}

/// Once every rank of category `cat` is marked deleted, drawing from it
/// fails with `NotEnoughThings` and changes nothing.
pub proof fn lemma_deleted_category_draws_nothing(old: Seq<Rank>, m: StoreModel, cat: i32, sa: i32, sb: i32)
    requires
        marked_deleted(old, m.ranks, true, cat),
    ensures
        !has_pair(m.ranks, cat),
        draw_outcome(m, cat, sa, sb) == (m, Err::<(Rank, Rank), AppError>(AppError::NotEnoughThings)),
{
    assert forall|j: int| !#[trigger] eligible(m.ranks, cat, j) by {
        if 0 <= j < m.ranks.len() {
            assert(m.ranks[j] == if belongs_to(old[j], true, cat) {
                Rank { deleted: true, ..old[j] }
            } else {
                old[j]
            });
        }
    }
}

/// Number of positions below `n` that hold a live rank of category `cat`
/// at run `run`.
pub open spec fn count_at_run(ranks: Seq<Rank>, cat: i32, run: int, n: int) -> nat
    decreases n,
{
    if n <= 0 {
        0
    } else {
        count_at_run(ranks, cat, run, n - 1) + if eligible(ranks, cat, n - 1) && ranks[n - 1].run == run {
            1nat
        } else {
            0nat
        }
    }
}

/// The store after successive draws from category `cat`, one per pair of
/// tie-breaks in `shuffles`.
pub open spec fn draws(m: StoreModel, cat: i32, shuffles: Seq<(i32, i32)>) -> StoreModel
    decreases shuffles.len(),
{
    if shuffles.len() == 0 {
        m
    } else {
        draws(draw_outcome(m, cat, shuffles[0].0, shuffles[0].1).0, cat, shuffles.drop_first())
    }
}

/// More positions at run `run` than position `i` accounts for: another one
/// exists.
proof fn lemma_count_other(ranks: Seq<Rank>, cat: i32, run: int, n: int, i: int)
    requires
        n <= ranks.len(),
        count_at_run(ranks, cat, run, n) > (if 0 <= i < n && eligible(ranks, cat, i) && ranks[i].run == run {
            1nat
        } else {
            0nat
        }),
    ensures
        exists|j: int| 0 <= j < n && j != i && #[trigger] eligible(ranks, cat, j) && ranks[j].run == run,
    decreases n,
{
    if n > 0 {
        let last = n - 1;
        if last != i && eligible(ranks, cat, last) && ranks[last].run == run {
        } else {
            lemma_count_other(ranks, cat, run, last, i);
        }
    }
}

/// No position at run `run` is counted: none exists.
proof fn lemma_count_zero(ranks: Seq<Rank>, cat: i32, run: int, n: int)
    requires
        n <= ranks.len(),
        count_at_run(ranks, cat, run, n) == 0,
    ensures
        forall|j: int| 0 <= j < n && #[trigger] eligible(ranks, cat, j) ==> ranks[j].run != run,
    decreases n,
{
    if n > 0 {
        lemma_count_zero(ranks, cat, run, n - 1);
    }
}

/// Moving one live rank away from run `run` lowers the count by one.
proof fn lemma_count_update(ranks: Seq<Rank>, cat: i32, run: int, p: int, x: Rank, n: int)
    requires
        0 <= p < ranks.len(),
        n <= ranks.len(),
        eligible(ranks, cat, p),
        ranks[p].run == run,
        x.deleted == ranks[p].deleted,
        x.category_id == ranks[p].category_id,
        x.run != run,
    ensures
        count_at_run(ranks.update(p, x), cat, run, n) + (if 0 <= p < n {
            1nat
        } else {
            0nat
        }) == count_at_run(ranks, cat, run, n),
    decreases n,
{
    if n > 0 {
        lemma_count_update(ranks, cat, run, p, x, n - 1);
    }
}

/// Starvation-freedom of the draw: take a category whose live ranks all
/// stand at run `run` or `run + 1`, with `2 * N` of them at `run`. Then `N`
/// successive draws, whatever their tie-breaks, present each of those `2 * N`
/// ranks, so that afterwards every live rank of the category stands at
/// `run + 1`. In particular no rank is presented a second time before all of
/// them have been presented once.
pub proof fn lemma_round_presents_all(m: StoreModel, cat: i32, run: i32, shuffles: Seq<(i32, i32)>)
    requires
        run < i32::MAX,
        forall|j: int|
            #[trigger] eligible(m.ranks, cat, j) ==> m.ranks[j].run == run || m.ranks[j].run == run + 1,
        count_at_run(m.ranks, cat, run as int, m.ranks.len() as int) == 2 * shuffles.len(),
    ensures
        forall|j: int|
            #[trigger] eligible(draws(m, cat, shuffles).ranks, cat, j) ==> draws(m, cat, shuffles).ranks[j].run
                == run + 1,
    decreases shuffles.len(),
{
    let len = m.ranks.len() as int;
    if shuffles.len() == 0 {
        lemma_count_zero(m.ranks, cat, run as int, len);
    } else {
        let sa = shuffles[0].0;
        let sb = shuffles[0].1;
        lemma_count_other(m.ranks, cat, run as int, len, -1);
        let j0 = choose|j: int| 0 <= j < len && j != -1 && #[trigger] eligible(m.ranks, cat, j) && m.ranks[j].run == run;
        lemma_count_other(m.ranks, cat, run as int, len, j0);
        let j1 = choose|j: int| 0 <= j < len && j != j0 && #[trigger] eligible(m.ranks, cat, j) && m.ranks[j].run == run;
        assert(has_pair(m.ranks, cat));
        lemma_draw_order_defined(m.ranks, cat);
        let i = first_of(m.ranks, cat);
        let k = second_of(m.ranks, cat);
        if j0 != i {
            assert(drawn_before(m.ranks, i, j0));
        }
        assert(m.ranks[i].run == run);
        lemma_count_other(m.ranks, cat, run as int, len, i);
        let j2 = choose|j: int| 0 <= j < len && j != i && #[trigger] eligible(m.ranks, cat, j) && m.ranks[j].run == run;
        if j2 != k {
            assert(drawn_before(m.ranks, k, j2));
        }
        assert(m.ranks[k].run == run);
        let a = m.ranks[i];
        let b = m.ranks[k];
        let nr = (run + 1) as i32;
        let xa = Rank { run: nr, shuffle: sa, ..a };
        let xb = Rank { run: nr, shuffle: sb, ..b };
        let mid = m.ranks.update(i, xa);
        let new = mid.update(k, xb);
        lemma_count_update(m.ranks, cat, run as int, i, xa, len);
        lemma_count_update(mid, cat, run as int, k, xb, len);
        let m2 = draw_outcome(m, cat, sa, sb).0;
        assert(m2.ranks == new);
        assert forall|j: int| #[trigger] eligible(m2.ranks, cat, j) implies m2.ranks[j].run == run
            || m2.ranks[j].run == run + 1 by {
            if j != i && j != k {
                assert(eligible(m.ranks, cat, j));
            }
        }
        lemma_round_presents_all(m2, cat, run, shuffles.drop_first());
        assert(draws(m, cat, shuffles) == draws(m2, cat, shuffles.drop_first()));
    }
}

} // verus!
