use std::collections::HashMap;
use vstd::prelude::*;
use crate::error::AppError;
use crate::rank::{Rank, eligible, has_pair, is_first, is_second, is_live_in, drawn_before, key_lt, select_two};

verus! {

broadcast use vstd::std_specs::hash::group_hash_axioms;

/// The pair of things currently presented to one account.
#[derive(Clone, Copy, PartialEq, Eq, Structural, Debug)]
pub struct Pairing {
    pub category_id: i32,
    pub thing_id_a: i32,
    pub thing_id_b: i32,
}

/// Abstract state of a [`Store`].
pub struct StoreModel {
    /// Category ids ever created, mapped to whether they are live.
    pub categories: Map<i32, bool>,
    /// Thing ids ever created, mapped to whether they are live.
    pub things: Map<i32, bool>,
    /// Every rank row, soft-deleted ones included, in insertion order.
    pub ranks: Seq<Rank>,
    /// The pairing row of each account that is polling.
    pub polls: Map<i32, Pairing>,
}

impl StoreModel {
    pub open spec fn live_category(self, id: i32) -> bool {
        self.categories.contains_key(id) && self.categories[id]
    }

    pub open spec fn live_thing(self, id: i32) -> bool {
        self.things.contains_key(id) && self.things[id]
    }

    /// Some live rank ties thing `thing` to category `cat`.
    pub open spec fn has_live_rank(self, thing: i32, cat: i32) -> bool {
        exists|i: int|
            0 <= i < self.ranks.len() && #[trigger] is_live_in(self.ranks[i], cat)
                && self.ranks[i].thing_id == thing
    }

    /// At most one live rank per (thing, category), and no pairing of a
    /// thing with itself.
    pub open spec fn wf(self) -> bool {
        &&& forall|i: int, j: int|
            0 <= i < self.ranks.len() && 0 <= j < self.ranks.len() && i != j
                && !(#[trigger] self.ranks[i]).deleted && !(#[trigger] self.ranks[j]).deleted
                && self.ranks[i].category_id == self.ranks[j].category_id ==> self.ranks[i].thing_id
                != self.ranks[j].thing_id
        &&& forall|a: i32| #[trigger]
            self.polls.contains_key(a) ==> self.polls[a].thing_id_a != self.polls[a].thing_id_b
    }
}

/// `x` is a live rank of category `cat` among `ranks`.
pub open spec fn is_live_rank_of(ranks: Seq<Rank>, cat: i32, x: Rank) -> bool {
    exists|p: int| #[trigger] eligible(ranks, cat, p) && ranks[p] == x
}

/// Run given to a new rank of category `cat`: the least run among the live
/// ranks of the category, or zero when it has none.
pub open spec fn is_entry_run(ranks: Seq<Rank>, cat: i32, run: i32) -> bool {
    ||| (forall|j: int| !#[trigger] eligible(ranks, cat, j)) && run == 0
    ||| (exists|i: int| #[trigger] eligible(ranks, cat, i) && ranks[i].run == run) && (forall|
        j: int,
    | #[trigger] eligible(ranks, cat, j) ==> run <= ranks[j].run)
}

/// Draw order is strict: no two positions come before each other.
pub proof fn lemma_drawn_before_asymmetric(ranks: Seq<Rank>, i: int, j: int)
    requires
        i != j,
    ensures
        !(drawn_before(ranks, i, j) && drawn_before(ranks, j, i)),
{
}

/// The first position in draw order is unique.
pub proof fn lemma_first_unique(ranks: Seq<Rank>, cat: i32, i: int, i2: int)
    requires
        is_first(ranks, cat, i),
        is_first(ranks, cat, i2),
    ensures
        i == i2,
{
    if i != i2 {
        assert(eligible(ranks, cat, i2));
        assert(eligible(ranks, cat, i));
        lemma_drawn_before_asymmetric(ranks, i, i2);
    }
}

/// The second position in draw order is unique.
pub proof fn lemma_second_unique(ranks: Seq<Rank>, cat: i32, i: int, k: int, k2: int)
    requires
        is_second(ranks, cat, i, k),
        is_second(ranks, cat, i, k2),
    ensures
        k == k2,
{
    if k != k2 {
        assert(eligible(ranks, cat, k2));
        assert(eligible(ranks, cat, k));
        lemma_drawn_before_asymmetric(ranks, k, k2);
    }
}

/// Position of the rank drawn first from category `cat`.
pub open spec fn first_of(ranks: Seq<Rank>, cat: i32) -> int {
    choose|i: int| is_first(ranks, cat, i)
}

/// Position of the rank drawn second from category `cat`.
pub open spec fn second_of(ranks: Seq<Rank>, cat: i32) -> int {
    choose|k: int| is_second(ranks, cat, first_of(ranks, cat), k)
}

/// Run given to both ranks of a drawn pair.
pub open spec fn next_run(a: Rank, b: Rank) -> int {
    if a.run >= b.run {
        a.run + 1
    } else {
        b.run + 1
    }
}

/// Rank `r` with run `run` and tie-break `shuffle`.
pub open spec fn advanced(r: Rank, run: i32, shuffle: i32) -> Rank {
    Rank { run, shuffle, ..r }
}

/// Outcome of drawing two ranks from category `cat`, where `sa` and `sb`
/// are the fresh tie-break values of the first and of the second.
pub open spec fn draw_outcome(m: StoreModel, cat: i32, sa: i32, sb: i32) -> (StoreModel, Result<(Rank, Rank), AppError>) {
    if !has_pair(m.ranks, cat) {
        (m, Err(AppError::NotEnoughThings))
    } else {
        let i = first_of(m.ranks, cat);
        let k = second_of(m.ranks, cat);
        let a = m.ranks[i];
        let b = m.ranks[k];
        if next_run(a, b) > i32::MAX {
            (m, Err(AppError::RunOutOfRange))
        } else {
            let run = next_run(a, b) as i32;
            (
                StoreModel {
                    ranks: m.ranks.update(i, advanced(a, run, sa)).update(k, advanced(b, run, sb)),
                    ..m
                },
                Ok((a, b)),
            )
        }
    }
}

/// The rank that `create_rank` adds for thing `thing` in category `cat`.
pub open spec fn new_rank(thing: i32, cat: i32, run: i32, shuffle: i32) -> Rank {
    Rank { thing_id: thing, category_id: cat, run, shuffle, deleted: false }
}

/// Rank `r` belongs to category `id` (when `by_category`) or to thing `id`.
pub open spec fn belongs_to(r: Rank, by_category: bool, id: i32) -> bool {
    if by_category {
        r.category_id == id
    } else {
        r.thing_id == id
    }
}

/// `new` is `old` with the soft-deletion flag set on every rank that belongs
/// to category `id` (when `by_category`) or to thing `id`.
pub open spec fn marked_deleted(old: Seq<Rank>, new: Seq<Rank>, by_category: bool, id: i32) -> bool {
    &&& new.len() == old.len()
    &&& forall|i: int|
        0 <= i < old.len() ==> #[trigger] new[i] == if belongs_to(old[i], by_category, id) {
            Rank { deleted: true, ..old[i] }
        } else {
            old[i]
        }
}

/// Relies on rand::random: an arbitrary `i32` from the thread-local generator.
#[verifier::external_body]
pub(crate) fn random_shuffle() -> (r: i32) {
    rand::random::<i32>()
}

/// The persistent state of the ranking engine: categories, things, their
/// ranks, and the pairing of each polling account.
pub struct Store {
    categories: HashMap<i32, bool>,
    things: HashMap<i32, bool>,
    ranks: Vec<Rank>,
    polls: HashMap<i32, Pairing>,
}

impl View for Store {
    type V = StoreModel;

    closed spec fn view(&self) -> StoreModel {
        StoreModel {
            categories: self.categories@,
            things: self.things@,
            ranks: self.ranks@,
            polls: self.polls@,
        }
    }
}

impl Store {
    pub open spec fn wf(&self) -> bool {
        self@.wf()
    }

    /// An empty store.
    pub fn new() -> (r: Store)
        ensures
            r.wf(),
            r@.categories == Map::<i32, bool>::empty(),
            r@.things == Map::<i32, bool>::empty(),
            r@.ranks == Seq::<Rank>::empty(),
            r@.polls == Map::<i32, Pairing>::empty(),
    {
        Store {
            categories: HashMap::new(),
            things: HashMap::new(),
            ranks: Vec::new(),
            polls: HashMap::new(),
        }
    }

    /// Registers a live category under `id`; ids are never reused.
    pub fn create_category(&mut self, id: i32) -> (r: Result<(), AppError>)
        requires
            old(self).wf(),
        ensures
            final(self).wf(),
            r is Err <==> old(self)@.categories.contains_key(id),
            r is Err ==> r == Err::<(), AppError>(AppError::DuplicateRecord) && final(self)@ == old(self)@,
            r is Ok ==> final(self)@ == (StoreModel { categories: old(self)@.categories.insert(id, true), ..old(self)@ }),
    {
        if self.categories.contains_key(&id) {
            Err(AppError::DuplicateRecord)
        } else {
            let ghost o = self@;
            self.categories.insert(id, true);
            assert(self@.ranks == o.ranks && self@.polls == o.polls);
            Ok(())
        }
    }

    /// Registers a live thing under `id`; ids are never reused.
    pub fn create_thing(&mut self, id: i32) -> (r: Result<(), AppError>)
        requires
            old(self).wf(),
        ensures
            final(self).wf(),
            r is Err <==> old(self)@.things.contains_key(id),
            r is Err ==> r == Err::<(), AppError>(AppError::DuplicateRecord) && final(self)@ == old(self)@,
            r is Ok ==> final(self)@ == (StoreModel { things: old(self)@.things.insert(id, true), ..old(self)@ }),
    {
        if self.things.contains_key(&id) {
            Err(AppError::DuplicateRecord)
        } else {
            let ghost o = self@;
            self.things.insert(id, true);
            assert(self@.ranks == o.ranks && self@.polls == o.polls);
            Ok(())
        }
    }

    /// Sets the soft-deletion flag of every rank of category `id` (when
    /// `by_category`) or of thing `id`.
    fn mark_ranks(&mut self, by_category: bool, id: i32)
        requires
            old(self).wf(),
        ensures
            final(self).wf(),
            final(self)@ == (StoreModel { ranks: final(self)@.ranks, ..old(self)@ }),
            marked_deleted(old(self)@.ranks, final(self)@.ranks, by_category, id),
    {
        let ghost start = self@;
        let mut n: usize = 0;
        while n < self.ranks.len()
            invariant
                n <= self.ranks.len(),
                self@.ranks.len() == start.ranks.len(),
                self@ == (StoreModel { ranks: self@.ranks, ..start }),
                start.wf(),
                forall|i: int|
                    0 <= i < n ==> #[trigger] self@.ranks[i] == if belongs_to(start.ranks[i], by_category, id) {
                        Rank { deleted: true, ..start.ranks[i] }
                    } else {
                        start.ranks[i]
                    },
                forall|i: int| n <= i < self@.ranks.len() ==> #[trigger] self@.ranks[i] == start.ranks[i],
            decreases self.ranks.len() - n,
        {
            let r = self.ranks[n];
            let hit_here = if by_category { r.category_id == id } else { r.thing_id == id };
            if hit_here {
                self.ranks.set(n, Rank { deleted: true, ..r });
            }
            n = n + 1;
        }
        proof {
            assert forall|i: int, j: int|
                0 <= i < self@.ranks.len() && 0 <= j < self@.ranks.len() && i != j
                    && !(#[trigger] self@.ranks[i]).deleted && !(#[trigger] self@.ranks[j]).deleted
                    && self@.ranks[i].category_id == self@.ranks[j].category_id implies self@.ranks[i].thing_id
                    != self@.ranks[j].thing_id by {
                assert(!start.ranks[i].deleted && !start.ranks[j].deleted);
            }
        }
    }

    /// Soft-deletes category `id` and every rank in it.
    pub fn delete_category(&mut self, id: i32) -> (r: Result<(), AppError>)
        requires
            old(self).wf(),
        ensures
            final(self).wf(),
            r is Err <==> !old(self)@.live_category(id),
            r is Err ==> r == Err::<(), AppError>(AppError::CategoryNotFound) && final(self)@ == old(self)@,
            r is Ok ==> {
                &&& final(self)@.categories == old(self)@.categories.insert(id, false)
                &&& final(self)@.things == old(self)@.things
                &&& final(self)@.polls == old(self)@.polls
                &&& marked_deleted(old(self)@.ranks, final(self)@.ranks, true, id)
            },
    {
        let live = match self.categories.get(&id) {
            Some(live) => *live,
            None => false,
        };
        if !live {
            return Err(AppError::CategoryNotFound);
        }
        let ghost o = self@;
        self.categories.insert(id, false);
        assert(self@.ranks == o.ranks && self@.polls == o.polls);
        self.mark_ranks(true, id);
        Ok(())
    }

    /// Soft-deletes thing `id` and every rank of it.
    pub fn delete_thing(&mut self, id: i32) -> (r: Result<(), AppError>)
        requires
            old(self).wf(),
        ensures
            final(self).wf(),
            r is Err <==> !old(self)@.live_thing(id),
            r is Err ==> r == Err::<(), AppError>(AppError::ThingNotFound) && final(self)@ == old(self)@,
            r is Ok ==> {
                &&& final(self)@.things == old(self)@.things.insert(id, false)
                &&& final(self)@.categories == old(self)@.categories
                &&& final(self)@.polls == old(self)@.polls
                &&& marked_deleted(old(self)@.ranks, final(self)@.ranks, false, id)
            },
    {
        let live = match self.things.get(&id) {
            Some(live) => *live,
            None => false,
        };
        if !live {
            return Err(AppError::ThingNotFound);
        }
        let ghost o = self@;
        self.things.insert(id, false);
        assert(self@.ranks == o.ranks && self@.polls == o.polls);
        self.mark_ranks(false, id);
        Ok(())
    }

    /// The run that a new rank of category `cat` starts at.
    pub fn entry_run(&self, cat: i32) -> (r: i32)
        ensures
            is_entry_run(self@.ranks, cat, r),
    {
        let mut best: Option<usize> = None;
        let mut n: usize = 0;
        while n < self.ranks.len()
            invariant
                n <= self.ranks.len(),
                best is None ==> forall|j: int| 0 <= j < n ==> !#[trigger] eligible(self@.ranks, cat, j),
                best matches Some(b) ==> b < n && eligible(self@.ranks, cat, b as int) && forall|j: int|
                    0 <= j < n && #[trigger] eligible(self@.ranks, cat, j) ==> self@.ranks[b as int].run
                        <= self@.ranks[j].run,
            decreases self.ranks.len() - n,
        {
            let r = self.ranks[n];
            if !r.deleted && r.category_id == cat {
                match best {
                    None => {
                        best = Some(n);
                    },
                    Some(b) => {
                        if r.run < self.ranks[b].run {
                            best = Some(n);
                        }
                    },
                }
            }
            n = n + 1;
        }
        match best {
            None => 0,
            Some(b) => {
                assert(eligible(self@.ranks, cat, b as int));
                self.ranks[b].run
            },
        }
    }

    /// Whether a live rank ties thing `thing` to category `cat`.
    pub fn has_live_rank(&self, thing: i32, cat: i32) -> (r: bool)
        ensures
            r == self@.has_live_rank(thing, cat),
    {
        let mut n: usize = 0;
        while n < self.ranks.len()
            invariant
                n <= self.ranks.len(),
                forall|j: int|
                    0 <= j < n ==> !(#[trigger] is_live_in(self@.ranks[j], cat) && self@.ranks[j].thing_id == thing),
            decreases self.ranks.len() - n,
        {
            let r = self.ranks[n];
            if !r.deleted && r.category_id == cat && r.thing_id == thing {
                assert(is_live_in(self@.ranks[n as int], cat));
                return true;
            }
            n = n + 1;
        }
        false
    }

    /// Ranks thing `thing` in category `cat`, starting at the entry run of
    /// the category with tie-break `shuffle`.
    pub fn create_rank_with(&mut self, thing: i32, cat: i32, shuffle: i32) -> (r: Result<Rank, AppError>)
        requires
            old(self).wf(),
        ensures
            final(self).wf(),
            !(old(self)@.live_thing(thing) && old(self)@.live_category(cat)) ==> r == Err::<Rank, AppError>(
                AppError::ThingOrCategoryNotFound,
            ),
            old(self)@.live_thing(thing) && old(self)@.live_category(cat) && old(self)@.has_live_rank(thing, cat)
                ==> r == Err::<Rank, AppError>(AppError::DuplicateRecord),
            r is Err ==> final(self)@ == old(self)@,
            r is Ok <==> old(self)@.live_thing(thing) && old(self)@.live_category(cat)
                && !old(self)@.has_live_rank(thing, cat),
            r matches Ok(rank) ==> {
                &&& rank == new_rank(thing, cat, rank.run, shuffle)
                &&& is_entry_run(old(self)@.ranks, cat, rank.run)
                &&& final(self)@ == (StoreModel { ranks: old(self)@.ranks.push(rank), ..old(self)@ })
            },
    {
        let thing_live = match self.things.get(&thing) {
            Some(live) => *live,
            None => false,
        };
        let cat_live = match self.categories.get(&cat) {
            Some(live) => *live,
            None => false,
        };
        if !(thing_live && cat_live) {
            return Err(AppError::ThingOrCategoryNotFound);
        }
        if self.has_live_rank(thing, cat) {
            return Err(AppError::DuplicateRecord);
        }
        let run = self.entry_run(cat);
        let rank = Rank { thing_id: thing, category_id: cat, run, shuffle, deleted: false };
        let ghost before = self@;
        self.ranks.push(rank);
        proof {
            assert forall|i: int, j: int|
                0 <= i < self@.ranks.len() && 0 <= j < self@.ranks.len() && i != j
                    && !(#[trigger] self@.ranks[i]).deleted && !(#[trigger] self@.ranks[j]).deleted
                    && self@.ranks[i].category_id == self@.ranks[j].category_id implies self@.ranks[i].thing_id
                    != self@.ranks[j].thing_id by {
                let last = before.ranks.len() as int;
                if i == last {
                    assert(is_live_in(before.ranks[j], cat));
                } else if j == last {
                    assert(is_live_in(before.ranks[i], cat));
                }
            }
        }
        Ok(rank)
    }

    /// [`Store::create_rank_with`] with a tie-break drawn at random.
    pub fn create_rank(&mut self, thing: i32, cat: i32) -> (r: Result<Rank, AppError>)
        requires
            old(self).wf(),
        ensures
            final(self).wf(),
            !(old(self)@.live_thing(thing) && old(self)@.live_category(cat)) ==> r == Err::<Rank, AppError>(
                AppError::ThingOrCategoryNotFound,
            ),
            old(self)@.live_thing(thing) && old(self)@.live_category(cat) && old(self)@.has_live_rank(thing, cat)
                ==> r == Err::<Rank, AppError>(AppError::DuplicateRecord),
            r is Err ==> final(self)@ == old(self)@,
            r is Ok <==> old(self)@.live_thing(thing) && old(self)@.live_category(cat)
                && !old(self)@.has_live_rank(thing, cat),
            r matches Ok(rank) ==> {
                &&& rank == new_rank(thing, cat, rank.run, rank.shuffle)
                &&& is_entry_run(old(self)@.ranks, cat, rank.run)
                &&& final(self)@ == (StoreModel { ranks: old(self)@.ranks.push(rank), ..old(self)@ })
            },
    {
        let shuffle = random_shuffle();
        self.create_rank_with(thing, cat, shuffle)
    }

    /// Whether category `id` is live.
    pub fn category_exists(&self, id: i32) -> (r: bool)
        ensures
            r == self@.live_category(id),
    {
        match self.categories.get(&id) {
            Some(live) => *live,
            None => false,
        }
    }

    /// The live rank of thing `thing` in category `cat`, if any.
    pub fn rank_of(&self, thing: i32, cat: i32) -> (r: Option<Rank>)
        ensures
            r is None <==> !self@.has_live_rank(thing, cat),
            r matches Some(rank) ==> is_live_in(rank, cat) && rank.thing_id == thing && self@.ranks.contains(rank),
    {
        let mut n: usize = 0;
        while n < self.ranks.len()
            invariant
                n <= self.ranks.len(),
                forall|j: int|
                    0 <= j < n ==> !(#[trigger] is_live_in(self@.ranks[j], cat) && self@.ranks[j].thing_id == thing),
            decreases self.ranks.len() - n,
        {
            let r = self.ranks[n];
            if !r.deleted && r.category_id == cat && r.thing_id == thing {
                assert(is_live_in(self@.ranks[n as int], cat));
                assert(self@.ranks[n as int] == r);
                return Some(r);
            }
            n = n + 1;
        }
        None
    }

    /// The pairing of account `account`, if it is polling.
    pub fn pairing_of(&self, account: i32) -> (r: Option<Pairing>)
        ensures
            r is None <==> !self@.polls.contains_key(account),
            r matches Some(p) ==> self@.polls[account] == p,
    {
        match self.polls.get(&account) {
            Some(p) => Some(*p),
            None => None,
        }
    }

    /// Stores `p` as the pairing of `account`, replacing any earlier one.
    pub(crate) fn put_pairing(&mut self, account: i32, p: Pairing)
        requires
            old(self).wf(),
            p.thing_id_a != p.thing_id_b,
        ensures
            final(self).wf(),
            final(self)@ == (StoreModel { polls: old(self)@.polls.insert(account, p), ..old(self)@ }),
    {
        let ghost o = self@;
        self.polls.insert(account, p);
        assert(self@.ranks == o.ranks);
    }

    /// Removes and returns the pairing of `account`.
    pub(crate) fn take_pairing(&mut self, account: i32) -> (r: Option<Pairing>)
        requires
            old(self).wf(),
        ensures
            final(self).wf(),
            r is None <==> !old(self)@.polls.contains_key(account),
            r is None ==> final(self)@ == old(self)@,
            r matches Some(p) ==> p == old(self)@.polls[account] && final(self)@ == (StoreModel {
                polls: old(self)@.polls.remove(account),
                ..old(self)@
            }),
    {
        let ghost o = self@;
        let r = self.polls.remove(&account);
        assert(self@.ranks == o.ranks);
        proof {
            if r is None {
                assert(self@.polls =~= o.polls);
            }
        }
        r
    }

    /// Soft-deletes the live rank of thing `thing` in category `cat`.
    pub fn delete_rank(&mut self, thing: i32, cat: i32) -> (r: Result<(), AppError>)
        requires
            old(self).wf(),
        ensures
            final(self).wf(),
            r is Err <==> !old(self)@.has_live_rank(thing, cat),
            r is Err ==> r == Err::<(), AppError>(AppError::RankNotFound) && final(self)@ == old(self)@,
            r is Ok ==> exists|i: int|
                0 <= i < old(self)@.ranks.len() && #[trigger] is_live_in(old(self)@.ranks[i], cat)
                    && old(self)@.ranks[i].thing_id == thing && final(self)@ == (StoreModel {
                    ranks: old(self)@.ranks.update(i, Rank { deleted: true, ..old(self)@.ranks[i] }),
                    ..old(self)@
                }),
    {
        let mut n: usize = 0;
        while n < self.ranks.len()
            invariant
                n <= self.ranks.len(),
                forall|j: int|
                    0 <= j < n ==> !(#[trigger] is_live_in(self@.ranks[j], cat) && self@.ranks[j].thing_id == thing),
                self@ == old(self)@,
                old(self)@.wf(),
            decreases self.ranks.len() - n,
        {
            let r = self.ranks[n];
            if !r.deleted && r.category_id == cat && r.thing_id == thing {
                let ghost o = self@;
                assert(is_live_in(o.ranks[n as int], cat));
                self.ranks.set(n, Rank { deleted: true, ..r });
                proof {
                    assert(self@ == (StoreModel { ranks: o.ranks.update(n as int, Rank { deleted: true, ..r }), ..o }));
                    assert forall|i: int, j: int|
                        0 <= i < self@.ranks.len() && 0 <= j < self@.ranks.len() && i != j
                            && !(#[trigger] self@.ranks[i]).deleted && !(#[trigger] self@.ranks[j]).deleted
                            && self@.ranks[i].category_id == self@.ranks[j].category_id implies self@.ranks[i].thing_id
                            != self@.ranks[j].thing_id by {
                        assert(!o.ranks[i].deleted && !o.ranks[j].deleted);
                    }
                }
                return Ok(());
            }
            n = n + 1;
        }
        Err(AppError::RankNotFound)
    }

    /// The live ranks of category `cat`, in draw order: by run, then by
    /// shuffle.
    pub fn live_ranks_ordered(&self, cat: i32) -> (r: Vec<Rank>)
        requires
            self.wf(),
        ensures
            forall|i: int, j: int| 0 <= i < j < r@.len() ==> !key_lt(r@[j], r@[i]),
            r@.no_duplicates(),
            forall|p: int| #[trigger] eligible(self@.ranks, cat, p) ==> r@.contains(self@.ranks[p]),
            forall|i: int| 0 <= i < r@.len() ==> is_live_rank_of(self@.ranks, cat, #[trigger] r@[i]),
    {
        let mut r: Vec<Rank> = Vec::new();
        let ghost mut from: Seq<int> = Seq::empty();
        let mut n: usize = 0;
        while n < self.ranks.len()
            invariant
                n <= self.ranks.len(),
                self.wf(),
                forall|i: int, j: int| 0 <= i < j < r@.len() ==> !key_lt(r@[j], r@[i]),
                r@.no_duplicates(),
                forall|p: int| 0 <= p < n && #[trigger] eligible(self@.ranks, cat, p) ==> r@.contains(self@.ranks[p]),
                from.len() == r@.len(),
                forall|i: int|
                    0 <= i < r@.len() ==> 0 <= #[trigger] from[i] < n && eligible(self@.ranks, cat, from[i])
                        && self@.ranks[from[i]] == r@[i],
            decreases self.ranks.len() - n,
        {
            let x = self.ranks[n];
            if !x.deleted && x.category_id == cat {
                assert(eligible(self@.ranks, cat, n as int));
                assert(!r@.contains(x)) by {
                    if r@.contains(x) {
                        let i = choose|i: int| 0 <= i < r@.len() && r@[i] == x;
                        let p = from[i];
                        assert(!(#[trigger] self@.ranks[p]).deleted && !(#[trigger] self@.ranks[n as int]).deleted);
                    }
                }
                let mut pos: usize = 0;
                while pos < r.len() && !(x.run < r[pos].run || (x.run == r[pos].run && x.shuffle < r[pos].shuffle))
                    invariant
                        pos <= r@.len(),
                        forall|i: int| 0 <= i < pos ==> !key_lt(x, r@[i]),
                    decreases r@.len() - pos,
                {
                    pos = pos + 1;
                }
                let ghost before = r@;
                let ghost from_before = from;
                r.insert(pos, x);
                proof {
                    from = from.insert(pos as int, n as int);
                    assert(r@ == before.insert(pos as int, x));
                    assert forall|i: int, j: int| 0 <= i < j < r@.len() implies !key_lt(r@[j], r@[i]) by {
                        if j < pos {
                        } else if j == pos {
                        } else if i < pos {
                            assert(r@[j] == before[j - 1]);
                            if pos < before.len() {
                                assert(key_lt(x, before[pos as int]));
                            }
                        } else if i == pos {
                            assert(key_lt(x, before[pos as int]));
                            assert(r@[j] == before[j - 1]);
                            if j - 1 > pos {
                                assert(!key_lt(before[j - 1], before[pos as int]));
                            }
                        } else {
                            assert(r@[i] == before[i - 1] && r@[j] == before[j - 1]);
                        }
                    }
                    assert forall|i: int, j: int| 0 <= i < r@.len() && 0 <= j < r@.len() && i != j implies r@[i] != r@[j] by {
                        if i != pos as int && j != pos as int {
                            let bi = if i < pos { i } else { i - 1 };
                            let bj = if j < pos { j } else { j - 1 };
                            assert(r@[i] == before[bi] && r@[j] == before[bj]);
                        } else if i == pos as int {
                            let bj = if j < pos { j } else { j - 1 };
                            assert(r@[j] == before[bj]);
                            assert(before.contains(before[bj]));
                        } else {
                            let bi = if i < pos { i } else { i - 1 };
                            assert(r@[i] == before[bi]);
                            assert(before.contains(before[bi]));
                        }
                    }
                    assert forall|p: int| 0 <= p < n + 1 && #[trigger] eligible(self@.ranks, cat, p) implies r@.contains(
                        self@.ranks[p],
                    ) by {
                        if p == n as int {
                            assert(r@[pos as int] == x);
                        } else {
                            let i = choose|i: int| 0 <= i < before.len() && before[i] == self@.ranks[p];
                            let k = if i < pos { i } else { i + 1 };
                            assert(r@[k] == before[i]);
                        }
                    }
                    assert forall|i: int| 0 <= i < r@.len() implies 0 <= #[trigger] from[i] < n + 1 && eligible(
                        self@.ranks,
                        cat,
                        from[i],
                    ) && self@.ranks[from[i]] == r@[i] by {
                        if i != pos as int {
                            let bi = if i < pos { i } else { i - 1 };
                            assert(r@[i] == before[bi] && from[i] == from_before[bi]);
                        }
                    }
                }
            }
            n = n + 1;
        }
        proof {
            assert forall|i: int| 0 <= i < r@.len() implies is_live_rank_of(self@.ranks, cat, #[trigger] r@[i]) by {
                assert(eligible(self@.ranks, cat, from[i]));
            }
        }
        r
    }

    /// Draws the two ranks of category `cat` that come first by (run,
    /// shuffle), gives both the run after the larger of theirs and the
    /// tie-breaks `sa` and `sb`, and returns them as they were before.
    pub fn draw_two_with(&mut self, cat: i32, sa: i32, sb: i32) -> (r: Result<(Rank, Rank), AppError>)
        requires
            old(self).wf(),
        ensures
            final(self).wf(),
            (final(self)@, r) == draw_outcome(old(self)@, cat, sa, sb),
            r matches Ok((a, b)) ==> a.thing_id != b.thing_id,
    {
        match select_two(&self.ranks, cat) {
            None => Err(AppError::NotEnoughThings),
            Some((i, k)) => {
                proof {
                    let ghost fi = first_of(self@.ranks, cat);
                    lemma_first_unique(self@.ranks, cat, i as int, fi);
                    lemma_second_unique(self@.ranks, cat, i as int, k as int, second_of(self@.ranks, cat));
                }
                let a = self.ranks[i];
                let b = self.ranks[k];
                let top = if a.run >= b.run { a.run } else { b.run };
                if top == i32::MAX {
                    Err(AppError::RunOutOfRange)
                } else {
                    let run = top + 1;
                    let ghost o = self@;
                    self.ranks.set(i, Rank { run, shuffle: sa, ..a });
                    self.ranks.set(k, Rank { run, shuffle: sb, ..b });
                    proof {
                        assert(self@.polls == o.polls);
                        assert forall|x: int, y: int|
                            0 <= x < self@.ranks.len() && 0 <= y < self@.ranks.len() && x != y
                                && !(#[trigger] self@.ranks[x]).deleted && !(#[trigger] self@.ranks[y]).deleted
                                && self@.ranks[x].category_id == self@.ranks[y].category_id implies self@.ranks[x].thing_id
                                != self@.ranks[y].thing_id by {
                            assert(!o.ranks[x].deleted && !o.ranks[y].deleted);
                        }
                    }
                    Ok((a, b))
                }
            },
        }
    }

    /// [`Store::draw_two_with`] with tie-breaks drawn at random.
    pub fn draw_two(&mut self, cat: i32) -> (r: Result<(Rank, Rank), AppError>)
        requires
            old(self).wf(),
        ensures
            final(self).wf(),
            exists|sa: i32, sb: i32| (final(self)@, r) == draw_outcome(old(self)@, cat, sa, sb),
            r matches Ok((a, b)) ==> a.thing_id != b.thing_id,
    {
        let sa = random_shuffle();
        let sb = random_shuffle();
        self.draw_two_with(cat, sa, sb)
    }
}

} // verus!
