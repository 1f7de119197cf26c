use vstd::prelude::*;
use crate::error::AppError;
use crate::rank::Rank;
use crate::store::{Pairing, Store, StoreModel, draw_outcome, random_shuffle};

verus! {

/// Request to start polling within a category.
#[derive(Clone, Copy, PartialEq, Eq, Structural, Debug)]
pub struct StartPollRequest {
    pub category_id: i32,
}

/// Which of the two presented things the account prefers.
#[derive(Clone, Copy, PartialEq, Eq, Structural, Debug)]
pub enum Preference {
    A,
    B,
}

/// Request to answer the current poll.
#[derive(Clone, Copy, PartialEq, Eq, Structural, Debug)]
pub struct FinishPollRequest {
    pub preference: Preference,
}

/// A scored comparison: the caller updates the Elo scores of both things in
/// the category, the winner with outcome 1 and the loser with outcome 0.
#[derive(Clone, Copy, PartialEq, Eq, Structural, Debug)]
pub struct Comparison {
    pub category_id: i32,
    pub winner_id: i32,
    pub loser_id: i32,
}

/// The pairing row that a successful draw of `a` and `b` in `cat` stores.
pub open spec fn pairing_for(cat: i32, a: Rank, b: Rank) -> Pairing {
    Pairing { category_id: cat, thing_id_a: a.thing_id, thing_id_b: b.thing_id }
}

/// Outcome of `start_poll` for `account` in category `cat`, where `sa` and
/// `sb` are the fresh tie-breaks of the drawn ranks. Nothing changes on
/// failure.
pub open spec fn start_outcome(m: StoreModel, account: i32, cat: i32, sa: i32, sb: i32) -> (StoreModel, Result<Pairing, AppError>) {
    if !m.live_category(cat) {
        (m, Err(AppError::CategoryNotFound))
    } else {
        let (m2, r) = draw_outcome(m, cat, sa, sb);
        match r {
            Ok((a, b)) => (
                StoreModel { polls: m2.polls.insert(account, pairing_for(cat, a, b)), ..m2 },
                Ok(pairing_for(cat, a, b)),
            ),
            Err(e) => (m, Err(e)),
        }
    }
}

/// The comparison that answering pairing `p` with `pref` records.
pub open spec fn comparison_for(p: Pairing, pref: Preference) -> Comparison {
    match pref {
        Preference::A => Comparison { category_id: p.category_id, winner_id: p.thing_id_a, loser_id: p.thing_id_b },
        Preference::B => Comparison { category_id: p.category_id, winner_id: p.thing_id_b, loser_id: p.thing_id_a },
    }
}

/// Outcome of `end_poll` for `account`: the pairing row is consumed.
pub open spec fn end_outcome(m: StoreModel, account: i32, pref: Preference) -> (StoreModel, Result<Comparison, AppError>) {
    if !m.polls.contains_key(account) {
        (m, Err(AppError::NotInPollingState))
    } else {
        (StoreModel { polls: m.polls.remove(account), ..m }, Ok(comparison_for(m.polls[account], pref)))
    }
}

/// An account holds at most one pairing: after two `start_poll` calls in a
/// row, whatever the first one did, the second one's pairing is the
/// account's only pairing, and no other account's pairing changed.
pub proof fn lemma_restart_replaces_pairing(
    m: StoreModel,
    account: i32,
    c1: i32,
    sa1: i32,
    sb1: i32,
    c2: i32,
    sa2: i32,
    sb2: i32,
)
    ensures
        ({
            let m1 = start_outcome(m, account, c1, sa1, sb1).0;
            let (m2, r2) = start_outcome(m1, account, c2, sa2, sb2);
            r2 matches Ok(p) ==> m2.polls == m.polls.insert(account, p)
        }),
{
    let m1 = start_outcome(m, account, c1, sa1, sb1).0;
    let (m2, r2) = start_outcome(m1, account, c2, sa2, sb2);
    if let Ok(p) = r2 {
        assert(m2.polls =~= m.polls.insert(account, p));
    }
}

/// Answering without a pairing fails with `NotInPollingState` and changes
/// nothing, rank rows included.
pub proof fn lemma_end_without_start(m: StoreModel, account: i32, pref: Preference)
    requires
        !m.polls.contains_key(account),
    ensures
        end_outcome(m, account, pref) == (m, Err::<Comparison, AppError>(AppError::NotInPollingState)),
{
}

impl Store {
    /// Puts `account` into polling state in category `cat`: any earlier
    /// pairing of the account is discarded unscored, two things are drawn
    /// with tie-breaks `sa` and `sb`, and their pairing is stored.
    pub fn start_poll_with(&mut self, account: i32, cat: i32, sa: i32, sb: i32) -> (r: Result<Pairing, AppError>)
        requires
            old(self).wf(),
        ensures
            final(self).wf(),
            (final(self)@, r) == start_outcome(old(self)@, account, cat, sa, sb),
            r matches Ok(p) ==> p.thing_id_a != p.thing_id_b,
    {
        if !self.category_exists(cat) {
            return Err(AppError::CategoryNotFound);
        }
        match self.draw_two_with(cat, sa, sb) {
            Ok((a, b)) => {
                let p = Pairing { category_id: cat, thing_id_a: a.thing_id, thing_id_b: b.thing_id };
                self.put_pairing(account, p);
                Ok(p)
            },
            Err(e) => Err(e),
        }
    }

    /// [`Store::start_poll_with`] with tie-breaks drawn at random.
    pub fn start_poll(&mut self, account: i32, cat: i32) -> (r: Result<Pairing, AppError>)
        requires
            old(self).wf(),
        ensures
            final(self).wf(),
            exists|sa: i32, sb: i32| (final(self)@, r) == start_outcome(old(self)@, account, cat, sa, sb),
            r matches Ok(p) ==> p.thing_id_a != p.thing_id_b,
    {
        let sa = random_shuffle();
        let sb = random_shuffle();
        self.start_poll_with(account, cat, sa, sb)
    }

    /// Takes `account` out of polling state, recording its preference
    /// between the two things it was shown.
    pub fn end_poll(&mut self, account: i32, preference: Preference) -> (r: Result<Comparison, AppError>)
        requires
            old(self).wf(),
        ensures
            final(self).wf(),
            (final(self)@, r) == end_outcome(old(self)@, account, preference),
    {
        match self.take_pairing(account) {
            None => Err(AppError::NotInPollingState),
            Some(p) => match preference {
                Preference::A => Ok(Comparison { category_id: p.category_id, winner_id: p.thing_id_a, loser_id: p.thing_id_b }),
                Preference::B => Ok(Comparison { category_id: p.category_id, winner_id: p.thing_id_b, loser_id: p.thing_id_a }),
            },
        }
    }
}

} // verus!
