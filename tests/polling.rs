use rankit::error::AppError;
use rankit::poll::{Comparison, Preference};
use rankit::rank::Rank;
use rankit::store::{Pairing, Store};

fn store_with_things(cat: i32, things: &[i32]) -> Store {
    let mut store = Store::new();
    store.create_category(cat).unwrap();
    for &t in things {
        store.create_thing(t).unwrap();
        store.create_rank_with(t, cat, t * 10).unwrap();
    }
    store
}

#[test]
fn start_poll_twice_keeps_only_second_pairing() {
    let mut store = store_with_things(1, &[1, 2, 3, 4]);
    let first = store.start_poll_with(7, 1, 5, 6).unwrap();
    assert_eq!(store.pairing_of(7), Some(first));
    let second = store.start_poll_with(7, 1, 8, 9).unwrap();
    assert_ne!(first, second);
    assert_eq!(store.pairing_of(7), Some(second));
    assert_eq!(store.end_poll(7, Preference::A).map(|c| c.winner_id), Ok(second.thing_id_a));
    assert_eq!(store.pairing_of(7), None);
}

#[test]
fn start_poll_pairs_the_first_two_in_draw_order() {
    let mut store = store_with_things(1, &[1, 2, 3]);
    let p = store.start_poll_with(7, 1, 0, 0).unwrap();
    assert_eq!(p, Pairing { category_id: 1, thing_id_a: 1, thing_id_b: 2 });
}

#[test]
fn pairings_of_accounts_are_independent() {
    let mut store = store_with_things(1, &[1, 2, 3, 4]);
    let a = store.start_poll_with(7, 1, 5, 6).unwrap();
    let b = store.start_poll_with(8, 1, 5, 6).unwrap();
    assert_eq!(store.pairing_of(7), Some(a));
    assert_eq!(store.pairing_of(8), Some(b));
    assert_eq!(b, Pairing { category_id: 1, thing_id_a: 3, thing_id_b: 4 });
}

#[test]
fn start_poll_unknown_category() {
    let mut store = store_with_things(1, &[1, 2]);
    assert_eq!(store.start_poll(7, 2), Err(AppError::CategoryNotFound));
    assert_eq!(store.pairing_of(7), None);
}

#[test]
fn start_poll_with_too_few_things_keeps_old_pairing() {
    let mut store = store_with_things(1, &[1, 2]);
    store.create_category(2).unwrap();
    let p = store.start_poll(7, 1).unwrap();
    assert_eq!(store.start_poll(7, 2), Err(AppError::NotEnoughThings));
    assert_eq!(store.pairing_of(7), Some(p));
}

#[test]
fn end_poll_without_start_changes_nothing() {
    let mut store = store_with_things(1, &[1, 2]);
    let before: Vec<Option<Rank>> = vec![store.rank_of(1, 1), store.rank_of(2, 1)];
    assert_eq!(store.end_poll(7, Preference::A), Err(AppError::NotInPollingState));
    assert_eq!(vec![store.rank_of(1, 1), store.rank_of(2, 1)], before);
}

#[test]
fn end_poll_twice_fails_the_second_time() {
    let mut store = store_with_things(1, &[1, 2]);
    store.start_poll(7, 1).unwrap();
    assert!(store.end_poll(7, Preference::B).is_ok());
    assert_eq!(store.end_poll(7, Preference::B), Err(AppError::NotInPollingState));
}

#[test]
fn end_poll_names_winner_by_preference() {
    let mut store = store_with_things(3, &[1, 2]);
    let p = store.start_poll_with(7, 3, 0, 0).unwrap();
    assert_eq!(
        store.end_poll(7, Preference::A),
        Ok(Comparison { category_id: 3, winner_id: p.thing_id_a, loser_id: p.thing_id_b })
    );
    store.start_poll_with(7, 3, 0, 0).unwrap();
    let p = store.pairing_of(7).unwrap();
    assert_eq!(
        store.end_poll(7, Preference::B),
        Ok(Comparison { category_id: 3, winner_id: p.thing_id_b, loser_id: p.thing_id_a })
    );
}

#[test]
fn random_start_poll_never_pairs_a_thing_with_itself() {
    let mut store = store_with_things(1, &[1, 2, 3, 4, 5]);
    for _ in 0..50 {
        let p = store.start_poll(9, 1).unwrap();
        assert_ne!(p.thing_id_a, p.thing_id_b);
    }
}
