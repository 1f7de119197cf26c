use std::collections::HashSet;
use rankit::error::AppError;
use rankit::rank::{select_two, Rank};
use rankit::store::Store;

fn store_with_things(cat: i32, things: &[i32]) -> Store {
    let mut store = Store::new();
    store.create_category(cat).unwrap();
    for &t in things {
        store.create_thing(t).unwrap();
        store.create_rank_with(t, cat, t * 10).unwrap();
    }
    store
}

fn rank(thing_id: i32, category_id: i32, run: i32, shuffle: i32, deleted: bool) -> Rank {
    Rank { thing_id, category_id, run, shuffle, deleted }
}

#[test]
fn draw_never_pairs_a_thing_with_itself() {
    let mut store = store_with_things(1, &[1, 2, 3]);
    for _ in 0..100 {
        let (a, b) = store.draw_two(1).unwrap();
        assert_ne!(a.thing_id, b.thing_id);
    }
}

#[test]
fn draw_advances_both_runs_past_the_larger() {
    let mut store = store_with_things(1, &[1, 2, 3, 4]);
    let (a, b) = store.draw_two_with(1, 77, 88).unwrap();
    assert_eq!((a.thing_id, b.thing_id), (1, 2));
    assert_eq!((a.run, b.run), (0, 0));
    let a2 = store.rank_of(1, 1).unwrap();
    let b2 = store.rank_of(2, 1).unwrap();
    assert_eq!((a2.run, a2.shuffle), (1, 77));
    assert_eq!((b2.run, b2.shuffle), (1, 88));
    let (c, d) = store.draw_two_with(1, 0, 0).unwrap();
    assert_eq!((c.thing_id, d.thing_id), (3, 4));
    let (e, f) = store.draw_two_with(1, 5, 5).unwrap();
    assert_eq!((e.run, f.run), (1, 1));
    assert_eq!(store.rank_of(e.thing_id, 1).unwrap().run, 2);
}

#[test]
fn draw_takes_max_run_plus_one() {
    let mut store = store_with_things(1, &[1, 2, 3]);
    store.draw_two_with(1, 0, 0).unwrap();
    let (a, b) = store.draw_two_with(1, 0, 0).unwrap();
    assert_eq!((a.run, b.run), (0, 1));
    assert_eq!(store.rank_of(a.thing_id, 1).unwrap().run, 2);
    assert_eq!(store.rank_of(b.thing_id, 1).unwrap().run, 2);
}

#[test]
fn round_of_draws_presents_every_thing_once() {
    let things = [1, 2, 3, 4, 5, 6, 7, 8];
    let mut store = store_with_things(1, &things);
    let mut seen = HashSet::new();
    for _ in 0..4 {
        let (a, b) = store.draw_two(1).unwrap();
        assert!(seen.insert(a.thing_id));
        assert!(seen.insert(b.thing_id));
    }
    assert_eq!(seen.len(), 8);
    for t in things {
        assert_eq!(store.rank_of(t, 1).unwrap().run, 1);
    }
}

#[test]
fn draw_on_empty_category() {
    let mut store = store_with_things(1, &[]);
    assert_eq!(store.draw_two(1), Err(AppError::NotEnoughThings));
}

#[test]
fn draw_on_single_thing_changes_nothing() {
    let mut store = store_with_things(1, &[1]);
    let before = store.rank_of(1, 1);
    assert_eq!(store.draw_two_with(1, 3, 4), Err(AppError::NotEnoughThings));
    assert_eq!(store.rank_of(1, 1), before);
}

#[test]
fn deleted_category_cannot_be_drawn() {
    let mut store = store_with_things(1, &[1, 2, 3]);
    store.delete_category(1).unwrap();
    assert_eq!(store.rank_of(1, 1), None);
    assert!(!store.category_exists(1));
    assert_eq!(store.draw_two(1), Err(AppError::NotEnoughThings));
}

#[test]
fn delete_category_twice_fails() {
    let mut store = store_with_things(1, &[1, 2]);
    store.delete_category(1).unwrap();
    assert_eq!(store.delete_category(1), Err(AppError::CategoryNotFound));
    assert_eq!(store.delete_category(5), Err(AppError::CategoryNotFound));
}

#[test]
fn deleted_thing_leaves_the_draw() {
    let mut store = store_with_things(1, &[1, 2, 3]);
    store.delete_thing(2).unwrap();
    assert_eq!(store.rank_of(2, 1), None);
    let (a, b) = store.draw_two_with(1, 0, 0).unwrap();
    assert_eq!((a.thing_id, b.thing_id), (1, 3));
    assert_eq!(store.delete_thing(2), Err(AppError::ThingNotFound));
}

#[test]
fn deleting_a_category_spares_other_categories() {
    let mut store = store_with_things(1, &[1, 2]);
    store.create_category(2).unwrap();
    store.create_rank_with(1, 2, 0).unwrap();
    store.create_rank_with(2, 2, 0).unwrap();
    store.delete_category(1).unwrap();
    assert!(store.draw_two(2).is_ok());
}

#[test]
fn create_rank_errors() {
    let mut store = store_with_things(1, &[1]);
    assert_eq!(store.create_rank(1, 1), Err(AppError::DuplicateRecord));
    assert_eq!(store.create_rank(9, 1), Err(AppError::ThingOrCategoryNotFound));
    assert_eq!(store.create_rank(1, 9), Err(AppError::ThingOrCategoryNotFound));
    assert_eq!(store.create_category(1), Err(AppError::DuplicateRecord));
    assert_eq!(store.create_thing(1), Err(AppError::DuplicateRecord));
}

#[test]
fn new_rank_starts_at_least_live_run() {
    let mut store = store_with_things(1, &[1, 2, 3, 4]);
    store.draw_two_with(1, 0, 0).unwrap();
    store.draw_two_with(1, 0, 0).unwrap();
    store.draw_two_with(1, 0, 0).unwrap();
    assert_eq!(store.entry_run(1), 1);
    store.create_thing(5).unwrap();
    let r = store.create_rank_with(5, 1, 42).unwrap();
    assert_eq!(r, rank(5, 1, 1, 42, false));
    assert_eq!(store.entry_run(2), 0);
}

#[test]
fn rank_needs_live_category() {
    let mut store = store_with_things(1, &[1, 2]);
    store.delete_category(1).unwrap();
    assert_eq!(store.create_rank(1, 1), Err(AppError::ThingOrCategoryNotFound));
    assert!(!store.has_live_rank(1, 1));
}

#[test]
fn select_two_orders_by_run_then_shuffle_then_position() {
    let ranks = vec![
        rank(1, 1, 2, 0, false),
        rank(2, 1, 1, 9, false),
        rank(3, 1, 1, 3, false),
        rank(4, 2, 0, 0, false),
        rank(5, 1, 0, 0, true),
        rank(6, 1, 1, 3, false),
    ];
    assert_eq!(select_two(&ranks, 1), Some((2, 5)));
    assert_eq!(select_two(&ranks, 2), None);
    assert_eq!(select_two(&ranks, 3), None);
    assert_eq!(select_two(&Vec::new(), 1), None);
}

#[test]
fn delete_rank_removes_one_thing_from_the_draw() {
    let mut store = store_with_things(1, &[1, 2, 3]);
    assert_eq!(store.delete_rank(1, 1), Ok(()));
    assert_eq!(store.rank_of(1, 1), None);
    assert_eq!(store.delete_rank(1, 1), Err(AppError::RankNotFound));
    assert_eq!(store.delete_rank(7, 1), Err(AppError::RankNotFound));
    let (a, b) = store.draw_two_with(1, 0, 0).unwrap();
    assert_eq!((a.thing_id, b.thing_id), (2, 3));
    store.delete_rank(2, 1).unwrap();
    assert_eq!(store.draw_two(1), Err(AppError::NotEnoughThings));
    let r = store.create_rank_with(1, 1, 5).unwrap();
    assert_eq!(r.run, 1);
}

#[test]
fn live_ranks_listed_in_draw_order() {
    let mut store = store_with_things(1, &[1, 2, 3, 4]);
    store.create_category(2).unwrap();
    store.create_rank_with(1, 2, 0).unwrap();
    store.draw_two_with(1, 0, 0).unwrap();
    store.delete_rank(4, 1).unwrap();
    let order: Vec<(i32, i32, i32)> = store
        .live_ranks_ordered(1)
        .iter()
        .map(|r| (r.thing_id, r.run, r.shuffle))
        .collect();
    assert_eq!(order, vec![(3, 0, 30), (1, 1, 0), (2, 1, 0)]);
    assert_eq!(store.live_ranks_ordered(5), Vec::new());
}
