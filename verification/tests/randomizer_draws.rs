use std::collections::HashSet;

use frippy::randomizer::RandomIndex;

#[test]
fn draws_stay_within_the_index_range() {
    let mut idx = RandomIndex::new();
    idx.init(100);
    for _ in 0..60 {
        let v = *idx.get().expect("the list is longer than the draw position");
        assert!((1..=100).contains(&v));
    }
}

#[test]
fn draws_from_one_list_do_not_repeat() {
    let mut idx = RandomIndex::new();
    idx.init(100);
    let mut seen: HashSet<i32> = HashSet::new();
    // the first draws all come from one shuffled permutation
    for _ in 0..60 {
        let v = *idx.get().unwrap();
        assert!(seen.insert(v), "a permutation never repeats a value");
    }
}

#[test]
fn a_short_list_runs_out() {
    let mut idx = RandomIndex::new();
    idx.init(5);
    let mut draws = 0;
    while idx.get().is_some() {
        draws += 1;
    }
    // the draw position starts ahead of the first element and walks off the
    // end of the five-element list
    assert_eq!(draws, 4);
}

#[test]
fn an_uninitialised_source_has_nothing_to_draw() {
    let mut idx = RandomIndex::new();
    assert!(idx.get().is_none());
}

#[test]
fn update_count_takes_effect_at_the_next_shuffle() {
    let mut idx = RandomIndex::new();
    idx.init(100);
    idx._update_count(3);
    idx._force_shuffle();
    let v = *idx.get().expect("the fresh list still has elements");
    assert!((1..=3).contains(&v));
}
