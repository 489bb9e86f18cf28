use pogo_hurdling::game_systems::hurdles::{cut, distribute_distances, largest, placements_of};
use rand::rngs::StdRng;
use rand::SeedableRng;

fn gaps(placements: &[i32], start: i32, end: i32) -> Vec<i64> {
    let mut gaps = Vec::new();
    let mut from = start as i64;
    for p in placements {
        gaps.push(*p as i64 - from);
        from = *p as i64;
    }
    gaps.push(end as i64 - from);
    gaps
}

#[test]
fn five_hurdles_on_ninety_units() {
    for seed in 0..200u64 {
        let mut rng = StdRng::seed_from_u64(seed);
        let placements = distribute_distances(&mut rng, 5, 0..90_000, 15_000);
        assert!(placements.len() <= 5);
        assert!(!placements.is_empty());
        for pair in placements.windows(2) {
            assert!(pair[0] < pair[1]);
            assert!(pair[1] - pair[0] >= 15_000);
        }
        for p in &placements {
            assert!(0 <= *p && *p <= 90_000);
        }
        for gap in gaps(&placements, 0, 90_000) {
            assert!(gap >= 15_000);
        }
        if placements.len() < 5 {
            for gap in gaps(&placements, 0, 90_000) {
                assert!(gap < 30_000);
            }
        }
        assert!((placements.len() as i64 + 1) * 15_000 <= 90_000);
    }
}

#[test]
fn as_many_hurdles_as_asked_for_where_there_is_room() {
    for seed in 0..100u64 {
        let mut rng = StdRng::seed_from_u64(seed);
        let placements = distribute_distances(&mut rng, 3, -50_000..50_000, 100);
        assert_eq!(placements.len(), 3);
        assert_eq!(gaps(&placements, -50_000, 50_000).iter().sum::<i64>(), 100_000);
        for gap in gaps(&placements, -50_000, 50_000) {
            assert!(gap >= 100);
        }
    }
}

#[test]
fn hurdles_without_spacing_may_share_a_place() {
    let mut rng = StdRng::seed_from_u64(4);
    assert_eq!(distribute_distances(&mut rng, 3, 7..7, 0), vec![7, 7, 7]);
    let placements = distribute_distances(&mut rng, 4, 0..10, 0);
    assert_eq!(placements.len(), 4);
    for pair in placements.windows(2) {
        assert!(pair[0] <= pair[1]);
    }
}

#[test]
fn no_hurdles_when_none_are_asked_for() {
    let mut rng = StdRng::seed_from_u64(1);
    assert_eq!(distribute_distances(&mut rng, 0, 0..90_000, 15_000), Vec::<i32>::new());
}

#[test]
fn no_hurdle_fits_a_span_shorter_than_two_spacings() {
    let mut rng = StdRng::seed_from_u64(2);
    assert_eq!(distribute_distances(&mut rng, 5, 0..29_999, 15_000), Vec::<i32>::new());
    assert_eq!(distribute_distances(&mut rng, 5, 10..0, 0), Vec::<i32>::new());
}

#[test]
fn one_hurdle_in_the_middle_of_two_spacings() {
    let mut rng = StdRng::seed_from_u64(3);
    assert_eq!(distribute_distances(&mut rng, 5, 0..30_000, 15_000), vec![15_000]);
    assert_eq!(distribute_distances(&mut rng, 5, -10_000..20_000, 15_000), vec![5_000]);
}

#[test]
fn at_most_one_hurdle_when_the_spacing_is_half_the_span_or_more() {
    for seed in 0..50u64 {
        let mut rng = StdRng::seed_from_u64(seed);
        assert!(distribute_distances(&mut rng, 9, 0..40_000, 20_000).len() <= 1);
        let mut rng = StdRng::seed_from_u64(seed);
        assert!(distribute_distances(&mut rng, 9, 0..44_999, 15_000).len() <= 1);
    }
}

#[test]
fn the_same_seed_gives_the_same_layout() {
    for seed in 0..50u64 {
        let mut first = StdRng::seed_from_u64(seed);
        let mut second = StdRng::seed_from_u64(seed);
        assert_eq!(
            distribute_distances(&mut first, 6, 10_000..90_000, 5_000),
            distribute_distances(&mut second, 6, 10_000..90_000, 5_000)
        );
    }
}

#[test]
fn different_seeds_give_different_layouts() {
    let mut seen = Vec::new();
    for seed in 0..20u64 {
        let mut rng = StdRng::seed_from_u64(seed);
        let placements = distribute_distances(&mut rng, 4, 0..1_000_000, 10);
        assert_eq!(placements.len(), 4);
        if !seen.contains(&placements) {
            seen.push(placements);
        }
    }
    assert!(seen.len() > 1);
}

#[test]
fn a_cut_falls_anywhere_between_the_spacings() {
    // One hurdle on a hundred units stands at the cut or at its mirror
    // image, so it stands at a spacing from an end only by rare chance.
    let mut inside = 0;
    for seed in 0..200u64 {
        let mut rng = StdRng::seed_from_u64(seed);
        let placements = distribute_distances(&mut rng, 1, 0..100_000, 1_000);
        assert_eq!(placements.len(), 1);
        assert!(1_000 <= placements[0] && placements[0] <= 99_000);
        if placements[0] != 1_000 && placements[0] != 99_000 {
            inside += 1;
        }
    }
    assert!(inside > 150);
}

#[test]
fn the_parts_are_shuffled() {
    // After two cuts the part that was never cut is the first in the list
    // and at most half the span long. Only a shuffle can put a longer part
    // first, and so the first hurdle beyond the middle.
    let mut beyond = 0;
    for seed in 0..200u64 {
        let mut rng = StdRng::seed_from_u64(seed);
        let placements = distribute_distances(&mut rng, 2, 0..100_000, 1_000);
        assert_eq!(placements.len(), 2);
        if placements[0] > 50_000 {
            beyond += 1;
        }
    }
    assert!(beyond > 0);
}

#[test]
fn the_largest_length_is_the_last_of_the_largest() {
    assert_eq!(largest(&vec![3]), 0);
    assert_eq!(largest(&vec![3, 7, 5]), 1);
    assert_eq!(largest(&vec![7, 3, 7, 5]), 2);
    assert_eq!(largest(&vec![-4, -9]), 0);
}

#[test]
fn a_cut_moves_both_parts_to_the_end() {
    let mut distances = vec![10, 90, 20];
    cut(&mut distances, 1, 30);
    assert_eq!(distances, vec![10, 20, 30, 60]);
}

#[test]
fn placements_are_running_sums_without_the_last() {
    assert_eq!(placements_of(&vec![15, 20, 25, 30], 0), vec![15, 35, 60]);
    assert_eq!(placements_of(&vec![15, 20, 25, 30], -100), vec![-85, -65, -40]);
    assert_eq!(placements_of(&vec![90], 7), Vec::<i32>::new());
}
