use conway_life::cycle::{checksum, CycleDetector, CHECKSUM_OFFSET, CHECKSUM_PRIME, CYCLE_HISTORY_CAPACITY};
use conway_life::engine::GenerationProcessor;
use conway_life::grid::Grid;
use conway_life::patterns::{
    apply_pattern, apply_random_pattern, pattern_catalog, Pattern, LCG_INCREMENT, LCG_MULTIPLIER,
    SEED_HASH_INCREMENT, SEED_HASH_MULTIPLIER,
};
use conway_life::row_task::RowTask;

#[test]
fn grid_new_get_set() {
    let g = Grid::new(50);
    assert_eq!(g.size(), 50);
    for r in 0..52 {
        for c in 0..52 {
            assert!(!g.get(r, c));
        }
    }
}

#[test]
fn catalog_holds_seven_named_patterns() {
    let catalog = pattern_catalog();
    assert_eq!(catalog.len(), 7);
    let names: Vec<&str> = catalog.iter().map(|p| p.name).collect();
    assert_eq!(
        names,
        vec![
            "Glider",
            "Blinker",
            "Toad",
            "Beacon",
            "Pulsar",
            "R-pentomino",
            "Gosper Glider Gun"
        ]
    );
    assert_eq!(catalog[1].cells, vec![(25, 24), (25, 25), (25, 26)]);
    assert_eq!(catalog[4].cells.len(), 48);
    assert_eq!(catalog[6].cells.len(), 36);
}

#[test]
fn apply_pattern_skips_out_of_range_coordinates() {
    let mut g = Grid::new(50);
    let generous = Pattern {
        name: "Generous",
        cells: vec![(0, 5), (5, 0), (51, 5), (5, 51), (300, 300), (10, 10)],
    };
    apply_pattern(&mut g, &generous);
    let mut live = Vec::new();
    for r in 0..52 {
        for c in 0..52 {
            if g.get(r, c) {
                live.push((r, c));
            }
        }
    }
    assert_eq!(live, vec![(10, 10)]);
}

#[test]
fn apply_pattern_clears_previous_content() {
    let mut g = Grid::new(50);
    apply_random_pattern(&mut g, 6);
    let blinker = Pattern { name: "Blinker", cells: vec![(25, 24), (25, 25), (25, 26)] };
    apply_pattern(&mut g, &blinker);
    let mut count = 0;
    for r in 0..52 {
        for c in 0..52 {
            if g.get(r, c) {
                count += 1;
            }
        }
    }
    assert_eq!(count, 3);
}

#[test]
fn apply_random_pattern_is_reproducible() {
    let mut a = Grid::new(30);
    let mut b = Grid::new(30);
    apply_random_pattern(&mut a, 321);
    apply_random_pattern(&mut b, 321);
    for r in 0..32 {
        for c in 0..32 {
            assert_eq!(a.get(r, c), b.get(r, c));
        }
    }
    // roughly a third of the active area comes out alive
    let live = (1..=30)
        .map(|r| (1..=30).filter(|&c| a.get(r, c)).count())
        .sum::<usize>();
    assert!(live > 150 && live < 450, "unexpected density: {}", live);
}

#[test]
fn random_fill_follows_the_documented_generator() {
    let seed: u32 = 2024;
    let mut g = Grid::new(5);
    apply_random_pattern(&mut g, seed);
    let mut state = (seed as u64)
        .wrapping_mul(SEED_HASH_MULTIPLIER)
        .wrapping_add(SEED_HASH_INCREMENT);
    for r in 1..=5 {
        for c in 1..=5 {
            state = state.wrapping_mul(LCG_MULTIPLIER).wrapping_add(LCG_INCREMENT);
            assert_eq!(g.get(r, c), state % 3 == 0, "cell ({}, {})", r, c);
        }
    }
}

#[test]
fn checksum_matches_the_documented_chain() {
    let mut g = Grid::new(3);
    g.set_active(1, 2, true);
    g.set_active(3, 3, true);
    let mut h = CHECKSUM_OFFSET;
    for r in 1..=3 {
        for c in 1..=3 {
            let bit = if g.get(r, c) { 1u64 } else { 0u64 };
            h = (h ^ bit).wrapping_mul(CHECKSUM_PRIME);
        }
    }
    assert_eq!(checksum(&g), h);
}

#[test]
fn checksum_ignores_the_border_only() {
    let mut a = Grid::new(20);
    let mut b = Grid::new(20);
    assert_eq!(checksum(&a), checksum(&b));
    a.set_active(3, 4, true);
    assert_ne!(checksum(&a), checksum(&b));
    b.set_active(3, 4, true);
    assert_eq!(checksum(&a), checksum(&b));
}

#[test]
fn detector_observes_and_matches() {
    let mut d = CycleDetector::new();
    assert!(!d.observe(100));
    assert!(!d.observe(200));
    assert!(d.observe(100));
    assert!(d.observe(200));
}

#[test]
fn detector_overwrites_oldest_when_full() {
    let mut d = CycleDetector::new();
    for h in 0..CYCLE_HISTORY_CAPACITY as u64 {
        assert!(!d.observe(h));
    }
    // everything observed so far is still in the history
    assert!(d.observe(0));
    // a fresh checksum overwrites the oldest slot (which held 0)
    assert!(!d.observe(1000));
    assert!(!d.observe(0));
    // re-inserting 0 overwrote the next slot, which held 1
    assert!(!d.observe(1));
    // 3 was never overwritten and is still there
    assert!(d.observe(3));
}

#[test]
fn detector_reset_forgets_everything() {
    let mut d = CycleDetector::new();
    assert!(!d.observe(5));
    assert!(d.observe(5));
    d.reset();
    assert!(!d.observe(5));
}

#[test]
fn row_task_is_resumable_in_slices() {
    let mut snapshot = Grid::new(10);
    // a blinker-like row triple around row 5
    snapshot.set_active(5, 4, true);
    snapshot.set_active(5, 5, true);
    snapshot.set_active(5, 6, true);
    // row 4 of the next generation holds a single born cell at column 5
    let mut sliced = RowTask::new(4, &snapshot);
    let mut rounds = 0;
    while !sliced.resume(&snapshot, 3) {
        rounds += 1;
        assert!(rounds < 10);
    }
    let mut whole = RowTask::new(4, &snapshot);
    assert!(whole.resume(&snapshot, 10));
    assert_eq!(sliced.row_result(), whole.row_result());
    let row = whole.row_result();
    assert_eq!(row.len(), 12);
    for c in 0..12 {
        assert_eq!(row[c], c == 5);
    }
}

#[test]
fn processor_collects_rows_into_a_bordered_grid() {
    let n = 4;
    let processor = GenerationProcessor::new(n, 2);
    let mut results = Vec::new();
    for i in 0..n {
        let mut row = vec![false; n + 2];
        // mark one active cell per row, diagonally
        row[i + 1] = true;
        results.push(row);
    }
    let g = processor.collect_results(results);
    assert_eq!(g.size(), n);
    for r in 0..n + 2 {
        for c in 0..n + 2 {
            let expected = (1..=n).contains(&r) && c == r;
            assert_eq!(g.get(r, c), expected);
        }
    }
}

#[test]
fn processor_budget_never_changes_the_outcome() {
    let mut snapshot = Grid::new(12);
    apply_random_pattern(&mut snapshot, 99);
    let mut processor = GenerationProcessor::new(12, 1);
    let a = processor.process_generation(&snapshot);
    processor.set_time_budget(5);
    let b = processor.process_generation(&snapshot);
    let c = processor.process_generation_parallel(&snapshot);
    for r in 0..14 {
        for col in 0..14 {
            assert_eq!(a.get(r, col), b.get(r, col));
            assert_eq!(a.get(r, col), c.get(r, col));
        }
    }
}
