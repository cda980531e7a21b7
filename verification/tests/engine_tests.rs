use conway_life::engine::{GameOfLife, GameOfLifeInterface, PatternNotFound, SchedulingMode};
use conway_life::grid::Grid;

fn grids_equal(a: &Grid, b: &Grid) -> bool {
    if a.size() != b.size() {
        return false;
    }
    let total = a.size() + 2;
    for r in 0..total {
        for c in 0..total {
            if a.get(r, c) != b.get(r, c) {
                return false;
            }
        }
    }
    true
}

fn live_cells(e: &GameOfLife) -> Vec<(usize, usize)> {
    let mut live = Vec::new();
    let total = e.size() + 2;
    for r in 0..total {
        for c in 0..total {
            if e.cell(r, c) {
                live.push((r, c));
            }
        }
    }
    live
}

#[test]
fn new_engine_is_dead_and_paused() {
    let e = GameOfLife::new(50, SchedulingMode::Parallel);
    assert_eq!(e.size(), 50);
    assert_eq!(e.generation(), 0);
    assert!(!e.running());
    assert!(live_cells(&e).is_empty());
    assert!(e.check_border_cells_dead());
}

#[test]
fn seed_random_is_deterministic() {
    let mut a = GameOfLife::new(50, SchedulingMode::Parallel);
    let mut b = GameOfLife::new(50, SchedulingMode::Cooperative { time_slice: 4 });
    a.seed_random(42);
    b.seed_random(42);
    assert!(grids_equal(&a.snapshot(), &b.snapshot()));
    assert!(!live_cells(&a).is_empty());
    // repeating the same seed reproduces the grid exactly
    let first = a.snapshot();
    a.seed_random(42);
    assert!(grids_equal(&a.snapshot(), &first));
    // and it holds on other grid sizes too
    let mut c = GameOfLife::new(7, SchedulingMode::Parallel);
    let mut d = GameOfLife::new(7, SchedulingMode::Cooperative { time_slice: 1 });
    c.seed_random(7);
    d.seed_random(7);
    assert!(grids_equal(&c.snapshot(), &d.snapshot()));
}

#[test]
fn different_seeds_differ() {
    let mut a = GameOfLife::new(50, SchedulingMode::Parallel);
    let mut b = GameOfLife::new(50, SchedulingMode::Parallel);
    a.seed_random(1);
    b.seed_random(2);
    assert!(!grids_equal(&a.snapshot(), &b.snapshot()));
}

#[test]
fn border_stays_dead_over_many_ticks() {
    let mut e = GameOfLife::new(50, SchedulingMode::Parallel);
    e.seed_random(9);
    assert!(e.check_border_cells_dead());
    for _ in 0..20 {
        e.advance();
        assert!(e.check_border_cells_dead());
        let total = e.size() + 2;
        for i in 0..total {
            assert!(!e.cell(0, i));
            assert!(!e.cell(total - 1, i));
            assert!(!e.cell(i, 0));
            assert!(!e.cell(i, total - 1));
        }
    }
}

#[test]
fn schedulers_commit_identical_grids() {
    let mut par = GameOfLife::new(50, SchedulingMode::Parallel);
    let mut coop1 = GameOfLife::new(50, SchedulingMode::Cooperative { time_slice: 1 });
    let mut coop7 = GameOfLife::new(50, SchedulingMode::Cooperative { time_slice: 7 });
    par.seed_random(123);
    coop1.seed_random(123);
    coop7.seed_random(123);
    for _ in 0..3 {
        par.advance();
        coop1.advance();
        coop7.advance();
        assert!(grids_equal(&par.snapshot(), &coop1.snapshot()));
        assert!(grids_equal(&par.snapshot(), &coop7.snapshot()));
    }
}

#[test]
fn lonely_cell_dies() {
    let mut e = GameOfLife::new(50, SchedulingMode::Parallel);
    e.toggle_cell(25, 24);
    assert_eq!(live_cells(&e), vec![(25, 24)]);
    e.advance();
    assert!(live_cells(&e).is_empty());
}

#[test]
fn block_is_stable() {
    let mut e = GameOfLife::new(50, SchedulingMode::Cooperative { time_slice: 2 });
    e.toggle_cell(10, 10);
    e.toggle_cell(10, 11);
    e.toggle_cell(11, 10);
    e.toggle_cell(11, 11);
    let before = e.snapshot();
    e.advance();
    assert!(grids_equal(&before, &e.snapshot()));
    assert_eq!(live_cells(&e), vec![(10, 10), (10, 11), (11, 10), (11, 11)]);
}

#[test]
fn blinker_oscillates_and_is_flagged() {
    let mut e = GameOfLife::new(50, SchedulingMode::Parallel);
    // the catalog's blinker: row 25, columns 24..=26
    e.load_pattern(1).unwrap();
    let horizontal = e.snapshot();
    assert_eq!(live_cells(&e), vec![(25, 24), (25, 25), (25, 26)]);
    let r1 = e.advance();
    // vertical after one tick
    assert_eq!(live_cells(&e), vec![(24, 25), (25, 25), (26, 25)]);
    assert!(!r1.cycle_detected);
    let r2 = e.advance();
    // back to horizontal after two
    assert!(grids_equal(&horizontal, &e.snapshot()));
    assert!(!r2.cycle_detected);
    // the period-2 oscillation must be flagged within 10 generations
    let mut flagged_at = None;
    for tick in 3..=12 {
        if e.advance().cycle_detected {
            flagged_at = Some(tick);
            break;
        }
    }
    assert_eq!(flagged_at, Some(3));
}

#[test]
fn cycle_detection_pauses_a_running_engine() {
    let mut e = GameOfLife::new(50, SchedulingMode::Parallel);
    e.load_pattern(1).unwrap();
    e.set_running(true);
    let mut ticks = 0;
    while e.running() && ticks < 20 {
        e.advance();
        ticks += 1;
    }
    assert!(!e.running());
    assert!(ticks <= 10);
    // the grid is left inspectable, not cleared
    assert!(!live_cells(&e).is_empty());
}

#[test]
fn clear_is_idempotent() {
    let mut e = GameOfLife::new(50, SchedulingMode::Parallel);
    e.seed_random(5);
    e.advance();
    e.clear();
    let first = e.snapshot();
    assert_eq!(e.generation(), 0);
    assert!(live_cells(&e).is_empty());
    e.clear();
    assert_eq!(e.generation(), 0);
    assert!(grids_equal(&first, &e.snapshot()));
}

#[test]
fn clear_leaves_running_flag_untouched() {
    let mut e = GameOfLife::new(50, SchedulingMode::Parallel);
    e.set_running(true);
    e.clear();
    assert!(e.running());
}

#[test]
fn load_pattern_out_of_range_is_an_error_and_a_no_op() {
    let mut e = GameOfLife::new(50, SchedulingMode::Parallel);
    e.seed_random(77);
    e.advance();
    let before = e.snapshot();
    let generation_before = e.generation();
    assert_eq!(e.load_pattern(7), Err(PatternNotFound));
    assert_eq!(e.load_pattern(usize::MAX), Err(PatternNotFound));
    assert!(grids_equal(&before, &e.snapshot()));
    assert_eq!(e.generation(), generation_before);
}

#[test]
fn load_pattern_resets_generation_and_stamps_cells() {
    let mut e = GameOfLife::new(50, SchedulingMode::Parallel);
    e.seed_random(3);
    e.advance();
    e.advance();
    assert_eq!(e.generation(), 2);
    assert_eq!(e.load_pattern(0), Ok(()));
    assert_eq!(e.generation(), 0);
    // the glider
    assert_eq!(live_cells(&e), vec![(6, 7), (7, 8), (8, 6), (8, 7), (8, 8)]);
}

#[test]
fn toggle_on_border_is_a_no_op() {
    let mut e = GameOfLife::new(50, SchedulingMode::Parallel);
    let before = e.snapshot();
    e.toggle_cell(0, 5);
    e.toggle_cell(5, 0);
    e.toggle_cell(51, 5);
    e.toggle_cell(5, 51);
    e.toggle_cell(600, 600);
    assert!(grids_equal(&before, &e.snapshot()));
}

#[test]
fn toggle_twice_restores_the_grid() {
    let mut e = GameOfLife::new(50, SchedulingMode::Parallel);
    e.seed_random(11);
    let before = e.snapshot();
    e.toggle_cell(17, 33);
    assert!(!grids_equal(&before, &e.snapshot()));
    e.toggle_cell(17, 33);
    assert!(grids_equal(&before, &e.snapshot()));
}

#[test]
fn generation_result_reports_the_committed_grid() {
    let mut e = GameOfLife::new(50, SchedulingMode::Cooperative { time_slice: 5 });
    e.load_pattern(0).unwrap();
    let r = e.advance();
    assert_eq!(r.generation_count, 1);
    assert!(!r.cycle_detected);
    assert!(grids_equal(&r.grid_snapshot, &e.snapshot()));
}

#[test]
fn trait_interface_drives_the_engine() {
    let mut e = GameOfLife::new(50, SchedulingMode::Parallel);
    e.set_selected_pattern(1);
    e.apply_selected_pattern();
    assert_eq!(live_cells(&e), vec![(25, 24), (25, 25), (25, 26)]);
    e.update_generation();
    assert_eq!(e.generation(), 1);
    assert_eq!(live_cells(&e), vec![(24, 25), (25, 25), (26, 25)]);
    assert!(e.check_border_cells_dead());
    e.clear_grid();
    assert_eq!(e.generation(), 0);
    assert!(live_cells(&e).is_empty());
}

#[test]
fn apply_selected_pattern_out_of_range_changes_nothing() {
    let mut e = GameOfLife::new(50, SchedulingMode::Parallel);
    e.seed_random(8);
    let before = e.snapshot();
    e.set_selected_pattern(99);
    e.apply_selected_pattern();
    assert!(grids_equal(&before, &e.snapshot()));
}

#[test]
fn hash_grid_is_stable_and_sensitive() {
    let mut a = GameOfLife::new(50, SchedulingMode::Parallel);
    let mut b = GameOfLife::new(50, SchedulingMode::Parallel);
    a.seed_random(4);
    b.seed_random(4);
    assert_eq!(a.hash_grid(), b.hash_grid());
    b.toggle_cell(1, 1);
    assert_ne!(a.hash_grid(), b.hash_grid());
}

#[test]
fn check_for_cycle_records_and_matches() {
    let mut e = GameOfLife::new(50, SchedulingMode::Parallel);
    e.seed_random(13);
    assert!(!e.check_for_cycle());
    // the same grid observed again is a (trivial) repeat
    assert!(e.check_for_cycle());
}

#[test]
fn default_engine_matches_reference_configuration() {
    let e = GameOfLife::default();
    assert_eq!(e.size(), 50);
    assert_eq!(e.generation(), 0);
    assert!(!e.running());
    assert_eq!(e.mode(), SchedulingMode::Cooperative { time_slice: 2 });
    assert!(live_cells(&e).is_empty());
}

#[test]
fn mode_can_be_reconfigured_without_changing_results() {
    let mut e = GameOfLife::new(50, SchedulingMode::Parallel);
    assert_eq!(e.mode(), SchedulingMode::Parallel);
    e.seed_random(21);
    let mut f = GameOfLife::new(50, SchedulingMode::Parallel);
    f.seed_random(21);
    e.set_mode(SchedulingMode::Cooperative { time_slice: 2 });
    e.advance();
    f.advance();
    assert!(grids_equal(&e.snapshot(), &f.snapshot()));
}

#[test]
fn random_seeding_via_generation_counter() {
    let mut a = GameOfLife::new(50, SchedulingMode::Parallel);
    // with generation 0, the async-style reseed draws from seed 0
    a.apply_random_pattern_async();
    let mut b = GameOfLife::new(50, SchedulingMode::Parallel);
    b.seed_random(0);
    assert!(grids_equal(&a.snapshot(), &b.snapshot()));
    assert_eq!(a.generation(), 0);
    // toggle_cell_async matches toggle_cell
    a.toggle_cell_async(2, 3);
    b.toggle_cell(2, 3);
    assert!(grids_equal(&a.snapshot(), &b.snapshot()));
}
