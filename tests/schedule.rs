use gravity_sim::layout::{cell_position, spawn_cells, GRID_HIGH, GRID_LOW, GRID_SPACING};
use gravity_sim::registry::BodyRegistry;
use gravity_sim::schedule::interaction_pairs;

#[test]
fn no_bodies_no_pairs() {
    assert!(interaction_pairs(&vec![]).is_empty());
}

#[test]
fn single_body_is_never_pulled() {
    assert!(interaction_pairs(&vec![7]).is_empty());
    let reg = BodyRegistry::initialize(1);
    assert!(reg.step_schedule().is_empty());
}

#[test]
fn two_bodies_pull_each_other() {
    assert_eq!(interaction_pairs(&vec![3, 9]), vec![(0, 1), (1, 0)]);
}

#[test]
fn three_bodies_in_row_major_order() {
    assert_eq!(
        interaction_pairs(&vec![10, 20, 30]),
        vec![(0, 1), (0, 2), (1, 0), (1, 2), (2, 0), (2, 1)]
    );
}

#[test]
fn self_exclusion_goes_by_identifier_not_index() {
    // Two entries that carry the same identifier are the same body.
    assert_eq!(interaction_pairs(&vec![5, 6, 5]), vec![(0, 1), (1, 0), (1, 2), (2, 1)]);
}

#[test]
fn initialize_assigns_sequential_identifiers() {
    let reg = BodyRegistry::initialize(4);
    assert_eq!(reg.len(), 4);
    for k in 0..4 {
        assert_eq!(reg.id_at(k), k as u64);
    }
}

#[test]
fn schedule_covers_every_ordered_pair() {
    let n = 6;
    let reg = BodyRegistry::initialize(n);
    let s = reg.step_schedule();
    assert_eq!(s.len(), n * (n - 1));
    for a in 0..n {
        for b in 0..n {
            assert_eq!(s.contains(&(a, b)), a != b);
        }
    }
}

#[test]
fn every_pull_has_its_reaction() {
    let s = BodyRegistry::initialize(5).step_schedule();
    for &(a, b) in &s {
        assert!(s.contains(&(b, a)));
    }
}

#[test]
fn reordering_keeps_who_pulls_whom() {
    let reg = BodyRegistry::initialize(4);
    let moved = reg.reordered(&vec![2, 0, 3, 1]);
    assert_eq!(moved.id_at(0), 2);
    assert_eq!(moved.id_at(1), 0);
    assert_eq!(moved.id_at(2), 3);
    assert_eq!(moved.id_at(3), 1);
    let by_id = |r: &BodyRegistry| {
        let mut v: Vec<(u64, u64)> =
            r.step_schedule().iter().map(|&(a, b)| (r.id_at(a), r.id_at(b))).collect();
        v.sort();
        v
    };
    assert_eq!(by_id(&reg), by_id(&moved));
}

#[test]
fn reordering_changes_visit_order_of_indices_only() {
    let moved = BodyRegistry::initialize(3).reordered(&vec![2, 1, 0]);
    let s = moved.step_schedule();
    assert_eq!(s, vec![(0, 1), (0, 2), (1, 0), (1, 2), (2, 0), (2, 1)]);
    // The first body acted on is now the one with identifier 2.
    assert_eq!(moved.id_at(s[0].0), 2);
}

#[test]
fn spawn_grid_cells() {
    let cells = spawn_cells();
    let side = (GRID_HIGH - GRID_LOW) as usize;
    assert_eq!(cells.len(), side * side);
    assert_eq!(cells[0], (-10, -10));
    assert_eq!(cells[1], (-10, -9));
    assert_eq!(cells[20], (-9, -10));
    assert_eq!(cells[cells.len() - 1], (9, 9));
}

#[test]
fn spawn_grid_positions() {
    assert_eq!(GRID_SPACING, 30);
    assert_eq!(cell_position((-10, -10)), (-300, -300));
    assert_eq!(cell_position((0, 9)), (0, 270));
    assert_eq!(cell_position((3, -2)), (90, -60));
}
