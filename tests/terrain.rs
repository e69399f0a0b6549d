use terrain_board::board::{
    materialize, materialize_with, CellDraw, Kind, Placement, TreeChance, BOARD_COLS, BOARD_ROWS,
    TREE_CHANCE_DENOMINATOR, TREE_CHANCE_NUMERATOR, TREE_THRESHOLD, YAW_MAX_MRAD, YAW_MIN_MRAD,
};
use terrain_board::field::{NoiseField, SAMPLE_SCALE};
use terrain_board::regen::{Phase, Regenerator};

fn field_with_high_cells(cols: usize, rows: usize, high: &[(usize, usize)]) -> NoiseField {
    let mut columns = Vec::new();
    for c in 0..cols {
        let mut column = Vec::new();
        for r in 0..rows {
            if high.contains(&(c, r)) {
                column.push(500_000);
            } else {
                column.push(100_000);
            }
        }
        columns.push(column);
    }
    NoiseField::from_columns(rows, columns).unwrap()
}

fn count(objects: &[Placement], kind: Kind) -> usize {
    objects.iter().filter(|p| p.kind == kind).count()
}

fn coords(objects: &[Placement], kind: Kind) -> Vec<(usize, usize)> {
    let mut v: Vec<(usize, usize)> = objects.iter().filter(|p| p.kind == kind).map(|p| (p.col, p.row)).collect();
    v.sort();
    v
}

#[test]
fn scenario_two_trees_on_four_by_four() {
    let field = field_with_high_cells(4, 4, &[(0, 0), (2, 3)]);
    let chance = TreeChance::from_ratio(1, 1).unwrap();
    let objects = materialize(&field, 200_000, &chance);
    assert_eq!(count(&objects, Kind::Tile), 16);
    assert_eq!(count(&objects, Kind::Tree), 2);
    assert_eq!(coords(&objects, Kind::Tree), vec![(0, 0), (2, 3)]);
}

#[test]
fn every_cell_gets_exactly_one_tile() {
    let field = field_with_high_cells(5, 3, &[(1, 1)]);
    let chance = TreeChance::from_ratio(TREE_CHANCE_NUMERATOR, TREE_CHANCE_DENOMINATOR).unwrap();
    let objects = materialize(&field, TREE_THRESHOLD, &chance);
    let mut expected = Vec::new();
    for c in 0..5 {
        for r in 0..3 {
            expected.push((c, r));
        }
    }
    assert_eq!(coords(&objects, Kind::Tile), expected);
}

#[test]
fn trees_only_on_cells_above_threshold() {
    let field = field_with_high_cells(6, 6, &[(0, 5), (3, 3), (5, 0)]);
    let chance = TreeChance::from_ratio(7, 10).unwrap();
    for _ in 0..20 {
        let objects = materialize(&field, 200_000, &chance);
        let trees = coords(&objects, Kind::Tree);
        assert!(trees.len() <= 3);
        for t in trees {
            assert!(field.value_at(t.0, t.1) > 200_000);
        }
    }
}

#[test]
fn tree_yaw_lies_in_half_open_pi_range() {
    let field = field_with_high_cells(8, 8, &[(0, 0), (1, 1), (2, 2), (3, 3), (4, 4), (5, 5), (6, 6), (7, 7)]);
    let chance = TreeChance::from_ratio(1, 1).unwrap();
    let mut yaws = Vec::new();
    for _ in 0..10 {
        let objects = materialize(&field, 200_000, &chance);
        for p in objects.iter().filter(|p| p.kind == Kind::Tree) {
            assert!(YAW_MIN_MRAD <= p.yaw_mrad && p.yaw_mrad <= YAW_MAX_MRAD);
            let radians = p.yaw_mrad as f64 / 1000.0;
            assert!(-std::f64::consts::PI <= radians && radians < std::f64::consts::PI);
            yaws.push(p.yaw_mrad);
        }
    }
    assert_eq!(yaws.len(), 80);
    yaws.sort();
    yaws.dedup();
    assert!(yaws.len() > 1);
}

#[test]
fn zero_chance_never_grows_trees() {
    let field = field_with_high_cells(4, 4, &[(0, 0), (1, 2), (3, 3)]);
    let chance = TreeChance::from_ratio(0, 5).unwrap();
    let objects = materialize(&field, 200_000, &chance);
    assert_eq!(count(&objects, Kind::Tree), 0);
    assert_eq!(count(&objects, Kind::Tile), 16);
}

#[test]
fn zero_size_board_emits_nothing() {
    let chance = TreeChance::from_ratio(1, 1).unwrap();
    let no_cols = NoiseField::from_columns(4, Vec::new()).unwrap();
    assert!(materialize(&no_cols, 0, &chance).is_empty());
    let no_rows = NoiseField::from_columns(0, vec![Vec::new(), Vec::new()]).unwrap();
    assert!(materialize(&no_rows, 0, &chance).is_empty());
}

#[test]
fn full_size_board_counts() {
    let field = field_with_high_cells(BOARD_COLS, BOARD_ROWS, &[]);
    let chance = TreeChance::from_ratio(TREE_CHANCE_NUMERATOR, TREE_CHANCE_DENOMINATOR).unwrap();
    let objects = materialize(&field, TREE_THRESHOLD, &chance);
    assert_eq!(objects.len(), 48 * 48);
    assert_eq!(count(&objects, Kind::Tree), 0);
}

#[test]
fn materialize_with_follows_the_draws_exactly() {
    let field = field_with_high_cells(2, 2, &[(0, 1), (1, 0), (1, 1)]);
    let draws = vec![
        vec![CellDraw { grows: true, yaw_mrad: 10 }, CellDraw { grows: true, yaw_mrad: -20 }],
        vec![CellDraw { grows: false, yaw_mrad: 30 }, CellDraw { grows: true, yaw_mrad: 3141 }],
    ];
    let objects = materialize_with(&field, 200_000, &draws);
    let tile = |col, row| Placement { kind: Kind::Tile, col, row, yaw_mrad: 0 };
    let tree = |col, row, yaw_mrad| Placement { kind: Kind::Tree, col, row, yaw_mrad };
    assert_eq!(
        objects,
        vec![tile(0, 0), tile(0, 1), tree(0, 1, -20), tile(1, 0), tile(1, 1), tree(1, 1, 3141)]
    );
    assert_eq!(materialize_with(&field, 200_000, &draws), objects);
}

#[test]
fn threshold_is_strict() {
    let field = NoiseField::from_columns(1, vec![vec![200_000], vec![200_001]]).unwrap();
    let chance = TreeChance::from_ratio(3, 3).unwrap();
    let objects = materialize(&field, 200_000, &chance);
    assert_eq!(coords(&objects, Kind::Tree), vec![(1, 0)]);
}

#[test]
fn field_rejects_ragged_columns() {
    assert!(NoiseField::from_columns(2, vec![vec![1, 2], vec![3]]).is_none());
    let f = NoiseField::from_columns(2, vec![vec![1, 2], vec![3, SAMPLE_SCALE]]).unwrap();
    assert_eq!(f.cols(), 2);
    assert_eq!(f.rows(), 2);
    assert_eq!(f.value_at(1, 1), 1_000_000);
    assert_eq!(f.value_at(0, 1), 2);
}

#[test]
fn chance_rejects_invalid_ratios() {
    assert!(TreeChance::from_ratio(1, 0).is_none());
    assert!(TreeChance::from_ratio(0, 0).is_none());
    assert!(TreeChance::from_ratio(4, 3).is_none());
    let c = TreeChance::from_ratio(7, 10).unwrap();
    assert_eq!((c.numerator(), c.denominator()), (7, 10));
}

#[test]
fn regenerations_do_not_accumulate_terrain() {
    let field = field_with_high_cells(3, 3, &[(1, 1)]);
    let chance = TreeChance::from_ratio(1, 1).unwrap();
    let mut world: Vec<u64> = Vec::new();
    let mut next_handle: u64 = 1;
    let mut reg = Regenerator::new();
    for _ in 0..4 {
        assert!(reg.trigger().is_some());
        assert_eq!(reg.phase(), Phase::BuildingField);
        let rep = reg.replace(&field, 200_000, &chance).unwrap();
        assert_eq!(rep.despawn.len(), world.len());
        world.retain(|h| !rep.despawn.contains(h));
        assert!(world.is_empty());
        let mut spawned = Vec::new();
        for _ in &rep.spawn {
            spawned.push(next_handle);
            world.push(next_handle);
            next_handle += 1;
        }
        assert_eq!(reg.phase(), Phase::Spawning { expected: 10 });
        assert!(reg.commit(spawned));
        assert_eq!(reg.phase(), Phase::Idle);
        assert_eq!(world.len(), 10);
        assert_eq!(reg.live_count(), 10);
    }
}

#[test]
fn failed_field_keeps_the_old_board() {
    let field = field_with_high_cells(2, 2, &[]);
    let chance = TreeChance::from_ratio(1, 2).unwrap();
    let mut reg = Regenerator::new();
    assert!(reg.trigger().is_some());
    let rep = reg.replace(&field, 200_000, &chance).unwrap();
    assert!(reg.commit(vec![7, 8, 9, 10]));
    assert_eq!(rep.spawn.len(), 4);
    assert!(reg.trigger().is_some());
    assert!(reg.abandon());
    assert_eq!(reg.phase(), Phase::Idle);
    assert_eq!(reg.live_count(), 4);
    assert!(!reg.abandon());
}

#[test]
fn controller_ignores_out_of_order_events() {
    let field = field_with_high_cells(2, 2, &[]);
    let chance = TreeChance::from_ratio(1, 2).unwrap();
    let mut reg = Regenerator::new();
    assert!(reg.replace(&field, 200_000, &chance).is_none());
    assert!(!reg.commit(vec![1]));
    assert!(reg.trigger().is_some());
    assert!(reg.trigger().is_none());
    assert!(reg.replace(&field, 200_000, &chance).is_some());
    assert!(reg.replace(&field, 200_000, &chance).is_none());
    assert!(!reg.commit(vec![1, 2, 3]));
    assert!(reg.commit(vec![1, 2, 3, 4]));
}
