use grid::Grid;
use grid::GridPos;

#[test]
fn pos_value_round_trip() {
    let p = GridPos::new(7);
    assert_eq!(p.value(), 7);
    assert_eq!(p, GridPos::new(7));
    assert_ne!(p, GridPos::new(8));
}

#[test]
fn pos_at_flat_grid() {
    // 1, 2, 3,
    // 4, 5, 6,
    let g = Grid::new(3, vec![1, 2, 3, 4, 5, 6]);
    assert_eq!(g.pos_at(0, 0), Some(GridPos::new(0)));
    assert_eq!(g.pos_at(1, 0), Some(GridPos::new(3)));
    assert_eq!(g.pos_at(0, 2), Some(GridPos::new(2)));
    assert_eq!(g.pos_at(1, 2), Some(GridPos::new(5)));
    assert_eq!(g.pos_at(5, 5), None);
}

#[test]
fn pos_at_rejects_out_of_range_rows() {
    let g = Grid::new(3, vec![1, 2, 3, 4, 5, 6]);
    assert_eq!(g.pos_at(2, 0), None);
    assert_eq!(g.pos_at(0, 3), None);
    let empty: Grid<i32> = Grid::new(0, vec![]);
    assert_eq!(empty.pos_at(0, 0), None);
}

#[test]
fn width_and_size() {
    let g = Grid::new(3, vec![1, 2, 3, 4, 5, 6]);
    assert_eq!(g.width(), 3);
    assert_eq!(g.size(), 6);
}

#[test]
fn get_in_and_out_of_range() {
    let g = Grid::new(2, vec![10, 20, 30, 40]);
    assert_eq!(g.get(&GridPos::new(0)), Some(&10));
    assert_eq!(g.get(&GridPos::new(3)), Some(&40));
    assert_eq!(g.get(&GridPos::new(4)), None);
}

#[test]
fn get_mut_writes_through() {
    let mut g = Grid::new(2, vec![10, 20, 30, 40]);
    if let Some(cell) = g.get_mut(&GridPos::new(2)) {
        *cell = 99;
    }
    assert_eq!(g.get(&GridPos::new(2)), Some(&99));
    assert!(g.get_mut(&GridPos::new(4)).is_none());
}

#[test]
fn put_then_get_returns_new_value() {
    let mut g = Grid::new(2, vec![10, 20, 30, 40]);
    g.put(&GridPos::new(1), 77);
    assert_eq!(g.get(&GridPos::new(1)), Some(&77));
    assert_eq!(g.get(&GridPos::new(0)), Some(&10));
}

#[test]
fn put_out_of_range_is_a_no_op() {
    let mut g = Grid::new(2, vec![10, 20, 30, 40]);
    g.put(&GridPos::new(9), 77);
    assert_eq!(g.get(&GridPos::new(0)), Some(&10));
    assert_eq!(g.get(&GridPos::new(1)), Some(&20));
    assert_eq!(g.get(&GridPos::new(2)), Some(&30));
    assert_eq!(g.get(&GridPos::new(3)), Some(&40));
    assert_eq!(g.size(), 4);
}

#[test]
fn neighbors_of_corner_and_center() {
    // 0, 1, 2,
    // 3, 4, 5,
    // 6, 7, 8,
    let g = Grid::from_rows(vec![vec![0, 1, 2], vec![3, 4, 5], vec![6, 7, 8]]);
    assert_eq!(
        g.get_neighbors(&GridPos::new(0)),
        [None, Some(GridPos::new(1)), Some(GridPos::new(3)), None]
    );
    assert_eq!(
        g.get_neighbors(&GridPos::new(4)),
        [
            Some(GridPos::new(1)),
            Some(GridPos::new(5)),
            Some(GridPos::new(7)),
            Some(GridPos::new(3))
        ]
    );
    assert_eq!(
        g.get_neighbors(&GridPos::new(7)),
        [
            Some(GridPos::new(4)),
            Some(GridPos::new(8)),
            None,
            Some(GridPos::new(6))
        ]
    );
}

#[test]
fn neighbors_flat_keeps_order_and_drops_absent() {
    let g = Grid::from_rows(vec![vec![0, 1, 2], vec![3, 4, 5], vec![6, 7, 8]]);
    assert_eq!(
        g.get_neighbors_flat(&GridPos::new(8)),
        vec![GridPos::new(5), GridPos::new(7)]
    );
    assert_eq!(
        g.get_neighbors_flat(&GridPos::new(4)),
        vec![
            GridPos::new(1),
            GridPos::new(5),
            GridPos::new(7),
            GridPos::new(3)
        ]
    );
    assert_eq!(g.get_neighbors_flat(&GridPos::new(0)).len(), 2);
}

#[test]
fn offset_reads_relative_cells() {
    // 1, 2, 3,
    // 4, 5, 6,
    // 7, 8, 9,
    let g = Grid::new(3, vec![1, 2, 3, 4, 5, 6, 7, 8, 9]);
    let origin = g.pos_at(0, 0).unwrap();
    let center = g.pos_at(1, 1).unwrap();
    assert_eq!(g.get_at_offset(&origin, 1, 1), g.get(&center));
    assert_eq!(g.get_at_offset(&g.pos_at(1, 2).unwrap(), 0, 1), None);
    assert_eq!(g.get_at_offset(&g.pos_at(1, 2).unwrap(), 1, 0), Some(&9));
}

#[test]
fn offset_rejects_negative_targets() {
    let g = Grid::new(3, vec![1, 2, 3, 4, 5, 6, 7, 8, 9]);
    let origin = g.pos_at(0, 0).unwrap();
    assert_eq!(g.get_at_offset(&origin, -1, 0), None);
    assert_eq!(g.get_at_offset(&origin, 0, -1), None);
    assert_eq!(g.get_at_offset(&origin, 0, 0), Some(&1));
}

#[test]
fn iter_visits_linear_order_and_restarts() {
    let g = Grid::new(2, vec![10, 20, 30, 40]);
    let mut it = g.iter();
    let mut seen = Vec::new();
    while let Some(v) = it.next() {
        seen.push(*v);
    }
    assert_eq!(seen, vec![10, 20, 30, 40]);
    assert!(it.next().is_none());
    let mut again = g.iter();
    assert_eq!(again.next(), Some(&10));
}

#[test]
fn iter_on_empty_grid_is_immediately_done() {
    let g: Grid<i32> = Grid::new(0, vec![]);
    let mut it = g.iter();
    assert!(it.next().is_none());
}

#[test]
fn single_column_has_no_sideways_neighbors() {
    let g = Grid::from_rows(vec![vec![1], vec![2], vec![3]]);
    assert_eq!(
        g.get_neighbors(&GridPos::new(1)),
        [Some(GridPos::new(0)), None, Some(GridPos::new(2)), None]
    );
    assert_eq!(
        g.get_neighbors_flat(&GridPos::new(0)),
        vec![GridPos::new(1)]
    );
}

#[test]
fn single_cell_has_no_neighbors() {
    let g = Grid::from_rows(vec![vec![42]]);
    assert_eq!(g.get_neighbors(&GridPos::new(0)), [None, None, None, None]);
    assert!(g.get_neighbors_flat(&GridPos::new(0)).is_empty());
}

#[test]
fn separator_follows_each_element() {
    let g = Grid::new(3, vec![1, 2, 3, 4, 5, 6]);
    assert_eq!(g.separator_after(0), ", ");
    assert_eq!(g.separator_after(1), ", ");
    assert_eq!(g.separator_after(2), ",\n");
    assert_eq!(g.separator_after(5), ",\n");
}
