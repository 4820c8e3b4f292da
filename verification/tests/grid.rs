use vecmap::{GridError, VecMap};

#[test]
fn retrieve_len() {
    let map = VecMap::filled_with(0, 2, 2).unwrap();
    assert_eq!(map.retrieve(1, 1), Ok(0));
}

#[test]
fn fill_sets_every_cell() {
    let map = VecMap::filled_with(5_i64, 3, 4).unwrap();
    assert_eq!(map.width(), 3);
    assert_eq!(map.height(), 4);
    assert_eq!(map.items().len(), 12);
    for y in 0..4 {
        for x in 0..3 {
            assert_eq!(map.retrieve(x, y), Ok(5));
        }
    }
}

#[test]
fn construction_rejects_zero_width() {
    assert_eq!(
        VecMap::filled_with('a', 0, 7).unwrap_err(),
        GridError::InvalidDimensions
    );
}

#[test]
fn construction_rejects_zero_height() {
    assert_eq!(
        VecMap::filled_with('a', 7, 0).unwrap_err(),
        GridError::InvalidDimensions
    );
}

#[test]
fn construction_rejects_negative_dimensions() {
    assert_eq!(
        VecMap::filled_with(1u8, -2, -2).unwrap_err(),
        GridError::InvalidDimensions
    );
    assert_eq!(
        VecMap::filled_with(1u8, -1, 4).unwrap_err(),
        GridError::InvalidDimensions
    );
    assert_eq!(
        VecMap::filled_with(1u8, 4, -1).unwrap_err(),
        GridError::InvalidDimensions
    );
}

#[test]
fn xy_idx_is_row_major() {
    let map = VecMap::filled_with(0u8, 4, 3).unwrap();
    assert_eq!(map.xy_idx(0, 0), 0);
    assert_eq!(map.xy_idx(3, 0), 3);
    assert_eq!(map.xy_idx(0, 1), 4);
    assert_eq!(map.xy_idx(2, 2), 10);
    assert_eq!(map.xy_idx(3, 2), 11);
}

#[test]
fn idx_xy_is_reverse_mapping() {
    let map = VecMap::filled_with(0u8, 4, 3).unwrap();
    assert_eq!(map.idx_xy(0), (0, 0));
    assert_eq!(map.idx_xy(3), (3, 0));
    assert_eq!(map.idx_xy(4), (0, 1));
    assert_eq!(map.idx_xy(10), (2, 2));
    assert_eq!(map.idx_xy(11), (3, 2));
}

#[test]
fn coordinate_index_round_trip() {
    let map = VecMap::filled_with(0u8, 5, 7).unwrap();
    for y in 0..7 {
        for x in 0..5 {
            let idx = map.xy_idx(x, y);
            assert!(idx < 35);
            assert_eq!(map.idx_xy(idx), (x, y));
        }
    }
}

#[test]
fn is_in_bounds_edges() {
    let map = VecMap::filled_with(0u8, 3, 2).unwrap();
    assert!(map.is_in_bounds(0, 0));
    assert!(map.is_in_bounds(2, 1));
    assert!(!map.is_in_bounds(3, 1));
    assert!(!map.is_in_bounds(2, 2));
    assert!(!map.is_in_bounds(-1, 0));
    assert!(!map.is_in_bounds(0, -1));
}

#[test]
fn set_then_retrieve() {
    let mut map = VecMap::filled_with(0, 2, 2).unwrap();
    assert_eq!(map.set_point(1, 1, 9), Ok(()));
    assert_eq!(map.retrieve(1, 1), Ok(9));
    assert_eq!(map.retrieve(0, 0), Ok(0));
    assert_eq!(map.retrieve(1, 0), Ok(0));
    assert_eq!(map.retrieve(0, 1), Ok(0));
    assert_eq!(
        map.retrieve(2, 0),
        Err(GridError::OutOfBounds { x: 2, y: 0 })
    );
}

#[test]
fn out_of_bounds_operations_leave_grid_unchanged() {
    let mut map = VecMap::filled_with(1, 2, 3).unwrap();
    map.set_point(1, 2, 8).unwrap();

    assert_eq!(
        map.retrieve(-1, 0),
        Err(GridError::OutOfBounds { x: -1, y: 0 })
    );
    assert_eq!(
        map.set_point(2, 0, 4),
        Err(GridError::OutOfBounds { x: 2, y: 0 })
    );
    assert_eq!(
        map.set_point(0, 3, 4),
        Err(GridError::OutOfBounds { x: 0, y: 3 })
    );
    assert_eq!(
        map.reset_point(0, -1),
        Err(GridError::OutOfBounds { x: 0, y: -1 })
    );

    assert_eq!(map.items(), &vec![1, 1, 1, 1, 1, 8]);
    assert_eq!(map.retrieve(1, 2), Ok(8));
}

#[test]
fn reset_point_restores_default() {
    let mut map = VecMap::filled_with(3, 2, 2).unwrap();
    map.set_point(0, 1, 42).unwrap();
    assert_eq!(map.retrieve(0, 1), Ok(42));
    assert_eq!(map.reset_point(0, 1), Ok(()));
    assert_eq!(map.retrieve(0, 1), Ok(3));
}

#[test]
fn reset_map_restores_every_cell() {
    let mut map = VecMap::filled_with(7, 3, 3).unwrap();
    for y in 0..3 {
        for x in 0..3 {
            map.set_point(x, y, x * 10 + y).unwrap();
        }
    }
    map.reset_map();
    for y in 0..3 {
        for x in 0..3 {
            assert_eq!(map.retrieve(x, y), Ok(7));
        }
    }
}

#[test]
fn single_row_and_single_column_grids() {
    let mut row = VecMap::filled_with(0, 6, 1).unwrap();
    assert_eq!(row.xy_idx(5, 0), 5);
    assert_eq!(row.idx_xy(5), (5, 0));
    assert_eq!(row.set_point(5, 0, 2), Ok(()));
    assert_eq!(row.retrieve(5, 0), Ok(2));
    assert_eq!(
        row.retrieve(0, 1),
        Err(GridError::OutOfBounds { x: 0, y: 1 })
    );

    let col = VecMap::filled_with(0, 1, 6).unwrap();
    assert_eq!(col.xy_idx(0, 5), 5);
    assert_eq!(col.idx_xy(5), (0, 5));
    assert_eq!(
        col.retrieve(1, 0),
        Err(GridError::OutOfBounds { x: 1, y: 0 })
    );
}

#[test]
fn example_scenario() {
    let mut map = VecMap::filled_with(0, 2, 2).unwrap();
    assert_eq!(map.retrieve(1, 1), Ok(0));
    assert_eq!(map.set_point(1, 1, 9), Ok(()));
    assert_eq!(map.retrieve(1, 1), Ok(9));
    assert_eq!(map.retrieve(0, 0), Ok(0));
    assert_eq!(
        map.retrieve(2, 0),
        Err(GridError::OutOfBounds { x: 2, y: 0 })
    );
}
