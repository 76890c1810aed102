use vollmond::utils::vecgrid::VecGrid;
use vollmond::utils::{rgba8_color, Color, Rect, Vec2};

#[test]
fn new_grid_is_empty() {
    let grid: VecGrid<u32> = VecGrid::new(3, 2);
    for y in 0..2 {
        for x in 0..3 {
            assert_eq!(grid.get(x, y), None);
        }
    }
    assert_eq!(grid.get_data().len(), 6);
}

#[test]
fn empty_grid_has_no_cells() {
    let grid: VecGrid<u32> = VecGrid::new(0, 5);
    assert_eq!(grid.get_data().len(), 0);
    assert_eq!(grid.get(0, 0), None);
}

#[test]
fn set_then_get_returns_the_value() {
    let mut grid: VecGrid<u32> = VecGrid::new(3, 2);
    grid.set(7, 2, 1);
    assert_eq!(grid.get(2, 1), Some(&7));
    assert_eq!(grid.get(1, 1), None);
    assert_eq!(grid.get(2, 0), None);
    assert_eq!(grid.get_data()[5], Some(7));
}

#[test]
fn set_on_every_cell_then_get() {
    let mut grid: VecGrid<usize> = VecGrid::new(4, 3);
    for y in 0..3 {
        for x in 0..4 {
            grid.set(10 * y + x, x, y);
        }
    }
    for y in 0..3 {
        for x in 0..4 {
            assert_eq!(grid.get(x, y), Some(&(10 * y + x)));
        }
    }
}

#[test]
fn cells_are_stored_row_by_row() {
    let mut grid: VecGrid<char> = VecGrid::new(3, 2);
    grid.set('a', 1, 0);
    grid.set('b', 0, 1);
    assert_eq!(grid.get_data(), &vec![None, Some('a'), None, Some('b'), None, None]);
}

#[test]
fn delete_then_get_returns_nothing() {
    let mut grid: VecGrid<u32> = VecGrid::new(3, 2);
    grid.set(7, 2, 1);
    grid.set(8, 1, 1);
    grid.delete(2, 1);
    assert_eq!(grid.get(2, 1), None);
    assert_eq!(grid.get(1, 1), Some(&8));
}

#[test]
fn delete_of_an_empty_cell_changes_nothing() {
    let mut grid: VecGrid<u32> = VecGrid::new(2, 2);
    grid.set(1, 0, 0);
    grid.delete(1, 1);
    assert_eq!(grid.get_data(), &vec![Some(1), None, None, None]);
}

#[test]
fn get_outside_the_grid_returns_nothing() {
    let mut grid: VecGrid<u32> = VecGrid::new(3, 2);
    for y in 0..2 {
        for x in 0..3 {
            grid.set(1, x, y);
        }
    }
    assert_eq!(grid.get(3, 0), None);
    assert_eq!(grid.get(0, 2), None);
    assert_eq!(grid.get(3, 2), None);
    assert_eq!(grid.get(usize::MAX, 0), None);
    assert_eq!(grid.get(0, usize::MAX), None);
    assert_eq!(grid.get(usize::MAX, usize::MAX), None);
}

#[test]
fn get_past_the_end_of_a_row_does_not_wrap() {
    let mut grid: VecGrid<u32> = VecGrid::new(3, 2);
    grid.set(9, 0, 1);
    assert_eq!(grid.get(3, 0), None);
}

#[test]
fn get_mut_changes_one_cell() {
    let mut grid: VecGrid<u32> = VecGrid::new(3, 2);
    grid.set(7, 2, 1);
    grid.set(5, 0, 0);
    if let Some(cell) = grid.get_mut(2, 1) {
        *cell = 11;
    }
    assert_eq!(grid.get(2, 1), Some(&11));
    assert_eq!(grid.get(0, 0), Some(&5));
    assert!(grid.get_mut(1, 1).is_none());
    assert!(grid.get_mut(3, 0).is_none());
    assert!(grid.get_mut(usize::MAX, usize::MAX).is_none());
}

#[test]
fn set_data_replaces_the_grid() {
    let mut grid: VecGrid<u32> = VecGrid::new(1, 1);
    grid.set_data(vec![Some(1), None, Some(3), Some(4), None, Some(6)], 2, 3);
    assert_eq!(grid.get_data().len(), 6);
    assert_eq!(grid.get(0, 0), Some(&1));
    assert_eq!(grid.get(1, 0), None);
    assert_eq!(grid.get(0, 1), Some(&3));
    assert_eq!(grid.get(1, 1), Some(&4));
    assert_eq!(grid.get(1, 2), Some(&6));
    assert_eq!(grid.get(2, 0), None);
    assert_eq!(grid.get(0, 3), None);
}

#[test]
fn rectangle_and_point_from_their_parts() {
    assert_eq!(Rect::new(1, 2, 3, 4), Rect { x: 1, y: 2, w: 3, h: 4 });
    assert_eq!(Vec2::new(-1, 2), Vec2 { x: -1, y: 2 });
}

#[test]
fn colour_from_channels() {
    assert_eq!(rgba8_color(27, 25, 25, 255), Color { r: 27, g: 25, b: 25, a: 255 });
    assert_eq!(Color::white(), Color { r: 255, g: 255, b: 255, a: 255 });
}
