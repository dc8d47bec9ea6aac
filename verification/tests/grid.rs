use game_of_life::{Cell, Grid};

fn seed(width: usize, height: usize, alive: &[(usize, usize)]) -> Vec<Vec<bool>> {
    let mut values = vec![vec![false; height]; width];
    for &(x, y) in alive {
        values[x][y] = true;
    }
    values
}

fn displayed(grid: &Grid) -> Vec<Vec<bool>> {
    let mut values = vec![vec![false; grid.height()]; grid.width()];
    for x in 0..grid.width() {
        for y in 0..grid.height() {
            values[x][y] = grid.get_cell(x, y).unwrap().is_alive;
        }
    }
    values
}

fn staged(grid: &Grid) -> Vec<Vec<bool>> {
    let mut values = vec![vec![false; grid.height()]; grid.width()];
    for x in 0..grid.width() {
        for y in 0..grid.height() {
            values[x][y] = grid.get_cell(x, y).unwrap().is_alive_next;
        }
    }
    values
}

#[test]
fn rule_for_a_live_cell() {
    let expected = [false, false, true, true, false, false, false, false, false];
    for n in 0..9 {
        let mut cell = Cell { is_alive: true, is_alive_next: false };
        cell.calculate_next_round(n);
        assert_eq!(cell.is_alive_next, expected[n as usize]);
        assert!(cell.is_alive);
    }
}

#[test]
fn rule_for_a_dead_cell() {
    let expected = [false, false, false, true, false, false, false, false, false];
    for n in 0..9 {
        let mut cell = Cell { is_alive: false, is_alive_next: true };
        cell.calculate_next_round(n);
        assert_eq!(cell.is_alive_next, expected[n as usize]);
        assert!(!cell.is_alive);
    }
}

#[test]
fn from_copies_the_seed_into_both_generations() {
    let values = seed(3, 2, &[(0, 1), (2, 0)]);
    let grid = Grid::from(3, 2, values.clone());
    assert_eq!(grid.width(), 3);
    assert_eq!(grid.height(), 2);
    assert_eq!(displayed(&grid), values);
    assert_eq!(staged(&grid), values);
    assert_eq!(
        grid.get_cell(0, 1),
        Some(&Cell { is_alive: true, is_alive_next: true })
    );
    assert_eq!(
        grid.get_cell(1, 1),
        Some(&Cell { is_alive: false, is_alive_next: false })
    );
}

#[test]
fn from_accepts_an_empty_grid() {
    let mut grid = Grid::from(0, 0, Vec::new());
    assert_eq!(grid.width(), 0);
    assert_eq!(grid.height(), 0);
    assert_eq!(grid.get_cell(0, 0), None);
    grid.step();
    assert_eq!(grid.width(), 0);
    assert_eq!(grid.height(), 0);
}

#[test]
fn get_cell_outside_the_grid_is_none() {
    let mut grid = Grid::from(3, 2, seed(3, 2, &[]));
    assert!(grid.get_cell(2, 1).is_some());
    assert_eq!(grid.get_cell(3, 0), None);
    assert_eq!(grid.get_cell(0, 2), None);
    assert_eq!(grid.get_cell(3, 2), None);
    assert_eq!(grid.get_cell(usize::MAX, usize::MAX), None);
    assert!(grid.get_cell_mut(2, 1).is_some());
    assert!(grid.get_cell_mut(3, 0).is_none());
    assert!(grid.get_cell_mut(0, 2).is_none());
}

#[test]
fn get_cell_mut_writes_one_cell() {
    let mut grid = Grid::from(3, 3, seed(3, 3, &[]));
    if let Some(cell) = grid.get_cell_mut(1, 2) {
        cell.is_alive = true;
    }
    assert_eq!(displayed(&grid), seed(3, 3, &[(1, 2)]));
    assert_eq!(staged(&grid), seed(3, 3, &[]));
    assert_eq!(grid.width(), 3);
    assert_eq!(grid.height(), 3);
}

#[test]
fn centre_of_a_full_three_by_three_grid_has_eight_neighbours_and_dies() {
    let all: Vec<(usize, usize)> = (0..3).flat_map(|x| (0..3).map(move |y| (x, y))).collect();
    let mut grid = Grid::from(3, 3, seed(3, 3, &all));
    assert_eq!(grid.count_living_neighbours(1, 1), 8);
    let mut centre = *grid.get_cell(1, 1).unwrap();
    centre.calculate_next_round(8);
    assert!(!centre.is_alive_next);
    grid.step();
    assert!(!grid.get_cell(1, 1).unwrap().is_alive_next);
    assert_eq!(staged(&grid), seed(3, 3, &[]));
}

#[test]
fn neighbour_count_leaves_the_cell_itself_out() {
    let grid = Grid::from(5, 5, seed(5, 5, &[(2, 2)]));
    assert_eq!(grid.count_living_neighbours(2, 2), 0);
    assert_eq!(grid.count_living_neighbours(1, 1), 1);
    assert_eq!(grid.count_living_neighbours(2, 1), 1);
    assert_eq!(grid.count_living_neighbours(3, 3), 1);
    assert_eq!(grid.count_living_neighbours(0, 0), 0);
    assert_eq!(grid.count_living_neighbours(4, 2), 0);
}

#[test]
fn neighbour_count_reads_the_display_not_the_staging() {
    let mut grid = Grid::from(4, 4, seed(4, 4, &[]));
    grid.get_cell_mut(1, 1).unwrap().is_alive_next = true;
    assert_eq!(grid.count_living_neighbours(2, 2), 0);
    grid.get_cell_mut(1, 1).unwrap().is_alive = true;
    assert_eq!(grid.count_living_neighbours(2, 2), 1);
}

#[test]
fn origin_is_a_neighbour_across_the_edges() {
    for &(width, height) in &[(3usize, 3usize), (4, 5), (7, 3), (2, 2), (5, 4)] {
        let grid = Grid::from(width, height, seed(width, height, &[(0, 0)]));
        let right = (width - 1) as i32;
        let bottom = (height - 1) as i32;
        assert!(grid.count_living_neighbours(right, bottom) >= 1);
        assert!(grid.count_living_neighbours(right, 0) >= 1);
        assert!(grid.count_living_neighbours(0, bottom) >= 1);
    }
    let grid = Grid::from(4, 5, seed(4, 5, &[(0, 0)]));
    assert_eq!(grid.count_living_neighbours(3, 4), 1);
    assert_eq!(grid.count_living_neighbours(3, 0), 1);
    assert_eq!(grid.count_living_neighbours(0, 4), 1);
    assert_eq!(grid.count_living_neighbours(2, 2), 0);
}

#[test]
fn far_corner_is_a_neighbour_of_the_origin() {
    let grid = Grid::from(4, 5, seed(4, 5, &[(3, 4)]));
    assert_eq!(grid.count_living_neighbours(0, 0), 1);
    let grid = Grid::from(4, 5, seed(4, 5, &[(3, 4), (3, 0), (0, 4), (3, 1), (1, 4)]));
    assert_eq!(grid.count_living_neighbours(0, 0), 5);
}

#[test]
fn narrow_grids_count_a_cell_once_for_each_way_round() {
    let grid = Grid::from(1, 1, seed(1, 1, &[(0, 0)]));
    assert_eq!(grid.count_living_neighbours(0, 0), 8);
    let grid = Grid::from(1, 3, seed(1, 3, &[(0, 1)]));
    assert_eq!(grid.count_living_neighbours(0, 1), 2);
    assert_eq!(grid.count_living_neighbours(0, 0), 3);
    let grid = Grid::from(2, 2, seed(2, 2, &[(0, 0)]));
    assert_eq!(grid.count_living_neighbours(0, 0), 0);
    assert_eq!(grid.count_living_neighbours(1, 0), 2);
    assert_eq!(grid.count_living_neighbours(1, 1), 4);
}

#[test]
fn step_on_a_dead_grid_leaves_a_dead_grid() {
    for &(width, height) in &[(1usize, 1usize), (1, 4), (3, 3), (6, 2)] {
        let mut grid = Grid::from(width, height, seed(width, height, &[]));
        grid.step();
        assert_eq!(displayed(&grid), seed(width, height, &[]));
        assert_eq!(staged(&grid), seed(width, height, &[]));
        grid.step();
        assert_eq!(displayed(&grid), seed(width, height, &[]));
        assert_eq!(staged(&grid), seed(width, height, &[]));
    }
}

#[test]
fn lone_cell_dies_at_every_coordinate() {
    for &(width, height) in &[(2usize, 2usize), (3, 3), (5, 4)] {
        for x in 0..width {
            for y in 0..height {
                let mut grid = Grid::from(width, height, seed(width, height, &[(x, y)]));
                assert_eq!(grid.count_living_neighbours(x as i32, y as i32), 0);
                grid.step();
                assert_eq!(displayed(&grid), seed(width, height, &[(x, y)]));
                assert!(!grid.get_cell(x, y).unwrap().is_alive_next);
                assert_eq!(staged(&grid), seed(width, height, &[]));
                grid.step();
                assert_eq!(displayed(&grid), seed(width, height, &[]));
            }
        }
    }
}

#[test]
fn lone_cell_of_a_grid_of_one_cell_dies() {
    let mut grid = Grid::from(1, 1, seed(1, 1, &[(0, 0)]));
    grid.step();
    assert_eq!(displayed(&grid), seed(1, 1, &[(0, 0)]));
    assert_eq!(staged(&grid), seed(1, 1, &[]));
}

#[test]
fn lone_cell_on_a_grid_one_cell_wide_meets_itself() {
    let mut grid = Grid::from(1, 3, seed(1, 3, &[(0, 1)]));
    grid.step();
    assert_eq!(staged(&grid), seed(1, 3, &[(0, 0), (0, 1), (0, 2)]));
}

#[test]
fn first_step_keeps_the_seed_on_display() {
    let blinker = seed(5, 5, &[(1, 2), (2, 2), (3, 2)]);
    let mut grid = Grid::from(5, 5, blinker.clone());
    grid.step();
    assert_eq!(displayed(&grid), blinker);
    assert_eq!(staged(&grid), seed(5, 5, &[(2, 1), (2, 2), (2, 3)]));
}

#[test]
fn blinker_oscillates_with_period_two() {
    let across = seed(5, 5, &[(1, 2), (2, 2), (3, 2)]);
    let down = seed(5, 5, &[(2, 1), (2, 2), (2, 3)]);
    let mut grid = Grid::from(5, 5, across.clone());
    grid.step();
    assert_eq!(staged(&grid), down);
    grid.step();
    assert_eq!(displayed(&grid), down);
    assert_eq!(staged(&grid), across);
    grid.step();
    assert_eq!(displayed(&grid), across);
    assert_eq!(staged(&grid), down);
    grid.step();
    assert_eq!(displayed(&grid), down);
    assert_eq!(staged(&grid), across);
}

#[test]
fn upright_blinker_oscillates_too() {
    let across = seed(7, 6, &[(2, 3), (3, 3), (4, 3)]);
    let down = seed(7, 6, &[(3, 2), (3, 3), (3, 4)]);
    let mut grid = Grid::from(7, 6, down.clone());
    grid.step();
    grid.step();
    assert_eq!(displayed(&grid), across);
    grid.step();
    assert_eq!(displayed(&grid), down);
}

#[test]
fn second_step_works_on_the_first_step_s_generation() {
    // An L of three cells becomes a block, and a block stays a block. Had the
    // second step gone by the seed again, the display would still show the L.
    let corner = seed(6, 6, &[(2, 2), (3, 2), (2, 3)]);
    let block = seed(6, 6, &[(2, 2), (3, 2), (2, 3), (3, 3)]);
    let mut grid = Grid::from(6, 6, corner.clone());
    grid.step();
    assert_eq!(displayed(&grid), corner);
    assert_eq!(staged(&grid), block);
    grid.step();
    assert_eq!(displayed(&grid), block);
    assert_eq!(staged(&grid), block);
    grid.step();
    assert_eq!(displayed(&grid), block);
}

#[test]
fn step_reads_only_the_generation_it_promoted() {
    // Row of three at the top edge of a 5 by 5 torus: it turns through the
    // edge, which an update in place would get wrong.
    let across = seed(5, 5, &[(1, 0), (2, 0), (3, 0)]);
    let down = seed(5, 5, &[(2, 4), (2, 0), (2, 1)]);
    let mut grid = Grid::from(5, 5, across.clone());
    grid.step();
    assert_eq!(staged(&grid), down);
    grid.step();
    assert_eq!(displayed(&grid), down);
    assert_eq!(staged(&grid), across);
}

#[test]
fn step_keeps_the_shape() {
    let mut grid = Grid::from(4, 7, seed(4, 7, &[(0, 0), (1, 1), (2, 2)]));
    grid.step();
    assert_eq!(grid.width(), 4);
    assert_eq!(grid.height(), 7);
    assert!(grid.get_cell(3, 6).is_some());
    assert!(grid.get_cell(4, 6).is_none());
}
