use life_engine::grid::Grid;
use life_engine::object::Object;
use life_engine::Error;

fn live_cells(g: &Grid) -> Vec<(usize, usize)> {
    let mut out = Vec::new();
    for (y, row) in g.cells.iter().enumerate() {
        for (x, cell) in row.iter().enumerate() {
            if cell.alive {
                out.push((x, y));
            }
        }
    }
    out
}

#[test]
fn new_grid_is_dead_and_sized() {
    let g = Grid::new(4, 3);
    assert_eq!(g.width, 4);
    assert_eq!(g.height, 3);
    assert_eq!(g.cells.len(), 3);
    for row in &g.cells {
        assert_eq!(row.len(), 4);
        for cell in row {
            assert!(!cell.alive);
        }
    }
}

#[test]
fn get_reads_cells() {
    let mut g = Grid::new(3, 3);
    g.cells[2][1].alive = true;
    assert!(g.get(1, 2));
    assert!(!g.get(2, 1));
}

#[test]
fn dead_grid_stays_dead() {
    let mut g = Grid::new(8, 8);
    for _ in 0..5 {
        g.advance();
        assert!(live_cells(&g).is_empty());
    }
}

#[test]
fn degenerate_grids_advance() {
    let mut empty = Grid::new(0, 0);
    empty.advance();
    assert!(empty.cells.is_empty());
    let mut lone = Grid::new(1, 1);
    lone.cells[0][0].alive = true;
    lone.advance();
    assert!(!lone.cells[0][0].alive);
}

#[test]
fn block_is_still_life() {
    let block = Object::from_text(b"**\n**").unwrap();
    let mut g = Grid::new(5, 5);
    g.load_object(&block, (1, 1)).unwrap();
    let before = g.cells.clone();
    g.advance();
    assert_eq!(g.cells, before);
    g.advance();
    assert_eq!(g.cells, before);
}

#[test]
fn blinker_oscillates_period_two() {
    let blinker = Object::from_text(b"***").unwrap();
    let mut g = Grid::new(5, 5);
    g.load_object(&blinker, (1, 2)).unwrap();
    let gen0 = g.cells.clone();
    assert_eq!(live_cells(&g), vec![(1, 2), (2, 2), (3, 2)]);
    g.advance();
    assert_eq!(live_cells(&g), vec![(2, 1), (2, 2), (2, 3)]);
    g.advance();
    assert_eq!(g.cells, gen0);
}

#[test]
fn lone_cells_starve_and_three_make_a_birth() {
    // an L-tromino: every live cell has two neighbors and survives, and the
    // fourth corner sees exactly three and is born, giving a block
    let tromino = Object::from_text(b"**\n*.").unwrap();
    let mut g = Grid::new(4, 4);
    g.load_object(&tromino, (1, 1)).unwrap();
    g.advance();
    assert_eq!(live_cells(&g), vec![(1, 1), (2, 1), (1, 2), (2, 2)]);
    // a single live cell has no neighbors and dies
    let dot = Object::from_text(b"*").unwrap();
    let mut lone = Grid::new(3, 3);
    lone.load_object(&dot, (1, 1)).unwrap();
    lone.advance();
    assert!(live_cells(&lone).is_empty());
}

#[test]
fn overcrowded_full_grid_leaves_corners() {
    // on a fully live grid only the corners, with three neighbors each,
    // survive the step
    let full_row = b"********";
    let mut text = Vec::new();
    for y in 0..8 {
        if y > 0 {
            text.push(b'\n');
        }
        text.extend_from_slice(full_row);
    }
    let all = Object::from_text(&text).unwrap();
    let mut g = Grid::new(8, 8);
    g.load_object(&all, (0, 0)).unwrap();
    g.advance();
    assert_eq!(live_cells(&g), vec![(0, 0), (7, 0), (0, 7), (7, 7)]);
}

#[test]
fn stamp_is_an_or_merge() {
    let left = Object::from_text(b"*.").unwrap();
    let right = Object::from_text(b".*").unwrap();
    let mut g = Grid::new(2, 1);
    g.load_object(&left, (0, 0)).unwrap();
    g.load_object(&right, (0, 0)).unwrap();
    // the dead cell of the second pattern did not clear the first stamp
    assert_eq!(live_cells(&g), vec![(0, 0), (1, 0)]);
}

#[test]
fn out_of_bounds_stamp_fails_and_changes_nothing() {
    let dot = Object::from_text(b"*").unwrap();
    let mut g = Grid::new(3, 3);
    assert_eq!(g.load_object(&dot, (3, 0)), Err(Error::OutOfBounds));
    assert_eq!(g.load_object(&dot, (0, 3)), Err(Error::OutOfBounds));
    assert!(live_cells(&g).is_empty());
}

#[test]
fn no_partial_stamping() {
    let block = Object::from_text(b"**\n**").unwrap();
    let mut g = Grid::new(4, 4);
    g.load_object(&block, (0, 0)).unwrap();
    let before = g.cells.clone();
    // the triple starts in bounds at (2, 2) but its last cell would land at
    // x = 4: nothing at all may be stamped
    let triple = Object::from_text(b"***").unwrap();
    assert_eq!(g.load_object(&triple, (2, 2)), Err(Error::OutOfBounds));
    assert_eq!(g.cells, before);
}

#[test]
fn dead_pattern_stamp_changes_nothing() {
    let hole = Object::from_text(b"..\n..").unwrap();
    let block = Object::from_text(b"**\n**").unwrap();
    let mut g = Grid::new(4, 4);
    g.load_object(&block, (1, 1)).unwrap();
    let before = g.cells.clone();
    assert_eq!(g.load_object(&hole, (1, 1)), Ok(()));
    assert_eq!(g.cells, before);
    // dead cells may even hang past the border: nothing is stamped for them
    let mut tiny = Grid::new(1, 1);
    assert_eq!(tiny.load_object(&hole, (0, 0)), Ok(()));
    assert!(!tiny.cells[0][0].alive);
}

#[test]
fn glider_moves_one_step_diagonally_in_four_generations() {
    let glider = Object::from_text(b".*.\n..*\n***").unwrap();
    let mut g = Grid::new(8, 8);
    g.load_object(&glider, (1, 1)).unwrap();
    let start = live_cells(&g);
    for _ in 0..4 {
        g.advance();
    }
    let moved: Vec<(usize, usize)> = start.iter().map(|&(x, y)| (x + 1, y + 1)).collect();
    assert_eq!(live_cells(&g), moved);
}
