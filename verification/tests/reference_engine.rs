//! Differential tests against the `conlife` engine: both simulators get the
//! same starting cells and must agree on every cell of every generation.

fn assert_same(mine: &life_engine::grid::Grid, theirs: &conlife::Grid) {
    for y in 0..theirs.height as usize {
        for x in 0..theirs.width as usize {
            assert_eq!(
                mine.cells[y][x].alive,
                theirs.cells[y][x].alive,
                "disagreement at ({x}, {y})"
            );
        }
    }
}

fn run_both(width: u32, height: u32, seeds: &[(usize, usize)], generations: usize) {
    let mut mine = life_engine::grid::Grid::new(width, height);
    let mut theirs = conlife::Grid::new(width, height);
    for &(x, y) in seeds {
        mine.cells[y][x].alive = true;
        theirs.cells[y][x].alive = true;
    }
    assert_same(&mine, &theirs);
    for _ in 0..generations {
        mine.advance();
        theirs.advance();
        assert_same(&mine, &theirs);
    }
}

#[test]
fn agrees_with_reference_on_a_soup() {
    let seeds = [
        (1, 1),
        (2, 1),
        (3, 1),
        (3, 2),
        (2, 3),
        (5, 5),
        (6, 5),
        (5, 6),
        (6, 6),
        (0, 7),
        (7, 0),
        (4, 2),
    ];
    run_both(8, 8, &seeds, 8);
}

#[test]
fn agrees_with_reference_on_a_glider() {
    // the glider from the reference crate's own documentation
    let glider = conlife::Object::from_string("(0,2) (1,2) (2,2) (1,0) (2,1)").unwrap();
    let seeds: Vec<(usize, usize)> = glider.coordinates.clone();
    run_both(10, 10, &seeds, 12);
}

#[test]
fn agrees_with_reference_at_the_borders() {
    // live cells hugging every edge and corner
    let seeds = [
        (0, 0),
        (1, 0),
        (2, 0),
        (5, 0),
        (0, 1),
        (5, 1),
        (0, 4),
        (4, 5),
        (5, 5),
        (5, 4),
        (3, 5),
    ];
    run_both(6, 6, &seeds, 6);
}
