use life::grid::Grid;

fn grid_of(width: isize, height: isize, picture: &str) -> Grid {
    let cells: Vec<bool> = picture.chars().filter(|c| *c != '\n').map(|c| c == '*').collect();
    Grid::from_cells(width, height, cells).unwrap()
}

#[test]
fn new_has_one_cell_per_position() {
    let g = Grid::new(7, 5);
    assert_eq!(g.width(), 7);
    assert_eq!(g.height(), 5);
    assert_eq!(g.cells().len(), 35);
}

#[test]
fn new_draws_both_kinds_of_cell() {
    let g = Grid::new(40, 40);
    assert!(g.cells().iter().any(|c| *c));
    assert!(g.cells().iter().any(|c| !*c));
}

#[test]
fn tick_keeps_the_number_of_cells() {
    let mut g = Grid::new(9, 4);
    for _ in 0..10 {
        g = g.tick();
        assert_eq!(g.width(), 9);
        assert_eq!(g.height(), 4);
        assert_eq!(g.cells().len(), 36);
    }
}

#[test]
fn empty_grid_ticks_and_renders_empty() {
    let g = Grid::new(0, 0);
    assert_eq!(g.cells().len(), 0);
    let next = g.tick();
    assert_eq!(next.width(), 0);
    assert_eq!(next.height(), 0);
    assert_eq!(next.cells().len(), 0);
    assert_eq!(next.render(), "");
}

#[test]
fn grid_without_columns_renders_only_line_breaks() {
    let g = Grid::new(0, 3);
    assert_eq!(g.cells().len(), 0);
    assert_eq!(g.render(), "\n\n");
    assert_eq!(g.tick().render(), "\n\n");
}

#[test]
fn grid_without_rows_renders_empty() {
    let g = Grid::new(5, 0);
    assert_eq!(g.cells().len(), 0);
    assert_eq!(g.render(), "");
}

#[test]
fn from_cells_keeps_what_it_is_given() {
    let cells = vec![true, false, false, false, true, true];
    let g = Grid::from_cells(3, 2, cells.clone()).unwrap();
    assert_eq!(g.width(), 3);
    assert_eq!(g.height(), 2);
    assert_eq!(g.cells(), &cells);
}

#[test]
fn from_cells_refuses_a_wrong_number_of_cells() {
    assert!(Grid::from_cells(3, 2, vec![true; 5]).is_none());
    assert!(Grid::from_cells(3, 2, vec![true; 7]).is_none());
    assert!(Grid::from_cells(0, 0, vec![false]).is_none());
    assert!(Grid::from_cells(0, 0, Vec::new()).is_some());
}

#[test]
fn from_cells_refuses_negative_dimensions() {
    assert!(Grid::from_cells(-1, 2, Vec::new()).is_none());
    assert!(Grid::from_cells(2, -1, Vec::new()).is_none());
    assert!(Grid::from_cells(-2, -3, vec![false; 6]).is_none());
}

#[test]
fn from_cells_refuses_dimensions_beyond_the_machine() {
    assert!(Grid::from_cells(isize::MAX, isize::MAX, vec![false; 4]).is_none());
}

#[test]
fn cell_at_reads_row_major() {
    let g = grid_of(3, 2, "*  \n **");
    assert!(g.cell_at(0, 0));
    assert!(!g.cell_at(1, 0));
    assert!(!g.cell_at(2, 0));
    assert!(!g.cell_at(0, 1));
    assert!(g.cell_at(1, 1));
    assert!(g.cell_at(2, 1));
}

#[test]
fn cell_at_is_dead_outside() {
    let g = grid_of(3, 2, "***\n***");
    for (x, y) in [(-1, 0), (0, -1), (3, 0), (0, 2), (-1, -1), (3, 2), (100, 1), (1, 100)] {
        assert!(!g.cell_at(x, y));
    }
    assert!(!g.cell_at(isize::MIN, isize::MIN));
    assert!(!g.cell_at(isize::MAX, isize::MAX));
    assert!(!g.cell_at(isize::MIN, 0));
    assert!(!g.cell_at(0, isize::MAX));
}

#[test]
fn cell_at_does_not_wrap_around() {
    let g = grid_of(3, 2, "  *\n*  ");
    assert!(!g.cell_at(3, 0));
    assert!(!g.cell_at(-1, 1));
    assert!(!g.cell_at(-1, 0));
}

#[test]
fn neighbour_count_of_a_full_grid() {
    let g = grid_of(3, 3, "***\n***\n***");
    assert_eq!(g.neighbour_count(1, 1), 8);
    assert_eq!(g.neighbour_count(0, 0), 3);
    assert_eq!(g.neighbour_count(2, 0), 3);
    assert_eq!(g.neighbour_count(0, 2), 3);
    assert_eq!(g.neighbour_count(2, 2), 3);
    assert_eq!(g.neighbour_count(1, 0), 5);
    assert_eq!(g.neighbour_count(0, 1), 5);
    assert_eq!(g.neighbour_count(-1, -1), 1);
    assert_eq!(g.neighbour_count(-1, 1), 3);
    assert_eq!(g.neighbour_count(3, 3), 1);
    assert_eq!(g.neighbour_count(4, 1), 0);
}

#[test]
fn neighbour_count_leaves_the_cell_itself_out() {
    let g = grid_of(3, 3, "   \n * \n   ");
    assert_eq!(g.neighbour_count(1, 1), 0);
    assert_eq!(g.neighbour_count(0, 0), 1);
    assert_eq!(g.neighbour_count(2, 1), 1);
}

#[test]
fn neighbour_count_stays_within_eight() {
    let g = Grid::new(6, 6);
    for y in -2..8 {
        for x in -2..8 {
            assert!(g.neighbour_count(x, y) <= 8);
        }
    }
}

#[test]
fn neighbour_count_of_a_single_cell_is_zero() {
    for alive in [false, true] {
        let g = Grid::from_cells(1, 1, vec![alive]).unwrap();
        assert_eq!(g.neighbour_count(0, 0), 0);
    }
}

#[test]
fn neighbour_count_at_the_ends_of_the_integers() {
    let g = grid_of(2, 2, "**\n**");
    assert_eq!(g.neighbour_count(isize::MIN, isize::MIN), 0);
    assert_eq!(g.neighbour_count(isize::MAX, isize::MAX), 0);
    assert_eq!(g.neighbour_count(isize::MIN, 0), 0);
    assert_eq!(g.neighbour_count(0, isize::MAX), 0);
}

#[test]
fn lonely_centre_dies() {
    let g = grid_of(3, 3, "   \n * \n   ");
    assert_eq!(g.neighbour_count(1, 1), 0);
    let next = g.tick();
    assert_eq!(next.width(), 3);
    assert_eq!(next.height(), 3);
    assert_eq!(next.cells(), &vec![false; 9]);
}

#[test]
fn tick_applies_the_rule_for_each_count() {
    // The centre of a three by three grid with `n` live neighbours.
    let order = [0usize, 1, 2, 3, 5, 6, 7, 8];
    for alive in [false, true] {
        for n in 0..=8usize {
            let mut cells = vec![false; 9];
            cells[4] = alive;
            for k in 0..n {
                cells[order[k]] = true;
            }
            let g = Grid::from_cells(3, 3, cells).unwrap();
            assert_eq!(g.neighbour_count(1, 1), n);
            let expected = if alive { n == 2 || n == 3 } else { n == 3 };
            assert_eq!(g.tick().cell_at(1, 1), expected);
        }
    }
}

#[test]
fn blinker_turns() {
    let flat = grid_of(5, 5, "     \n     \n *** \n     \n     ");
    let upright = flat.tick();
    assert_eq!(upright.render(), "     \n  *  \n  *  \n  *  \n     ");
    assert_eq!(upright.tick().render(), flat.render());
}

#[test]
fn glider_moves() {
    let g = grid_of(5, 5, " *   \n  *  \n***  \n     \n     ");
    let one = g.tick();
    assert_eq!(one.render(), "     \n* *  \n **  \n *   \n     ");
    let four = one.tick().tick().tick();
    assert_eq!(four.render(), "     \n  *  \n   * \n *** \n     ");
}

#[test]
fn border_is_dead_not_wrapped() {
    // On a torus the three cells of the top row would see each other round the edge.
    let g = grid_of(3, 3, "* *\n   \n   ");
    assert_eq!(g.neighbour_count(1, 2), 0);
    assert_eq!(g.neighbour_count(0, 0), 0);
    assert_eq!(g.tick().cells(), &vec![false; 9]);
}

#[test]
fn tick_leaves_the_receiver_alone() {
    let g = grid_of(3, 3, "** \n*  \n   ");
    let before = g.cells().clone();
    let _ = g.tick();
    assert_eq!(g.cells(), &before);
}

#[test]
fn tick_gives_the_same_result_each_time() {
    let g = Grid::new(12, 9);
    let a = g.tick();
    let b = g.tick();
    let c = g.clone().tick();
    assert_eq!(a.cells(), b.cells());
    assert_eq!(a.cells(), c.cells());
    assert_eq!(a.render(), b.render());
}

#[test]
fn dead_grid_stays_dead() {
    for (w, h) in [(0, 0), (1, 1), (1, 7), (5, 3), (10, 10)] {
        let g = Grid::from_cells(w, h, vec![false; (w * h) as usize]).unwrap();
        let next = g.tick();
        assert_eq!(next.width(), w);
        assert_eq!(next.height(), h);
        assert_eq!(next.cells(), &vec![false; (w * h) as usize]);
    }
}

#[test]
fn block_is_still() {
    let g = grid_of(4, 4, "    \n ** \n ** \n    ");
    for (x, y) in [(1, 1), (2, 1), (1, 2), (2, 2)] {
        assert_eq!(g.neighbour_count(x, y), 3);
    }
    let next = g.tick();
    assert_eq!(next.cells(), g.cells());
    assert_eq!(next.tick().cells(), g.cells());
}

#[test]
fn block_in_the_corner_is_still() {
    let g = grid_of(5, 4, "**   \n**   \n     \n     ");
    assert_eq!(g.tick().cells(), g.cells());
    let h = grid_of(2, 2, "**\n**");
    assert_eq!(h.tick().cells(), h.cells());
}

#[test]
fn render_draws_stars_and_spaces() {
    let g = grid_of(3, 2, "* *\n * ");
    assert_eq!(g.render(), "* *\n * ");
    let single = Grid::from_cells(1, 1, vec![true]).unwrap();
    assert_eq!(single.render(), "*");
    let dead = Grid::from_cells(1, 1, vec![false]).unwrap();
    assert_eq!(dead.render(), " ");
}

#[test]
fn render_has_one_line_per_row() {
    let g = Grid::new(11, 6);
    let text = g.render();
    assert_eq!(text.len(), 6 * 12 - 1);
    assert!(!text.ends_with('\n'));
    let lines: Vec<&str> = text.split('\n').collect();
    assert_eq!(lines.len(), 6);
    for (y, line) in lines.iter().enumerate() {
        assert_eq!(line.chars().count(), 11);
        for (x, c) in line.chars().enumerate() {
            assert!(c == '*' || c == ' ');
            assert_eq!(c == '*', g.cell_at(x as isize, y as isize));
        }
    }
}

#[test]
fn clone_is_equal_and_apart() {
    let g = grid_of(2, 2, "* \n *");
    let copy = g.clone();
    assert_eq!(copy.width(), 2);
    assert_eq!(copy.height(), 2);
    assert_eq!(copy.cells(), g.cells());
    assert_eq!(copy.render(), g.render());
}
