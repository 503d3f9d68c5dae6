use life_grid::grid::Cell;
use life_grid::grid::Graph;

#[test]
fn test_render_format() {
    // 3 wide, 2 high, with a known pattern.
    let mut g = Graph::new(3, 2);
    for r in 0..2u32 {
        for c in 0..3u32 {
            g.set_cell(r, c, Cell::Dead);
        }
    }
    g.set_cell(0, 0, Cell::Alive);
    g.set_cell(1, 2, Cell::Alive);
    let out = g.render();
    assert_eq!(out, "◼◻◻\n◻◻◼\n");

    // Exactly `height` lines of exactly `width` glyphs each.
    let lines: Vec<&str> = out.split_terminator('\n').collect();
    assert_eq!(lines.len(), 2);
    for line in lines {
        assert_eq!(line.chars().count(), 3);
        assert!(line.chars().all(|ch| ch == '◻' || ch == '◼'));
    }
    assert!(out.ends_with('\n'));
}

#[test]
fn test_render_matches_cells_position_for_position() {
    let g = Graph::new(4, 3);
    let out = g.render();
    let rows: Vec<Vec<char>> = out.split_terminator('\n').map(|l| l.chars().collect()).collect();
    assert_eq!(rows.len(), 3);
    for r in 0..3u32 {
        for c in 0..4u32 {
            let expected = if g.get_cell(r, c) == Cell::Alive { '◼' } else { '◻' };
            assert_eq!(rows[r as usize][c as usize], expected, "at ({}, {})", r, c);
        }
    }
}

#[test]
fn test_render_idempotent() {
    let g = Graph::new(5, 5);
    let first = g.render();
    let second = g.render();
    assert_eq!(first, second);
}

#[test]
fn test_render_after_tick_reflects_new_state() {
    let mut g = Graph::new(3, 3);
    for r in 0..3u32 {
        for c in 0..3u32 {
            g.set_cell(r, c, Cell::Dead);
        }
    }
    g.set_cell(1, 0, Cell::Alive);
    g.set_cell(1, 1, Cell::Alive);
    g.set_cell(1, 2, Cell::Alive);
    assert_eq!(g.render(), "◻◻◻\n◼◼◼\n◻◻◻\n");
    g.tick();
    assert_eq!(g.render(), "◻◼◻\n◻◼◻\n◻◼◻\n");
}
