use life_grid::grid::Cell;
use life_grid::grid::Graph;
use life_grid::grid::step_cell;

/// A grid of the given dimensions with every cell dead.
fn dead_grid(w: u32, h: u32) -> Graph {
    let mut g = Graph::new(w, h);
    for r in 0..h {
        for c in 0..w {
            g.set_cell(r, c, Cell::Dead);
        }
    }
    g
}

#[test]
fn test_new_dimensions_and_seed() {
    let g = Graph::new(4, 3);
    assert_eq!(g.width(), 4);
    assert_eq!(g.height(), 3);
    for r in 0..3u32 {
        for c in 0..4u32 {
            let i = r * 4 + c;
            let expected = if i % 2 == 0 || i % 3 == 0 { Cell::Alive } else { Cell::Dead };
            assert_eq!(g.get_cell(r, c), expected);
        }
    }
}

#[test]
fn test_get_index_bijection_concrete() {
    let g = Graph::new(4, 3);
    let mut seen = vec![false; 12];
    for r in 0..3u32 {
        for c in 0..4u32 {
            let i = g.get_index(r, c);
            assert!(i < 12);
            assert!(!seen[i], "two positions share flat index {}", i);
            seen[i] = true;
        }
    }
    assert!(seen.iter().all(|&b| b));
}

#[test]
fn test_dimensions_stable_across_ticks() {
    let mut g = Graph::new(5, 4);
    for _ in 0..3 {
        g.tick();
        assert_eq!(g.width(), 5);
        assert_eq!(g.height(), 4);
        // Every position is still addressable: the buffer kept its size.
        for r in 0..4u32 {
            for c in 0..5u32 {
                let _ = g.get_cell(r, c);
            }
        }
    }
}

#[test]
fn test_corner_boundary_clipping() {
    // A 2x2 grid, every cell alive: the corner has exactly its three
    // in-grid neighbors, and nothing wraps in from the opposite edge.
    let mut g = dead_grid(2, 2);
    for r in 0..2u32 {
        for c in 0..2u32 {
            g.set_cell(r, c, Cell::Alive);
        }
    }
    assert_eq!(g.live_count(0, 0), 3);

    // On a fully live 3x3 grid the corner still sees only 3, while the
    // center sees all 8.
    let mut g3 = dead_grid(3, 3);
    for r in 0..3u32 {
        for c in 0..3u32 {
            g3.set_cell(r, c, Cell::Alive);
        }
    }
    assert_eq!(g3.live_count(0, 0), 3);
    assert_eq!(g3.live_count(1, 1), 8);
}

#[test]
fn test_simultaneity() {
    // Horizontal blinker in the middle row of a 3x3 grid. Under the
    // simultaneous rule the result is the vertical blinker. A sequential
    // in-place sweep would first kill (1, 0) and then see only one live
    // neighbor from (1, 1)'s row, ending in a different grid.
    let mut g = dead_grid(3, 3);
    g.set_cell(1, 0, Cell::Alive);
    g.set_cell(1, 1, Cell::Alive);
    g.set_cell(1, 2, Cell::Alive);
    g.tick();
    for r in 0..3u32 {
        for c in 0..3u32 {
            let expected = if c == 1 { Cell::Alive } else { Cell::Dead };
            assert_eq!(g.get_cell(r, c), expected, "at ({}, {})", r, c);
        }
    }
}

#[test]
fn test_lone_cell_dies() {
    let mut g = dead_grid(3, 3);
    g.set_cell(1, 1, Cell::Alive);
    g.tick();
    for r in 0..3u32 {
        for c in 0..3u32 {
            assert_eq!(g.get_cell(r, c), Cell::Dead);
        }
    }
}

#[test]
fn test_blinker_oscillates() {
    let mut g = dead_grid(3, 3);
    g.set_cell(1, 0, Cell::Alive);
    g.set_cell(1, 1, Cell::Alive);
    g.set_cell(1, 2, Cell::Alive);

    g.tick();
    for r in 0..3u32 {
        for c in 0..3u32 {
            let expected = if c == 1 { Cell::Alive } else { Cell::Dead };
            assert_eq!(g.get_cell(r, c), expected);
        }
    }

    g.tick();
    for r in 0..3u32 {
        for c in 0..3u32 {
            let expected = if r == 1 { Cell::Alive } else { Cell::Dead };
            assert_eq!(g.get_cell(r, c), expected);
        }
    }
}

#[test]
fn test_block_still_life() {
    let mut g = dead_grid(4, 4);
    g.set_cell(1, 1, Cell::Alive);
    g.set_cell(1, 2, Cell::Alive);
    g.set_cell(2, 1, Cell::Alive);
    g.set_cell(2, 2, Cell::Alive);
    for _ in 0..4 {
        g.tick();
        for r in 0..4u32 {
            for c in 0..4u32 {
                let expected = if (1..=2).contains(&r) && (1..=2).contains(&c) {
                    Cell::Alive
                } else {
                    Cell::Dead
                };
                assert_eq!(g.get_cell(r, c), expected, "at ({}, {})", r, c);
            }
        }
    }
}

#[test]
fn test_step_cell_literal_cases() {
    assert_eq!(step_cell(Cell::Alive, 0), Cell::Dead);
    assert_eq!(step_cell(Cell::Alive, 1), Cell::Dead);
    assert_eq!(step_cell(Cell::Alive, 2), Cell::Alive);
    assert_eq!(step_cell(Cell::Alive, 3), Cell::Alive);
    for n in 4..=8u32 {
        assert_eq!(step_cell(Cell::Alive, n), Cell::Dead);
    }
    assert_eq!(step_cell(Cell::Dead, 3), Cell::Alive);
    for n in [0u32, 1, 2, 4, 5, 6, 7, 8] {
        assert_eq!(step_cell(Cell::Dead, n), Cell::Dead);
    }
}

#[test]
fn test_set_cell_changes_only_its_target() {
    let g0 = Graph::new(4, 3);
    let mut g = Graph::new(4, 3);
    g.set_cell(2, 1, Cell::Dead);
    for r in 0..3u32 {
        for c in 0..4u32 {
            if r == 2 && c == 1 {
                assert_eq!(g.get_cell(r, c), Cell::Dead);
            } else {
                assert_eq!(g.get_cell(r, c), g0.get_cell(r, c));
            }
        }
    }
}
