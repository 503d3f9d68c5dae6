//! The grid data structure and its generation-advance algorithm.

use vstd::prelude::*;
use vstd::arithmetic::div_mod::lemma_fundamental_div_mod_converse_div;
use vstd::arithmetic::div_mod::lemma_fundamental_div_mod_converse_mod;

verus! {

/// The state of one grid position: a binary value with no further identity.
#[derive(Clone, Copy, Debug, PartialEq, Eq, Structural)]
pub enum Cell {
    Dead,
    Alive,
}

/// A bounded rectangular field of cells.
///
/// The cells are stored in a flat buffer of exactly `width * height`
/// entries, row-major: position `(row, col)` lives at flat index
/// `row * width + col`. Edges are hard boundaries; nothing wraps.
pub struct Graph {
    pub width: u32,
    pub height: u32,
    pub cells: Vec<Cell>,
}

/// The generation-advance rule, applied to one cell from its current
/// state and the number `n` of its live in-bounds neighbors:
/// a live cell survives exactly with two or three live neighbors
/// (underpopulation below, overpopulation above), a dead cell comes
/// alive exactly with three, and otherwise stays dead.
pub open spec fn next_cell(c: Cell, n: int) -> Cell {
    match c {
        Cell::Alive => if n < 2 {
            Cell::Dead
        } else if n <= 3 {
            Cell::Alive
        } else {
            Cell::Dead
        },
        Cell::Dead => if n == 3 {
            Cell::Alive
        } else {
            Cell::Dead
        },
    }
}

/// The fixed seeding rule used at construction: the cell at flat index
/// `i` starts alive when `i` is divisible by 2 or by 3, else dead.
pub open spec fn seed_cell(i: int) -> Cell {
    if i % 2 == 0 || i % 3 == 0 {
        Cell::Alive
    } else {
        Cell::Dead
    }
}

/// The glyph that renders one cell: an empty square for a dead cell, a
/// filled square for a live one.
pub open spec fn spec_glyph(c: Cell) -> char {
    match c {
        Cell::Dead => '◻',
        Cell::Alive => '◼',
    }
}

/// Flat index of position `(row, col)` in a grid `w` cells wide.
pub open spec fn flat_index(w: int, row: int, col: int) -> int {
    row * w + col
}

/// The flat index of an in-range position is itself in range.
pub proof fn lemma_flat_index_range(w: int, h: int, row: int, col: int)
    requires
        0 < w,
        0 <= row < h,
        0 <= col < w,
    ensures
        0 <= flat_index(w, row, col) < h * w,
{
    assert(0 <= row * w && row * w + col < h * w) by (nonlinear_arith)
        requires
            0 < w,
            0 <= row < h,
            0 <= col < w,
    ;
}

/// A flat index decomposes back into its row and column by division
/// and remainder, so the row-major layout loses no information.
pub proof fn lemma_flat_index_split(w: int, row: int, col: int)
    requires
        0 < w,
        0 <= row,
        0 <= col < w,
    ensures
        flat_index(w, row, col) / w == row,
        flat_index(w, row, col) % w == col,
{
    lemma_fundamental_div_mod_converse_div(row * w + col, w, row, col);
    lemma_fundamental_div_mod_converse_mod(row * w + col, w, row, col);
}

/// Distinct in-range positions have distinct flat indices.
pub proof fn lemma_flat_index_injective(w: int, r1: int, c1: int, r2: int, c2: int)
    requires
        0 < w,
        0 <= r1,
        0 <= c1 < w,
        0 <= r2,
        0 <= c2 < w,
        flat_index(w, r1, c1) == flat_index(w, r2, c2),
    ensures
        r1 == r2 && c1 == c2,
{
    lemma_flat_index_split(w, r1, c1);
    lemma_flat_index_split(w, r2, c2);
}

impl Graph {
    /// Structural invariant: positive dimensions, a buffer of exactly
    /// `width * height` cells, and a cell count small enough that flat
    /// indices can be computed in `u32` arithmetic.
    pub open spec fn wf(self) -> bool {
        &&& 0 < self.width
        &&& 0 < self.height
        &&& self.cells@.len() == self.width * self.height
        &&& self.width * self.height <= u32::MAX
    }

    /// Whether `(row, col)` lies inside the grid.
    pub open spec fn in_bounds(self, row: int, col: int) -> bool {
        0 <= row < self.height && 0 <= col < self.width
    }

    /// The cell stored at in-bounds position `(row, col)`.
    pub open spec fn cell_at(self, row: int, col: int) -> Cell {
        self.cells@[flat_index(self.width as int, row, col)]
    }

    /// 1 when `(row, col)` is inside the grid and alive, else 0.
    /// An out-of-range position contributes nothing: the boundary
    /// clips, it never wraps to the opposite edge.
    pub open spec fn live_at(self, row: int, col: int) -> int {
        if self.in_bounds(row, col) && self.cell_at(row, col) == Cell::Alive {
            1int
        } else {
            0int
        }
    }

    /// Number of live cells among the up-to-8 immediate neighbors of
    /// `(row, col)`: the four orthogonal and four diagonal offsets,
    /// counting only positions inside the grid. Opaque: proofs that need
    /// the eight-term sum reveal it explicitly.
    #[verifier::opaque]
    pub open spec fn spec_live_count(self, row: int, col: int) -> int {
        self.live_at(row - 1, col - 1) + self.live_at(row - 1, col) + self.live_at(
            row - 1,
            col + 1,
        ) + self.live_at(row, col - 1) + self.live_at(row, col + 1) + self.live_at(
            row + 1,
            col - 1,
        ) + self.live_at(row + 1, col) + self.live_at(row + 1, col + 1)
    }

    /// Flat index of `(row, col)`, valid for the cell buffer.
    pub fn get_index(&self, row: u32, col: u32) -> (idx: usize)
        requires
            self.wf(),
            row < self.height,
            col < self.width,
        ensures
            idx == flat_index(self.width as int, row as int, col as int),
            idx < self.cells@.len(),
    {
        proof {
            lemma_flat_index_range(
                self.width as int,
                self.height as int,
                row as int,
                col as int,
            );
        }
        (row * self.width + col) as usize
    }

    /// Whether the position one offset step from `(row, col)` is inside
    /// the grid and currently alive. Out-of-range positions are clipped.
    fn neighbor_live(&self, row: u32, col: u32, dr: i64, dc: i64) -> (b: bool)
        requires
            self.wf(),
            row < self.height,
            col < self.width,
            -1 <= dr <= 1,
            -1 <= dc <= 1,
        ensures
            b == (self.live_at(row as int + dr as int, col as int + dc as int) == 1),
    {
        let nr: i64 = row as i64 + dr;
        let nc: i64 = col as i64 + dc;
        if 0 <= nr && nr < self.height as i64 && 0 <= nc && nc < self.width as i64 {
            let idx = self.get_index(nr as u32, nc as u32);
            self.cells[idx] == Cell::Alive
        } else {
            false
        }
    }

    /// Number of the up-to-8 immediate neighbors of `(row, col)` that
    /// are both inside the grid and currently alive.
    pub fn live_count(&self, row: u32, col: u32) -> (n: u32)
        requires
            self.wf(),
            row < self.height,
            col < self.width,
        ensures
            n == self.spec_live_count(row as int, col as int),
            n <= 8,
    {
        proof {
            reveal(Graph::spec_live_count);
        }
        let mut count: u32 = 0;
        if self.neighbor_live(row, col, -1, -1) {
            count += 1;
        }
        if self.neighbor_live(row, col, -1, 0) {
            count += 1;
        }
        if self.neighbor_live(row, col, -1, 1) {
            count += 1;
        }
        if self.neighbor_live(row, col, 0, -1) {
            count += 1;
        }
        if self.neighbor_live(row, col, 0, 1) {
            count += 1;
        }
        if self.neighbor_live(row, col, 1, -1) {
            count += 1;
        }
        if self.neighbor_live(row, col, 1, 0) {
            count += 1;
        }
        if self.neighbor_live(row, col, 1, 1) {
            count += 1;
        }
        count
    }

    /// Builds a `w` by `h` grid seeded by the fixed pattern of
    /// [`seed_cell`]. Dimensions must be positive; the cell count must
    /// fit in a `u32`.
    pub fn new(w: u32, h: u32) -> (g: Graph)
        requires
            0 < w,
            0 < h,
            w * h <= u32::MAX,
        ensures
            g.wf(),
            g.width == w,
            g.height == h,
            forall|i: int| 0 <= i < w * h ==> g.cells@[i] == seed_cell(i),
    {
        let n: u32 = w * h;
        let mut cells: Vec<Cell> = Vec::new();
        let mut i: u32 = 0;
        while i < n
            invariant
                i <= n,
                cells@.len() == i,
                forall|j: int| 0 <= j < i ==> cells@[j] == seed_cell(j),
            decreases n - i,
        {
            if i % 2 == 0 || i % 3 == 0 {
                cells.push(Cell::Alive);
            } else {
                cells.push(Cell::Dead);
            }
            i += 1;
        }
        Graph { width: w, height: h, cells }
    }

    /// Advances the grid by exactly one generation, in place.
    ///
    /// Every cell's next state is the rule applied to its pre-advance
    /// state and its pre-advance live-neighbor count: all cells update
    /// simultaneously, and no count ever sees a partially updated
    /// generation. The dimensions do not change.
    pub fn tick(&mut self)
        requires
            old(self).wf(),
        ensures
            final(self).wf(),
            final(self).width == old(self).width,
            final(self).height == old(self).height,
            forall|r: int, c: int|
                old(self).in_bounds(r, c) ==> final(self).cell_at(r, c) == next_cell(
                    old(self).cell_at(r, c),
                    old(self).spec_live_count(r, c),
                ),
    {
        let w = self.width;
        let h = self.height;
        let mut new_cells: Vec<Cell> = Vec::new();
        let mut row: u32 = 0;
        while row < h
            invariant
                self.wf(),
                w == self.width,
                h == self.height,
                row <= h,
                new_cells@.len() == row * w,
                forall|r: int, c: int|
                    0 <= r < row && 0 <= c < w ==> new_cells@[flat_index(w as int, r, c)]
                        == next_cell(self.cell_at(r, c), self.spec_live_count(r, c)),
            decreases h - row,
        {
            let mut col: u32 = 0;
            while col < w
                invariant
                    self.wf(),
                    w == self.width,
                    h == self.height,
                    row < h,
                    col <= w,
                    new_cells@.len() == row * w + col,
                    forall|r: int, c: int|
                        0 <= r < row && 0 <= c < w ==> new_cells@[flat_index(w as int, r, c)]
                            == next_cell(self.cell_at(r, c), self.spec_live_count(r, c)),
                    forall|c: int|
                        0 <= c < col ==> new_cells@[flat_index(w as int, row as int, c)]
                            == next_cell(
                            self.cell_at(row as int, c),
                            self.spec_live_count(row as int, c),
                        ),
                decreases w - col,
            {
                let idx = self.get_index(row, col);
                let cell = self.cells[idx];
                let lc = self.live_count(row, col);
                let next = step_cell(cell, lc);
                new_cells.push(next);
                proof {
                    assert forall|r: int, c: int| 0 <= r < row && 0 <= c < w implies new_cells@[
                        flat_index(w as int, r, c)
                    ] == next_cell(self.cell_at(r, c), self.spec_live_count(r, c)) by {
                        lemma_flat_index_range(w as int, row as int, r, c);
                    }
                }
                col += 1;
            }
            proof {
                assert((row + 1) * w == row * w + w) by (nonlinear_arith);
            }
            row += 1;
        }
        proof {
            assert(h * w == w * h) by (nonlinear_arith);
        }
        self.cells = new_cells;
    }

    /// The textual rendering of the grid as a character sequence:
    /// `height` lines of `width` glyphs each, every line (the last one
    /// included) terminated by a newline, so that the character at
    /// offset `row * (width + 1) + col` is the glyph of the cell at
    /// `(row, col)` and offset `row * (width + 1) + width` holds the
    /// newline of line `row`.
    pub open spec fn spec_render(self) -> Seq<char> {
        Seq::new(
            (self.height * (self.width + 1)) as nat,
            |k: int|
                if k % (self.width + 1) == self.width as int {
                    '\n'
                } else {
                    spec_glyph(self.cell_at(k / (self.width + 1), k % (self.width + 1)))
                },
        )
    }

    /// Renders the current state as text, one newline-terminated line
    /// per row, without mutating anything.
    pub fn render(&self) -> (out: String)
        requires
            self.wf(),
        ensures
            out@ == self.spec_render(),
    {
        let w = self.width;
        let h = self.height;
        proof {
            reveal_strlit("");
            reveal_strlit("◻");
            reveal_strlit("◼");
            reveal_strlit("\n");
        }
        let mut out = String::from_str("");
        let mut row: u32 = 0;
        while row < h
            invariant
                self.wf(),
                w == self.width,
                h == self.height,
                row <= h,
                out@.len() == row * (w + 1),
                forall|k: int| 0 <= k < out@.len() ==> out@[k] == self.spec_render()[k],
            decreases h - row,
        {
            let mut col: u32 = 0;
            while col < w
                invariant
                    self.wf(),
                    w == self.width,
                    h == self.height,
                    row < h,
                    col <= w,
                    out@.len() == row * (w + 1) + col,
                    forall|k: int| 0 <= k < out@.len() ==> out@[k] == self.spec_render()[k],
                decreases w - col,
            {
                proof {
                    reveal_strlit("◻");
                    reveal_strlit("◼");
                    lemma_flat_index_range(w as int + 1, h as int, row as int, col as int);
                    lemma_flat_index_split(w as int + 1, row as int, col as int);
                }
                let idx = self.get_index(row, col);
                if self.cells[idx] == Cell::Dead {
                    out.append("◻");
                } else {
                    out.append("◼");
                }
                col += 1;
            }
            proof {
                reveal_strlit("\n");
                lemma_flat_index_range(w as int + 1, h as int, row as int, w as int);
                lemma_flat_index_split(w as int + 1, row as int, w as int);
                assert((row + 1) * (w + 1) == row * (w + 1) + w + 1) by (nonlinear_arith);
            }
            out.append("\n");
            row += 1;
        }
        proof {
            assert(out@ =~= self.spec_render());
        }
        out
    }

    /// The grid's width, fixed at construction.
    pub fn width(&self) -> (w: u32)
        ensures
            w == self.width,
    {
        self.width
    }

    /// The grid's height, fixed at construction.
    pub fn height(&self) -> (h: u32)
        ensures
            h == self.height,
    {
        self.height
    }

    /// The current state of the cell at `(row, col)`.
    pub fn get_cell(&self, row: u32, col: u32) -> (c: Cell)
        requires
            self.wf(),
            row < self.height,
            col < self.width,
        ensures
            c == self.cell_at(row as int, col as int),
    {
        let idx = self.get_index(row, col);
        self.cells[idx]
    }

    /// Overwrites the cell at `(row, col)`, leaving every other cell and
    /// the dimensions unchanged. This is the hook for callers that need
    /// a custom pattern instead of the fixed seeding of [`Graph::new`].
    pub fn set_cell(&mut self, row: u32, col: u32, cell: Cell)
        requires
            old(self).wf(),
            row < old(self).height,
            col < old(self).width,
        ensures
            final(self).wf(),
            final(self).width == old(self).width,
            final(self).height == old(self).height,
            final(self).cell_at(row as int, col as int) == cell,
            forall|r: int, c: int|
                old(self).in_bounds(r, c) && !(r == row && c == col) ==> final(self).cell_at(r, c)
                    == old(self).cell_at(r, c),
    {
        let idx = self.get_index(row, col);
        self.cells[idx] = cell;
        proof {
            assert forall|r: int, c: int|
                old(self).in_bounds(r, c) && !(r == row && c == col) implies self.cell_at(r, c)
                == old(self).cell_at(r, c) by {
                lemma_flat_index_range(
                    self.width as int,
                    self.height as int,
                    r,
                    c,
                );
                if flat_index(self.width as int, r, c) == flat_index(
                    self.width as int,
                    row as int,
                    col as int,
                ) {
                    lemma_flat_index_injective(
                        self.width as int,
                        r,
                        c,
                        row as int,
                        col as int,
                    );
                }
            }
        }
    }
}

/// One application of the generation-advance rule, covering exactly the
/// five cases: underpopulation, stability, overpopulation, reproduction,
/// and the unchanged fallthrough.
pub fn step_cell(cell: Cell, live: u32) -> (next: Cell)
    ensures
        next == next_cell(cell, live as int),
{
    match (cell, live) {
        (Cell::Alive, n) if n < 2 => Cell::Dead,
        (Cell::Alive, 2) | (Cell::Alive, 3) => Cell::Alive,
        (Cell::Alive, n) if n > 3 => Cell::Dead,
        (Cell::Dead, 3) => Cell::Alive,
        (other, _) => other,
    }
}

} // verus!
