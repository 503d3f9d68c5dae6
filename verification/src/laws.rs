//! Grid-wide properties, stated and proved once for all grids.

use vstd::prelude::*;
use vstd::arithmetic::div_mod::lemma_fundamental_div_mod;
use vstd::arithmetic::div_mod::lemma_div_pos_is_pos;
use vstd::arithmetic::div_mod::lemma_multiply_divide_lt;
use vstd::arithmetic::div_mod::lemma_mod_division_less_than_divisor;
use crate::grid::Graph;
use crate::grid::flat_index;
use crate::grid::lemma_flat_index_injective;
use crate::grid::lemma_flat_index_range;
use crate::grid::lemma_flat_index_split;
use crate::grid::spec_glyph;

verus! {

/// Dimension invariant: a well-formed grid's flat buffer holds exactly
/// `width * height` cells; since [`Graph::new`] and [`Graph::tick`] both
/// ensure well-formedness, this holds before and after every generation.
pub proof fn lemma_dimension_invariant(g: Graph)
    requires
        g.wf(),
    ensures
        g.cells@.len() == g.width * g.height,
{
}

/// Injectivity half of the index bijection: two in-bounds positions with
/// the same flat index are the same position.
pub proof fn lemma_get_index_injective(g: Graph, r1: int, c1: int, r2: int, c2: int)
    requires
        g.wf(),
        g.in_bounds(r1, c1),
        g.in_bounds(r2, c2),
        flat_index(g.width as int, r1, c1) == flat_index(g.width as int, r2, c2),
    ensures
        r1 == r2 && c1 == c2,
{
    lemma_flat_index_injective(g.width as int, r1, c1, r2, c2);
}

/// Range half of the index bijection: every in-bounds position maps into
/// `[0, width * height)`.
pub proof fn lemma_get_index_in_range(g: Graph)
    requires
        g.wf(),
    ensures
        forall|r: int, c: int|
            g.in_bounds(r, c) ==> 0 <= #[trigger] flat_index(g.width as int, r, c) < g.width
                * g.height,
{
    let w = g.width as int;
    let h = g.height as int;
    assert forall|r: int, c: int| g.in_bounds(r, c) implies 0 <= #[trigger] flat_index(w, r, c)
        < g.width * g.height by {
        lemma_flat_index_range(w, h, r, c);
        assert(h * w == w * h) by (nonlinear_arith);
    }
}

/// Surjectivity half of the index bijection: every index in
/// `[0, width * height)` is the flat index of an in-bounds position,
/// namely its quotient and remainder by the width.
pub proof fn lemma_get_index_covers(g: Graph, i: int)
    requires
        g.wf(),
        0 <= i < g.width * g.height,
    ensures
        g.in_bounds(i / (g.width as int), i % (g.width as int)),
        flat_index(g.width as int, i / (g.width as int), i % (g.width as int)) == i,
{
    let w = g.width as int;
    let h = g.height as int;
    assert(w * h == h * w) by (nonlinear_arith);
    lemma_div_pos_is_pos(i, w);
    lemma_multiply_divide_lt(i, w, h);
    lemma_mod_division_less_than_divisor(i, w);
    lemma_fundamental_div_mod(i, w);
    assert(w * (i / w) == (i / w) * w) by (nonlinear_arith);
}

/// Boundary clipping: the corner cell `(0, 0)` of a grid at least 2 wide
/// and 2 high has only three candidate neighbors — `(0, 1)`, `(1, 0)` and
/// `(1, 1)` — so its live count never exceeds 3. The five offsets that
/// leave the grid contribute nothing: they are clipped, never wrapped to
/// the far edge.
pub proof fn lemma_corner_clipped(g: Graph)
    requires
        g.wf(),
        2 <= g.width,
        2 <= g.height,
    ensures
        g.live_at(-1, -1) == 0,
        g.live_at(-1, 0) == 0,
        g.live_at(-1, 1) == 0,
        g.live_at(0, -1) == 0,
        g.live_at(1, -1) == 0,
        g.spec_live_count(0, 0) == g.live_at(0, 1) + g.live_at(1, 0) + g.live_at(1, 1),
        g.spec_live_count(0, 0) <= 3,
{
    reveal(Graph::spec_live_count);
}

/// Render format: the rendering of a well-formed grid is `height` lines
/// of `width` glyphs each, each line closed by a newline, and the glyph
/// at `(row, col)` is exactly the glyph of the cell there.
pub proof fn lemma_render_format(g: Graph)
    requires
        g.wf(),
    ensures
        g.spec_render().len() == g.height * (g.width + 1),
        forall|r: int, c: int|
            g.in_bounds(r, c) ==> g.spec_render()[r * (g.width + 1) + c] == spec_glyph(
                g.cell_at(r, c),
            ),
        forall|r: int|
            0 <= r < g.height ==> #[trigger] g.spec_render()[r * (g.width + 1) + g.width] == '\n',
{
    let w = g.width as int;
    let h = g.height as int;
    assert forall|r: int, c: int| g.in_bounds(r, c) implies g.spec_render()[r * (g.width + 1) + c]
        == spec_glyph(g.cell_at(r, c)) by {
        lemma_flat_index_range(w + 1, h, r, c);
        lemma_flat_index_split(w + 1, r, c);
    }
    assert forall|r: int|
        0 <= r < g.height implies #[trigger] g.spec_render()[r * (g.width + 1) + g.width]
        == '\n' by {
        lemma_flat_index_range(w + 1, h, r, w);
        lemma_flat_index_split(w + 1, r, w);
    }
}

/// Idempotent render: rendering reads the grid and nothing else, so two
/// renderings of the same grid with no generation advance in between are
/// the same text. [`Graph::render`] ensures its output equals
/// [`Graph::spec_render`], a function of the grid alone.
pub proof fn lemma_render_idempotent(g: Graph, first: Seq<char>, second: Seq<char>)
    requires
        first == g.spec_render(),
        second == g.spec_render(),
    ensures
        first == second,
{
}

} // verus!
