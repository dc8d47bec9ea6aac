//! The mathematical model of one generation: a rectangle of booleans, stored
//! column by column, so that `g[x][y]` is the state of the cell at `(x, y)`.

use vstd::prelude::*;
use crate::cell::next_state;

verus! {

/// One generation of the automaton, `g[x][y]` being true where the cell at
/// `(x, y)` is alive.
pub type Generation = Seq<Seq<bool>>;

/// `g` has `width` columns of `height` entries each.
pub open spec fn is_rectangle<T>(g: Seq<Seq<T>>, width: int, height: int) -> bool {
    &&& g.len() == width
    &&& forall|x: int| 0 <= x < width ==> (#[trigger] g[x]).len() == height
}

/// No cell of `g` is alive.
pub open spec fn all_dead(g: Generation) -> bool {
    forall|x: int, y: int| 0 <= x < g.len() && 0 <= y < g[x].len() ==> !(#[trigger] g[x][y])
}

/// Folds a coordinate that lies at most one step outside `0..dim` back onto
/// the torus.
pub open spec fn wrap(c: int, dim: int) -> int {
    if c < 0 {
        c + dim
    } else if c >= dim {
        c - dim
    } else {
        c
    }
}

/// 1 where the cell at `(x, y)` is alive, else 0.
pub open spec fn population(g: Generation, x: int, y: int) -> int {
    if g[x][y] {
        1
    } else {
        0
    }
}

/// The number of live cells among the eight neighbours of `(x, y)` on the
/// torus. On a grid narrower than three cells the same cell is met more than
/// once and is counted each time.
pub open spec fn neighbour_count(g: Generation, x: int, y: int) -> int {
    let left = wrap(x - 1, g.len() as int);
    let right = wrap(x + 1, g.len() as int);
    let up = wrap(y - 1, g[x].len() as int);
    let down = wrap(y + 1, g[x].len() as int);
    population(g, left, up) + population(g, left, y) + population(g, left, down)
        + population(g, x, up) + population(g, x, down)
        + population(g, right, up) + population(g, right, y) + population(g, right, down)
}

/// The generation that follows `g`: every cell's next state under the rule,
/// each computed from `g` alone.
pub open spec fn next_generation(g: Generation) -> Generation {
    Seq::new(
        g.len(),
        |x: int| Seq::new(g[x].len(), |y: int| next_state(g[x][y], neighbour_count(g, x, y))),
    )
}

/// Nothing is born from nothing: the successor of a rectangle without a live
/// cell has no live cell.
pub proof fn lemma_dead_stays_dead(g: Generation, width: int, height: int)
    requires
        is_rectangle(g, width, height),
        all_dead(g),
    ensures
        all_dead(next_generation(g)),
{
    let next = next_generation(g);
    assert forall|x: int, y: int| 0 <= x < next.len() && 0 <= y < next[x].len() implies !(
    #[trigger] next[x][y]) by {
        lemma_all_dead_has_no_neighbours(g, width, height, x, y);
    }
}

/// In a rectangle without a live cell every neighbour count is 0.
proof fn lemma_all_dead_has_no_neighbours(g: Generation, width: int, height: int, x: int, y: int)
    requires
        is_rectangle(g, width, height),
        all_dead(g),
        0 <= x < width,
        0 <= y < height,
    ensures
        neighbour_count(g, x, y) == 0,
{
}

/// Underpopulation at any coordinate, the corners included: a live cell that
/// is the only live cell of its generation is dead in the next one. Where the
/// grid is at least two cells wide and high, wrapping gives it no neighbour at
/// all. A grid of a single cell is all its own neighbours, and dies of that.
/// Left out are the grids with exactly one side of length 1: there the cell
/// meets itself twice round the short side, and survives.
pub proof fn lemma_lone_cell_dies(g: Generation, width: int, height: int, x: int, y: int)
    requires
        is_rectangle(g, width, height),
        width == 1 <==> height == 1,
        0 <= x < width,
        0 <= y < height,
        g[x][y],
        forall|i: int, j: int|
            0 <= i < width && 0 <= j < height && !(i == x && j == y) ==> !(#[trigger] g[i][j]),
    ensures
        !next_generation(g)[x][y],
        width >= 2 ==> neighbour_count(g, x, y) == 0,
        width == 1 ==> neighbour_count(g, x, y) == 8,
{
}

/// The torus closes at the edges: a live cell at the origin is counted among
/// the neighbours of the far corner and of the far end of either axis.
pub proof fn lemma_origin_counts_across_edges(g: Generation, width: int, height: int)
    requires
        is_rectangle(g, width, height),
        1 <= width,
        1 <= height,
        g[0][0],
    ensures
        neighbour_count(g, width - 1, height - 1) >= 1,
        neighbour_count(g, width - 1, 0) >= 1,
        neighbour_count(g, 0, height - 1) >= 1,
{
}

} // verus!
