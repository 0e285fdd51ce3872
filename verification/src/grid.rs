//! The mathematical model of a rectangular cell grid and of one generation
//! step under a birth/survival rule.

use vstd::prelude::*;

verus! {

/// The abstract grid that a vector of cell rows holds.
pub open spec fn grid_view(cells: Seq<Vec<bool>>) -> Seq<Seq<bool>> {
    cells.map_values(|r: Vec<bool>| r@)
}

/// A grid of the given dimensions with every cell dead.
pub open spec fn empty_grid(rows: int, cols: int) -> Seq<Seq<bool>> {
    Seq::new(rows as nat, |y: int| Seq::new(cols as nat, |x: int| false))
}

/// A well-formed grid: exactly `rows` rows, each of exactly `cols` cells.
pub open spec fn grid_wf(g: Seq<Seq<bool>>, rows: int, cols: int) -> bool {
    &&& g.len() == rows
    &&& forall|y: int| 0 <= y < rows ==> (#[trigger] g[y]).len() == cols
}

/// The cell at (y, x) exists and is alive. Positions outside the grid count
/// as dead, which gives edge cells fewer than eight live neighbor candidates.
pub open spec fn live(g: Seq<Seq<bool>>, y: int, x: int) -> bool {
    &&& 0 <= y < g.len()
    &&& 0 <= x < g[y].len()
    &&& g[y][x]
}

/// 1 if the cell at (y, x) is alive, 0 otherwise.
pub open spec fn occ(g: Seq<Seq<bool>>, y: int, x: int) -> int {
    if live(g, y, x) {
        1
    } else {
        0
    }
}

/// The number of live cells in the Moore neighborhood of (y, x): the up to
/// eight cells horizontally, vertically and diagonally adjacent to it.
pub open spec fn neighbor_count(g: Seq<Seq<bool>>, y: int, x: int) -> int {
    occ(g, y - 1, x) + occ(g, y - 1, x - 1) + occ(g, y - 1, x + 1) + occ(g, y + 1, x) + occ(
        g,
        y + 1,
        x - 1,
    ) + occ(g, y + 1, x + 1) + occ(g, y, x - 1) + occ(g, y, x + 1)
}

/// The next state of the cell at (y, x): a live cell survives iff its
/// neighbor count is listed in `survivals`; a dead cell is born iff its
/// neighbor count is listed in `births`.
pub open spec fn step_cell(
    g: Seq<Seq<bool>>,
    births: Seq<u8>,
    survivals: Seq<u8>,
    y: int,
    x: int,
) -> bool {
    if g[y][x] {
        survivals.contains(neighbor_count(g, y, x) as u8)
    } else {
        births.contains(neighbor_count(g, y, x) as u8)
    }
}

/// One full generation: every cell is stepped from the same previous
/// generation, so no partially updated state is ever read.
pub open spec fn step_grid(g: Seq<Seq<bool>>, births: Seq<u8>, survivals: Seq<u8>) -> Seq<
    Seq<bool>,
> {
    Seq::new(g.len(), |y: int| Seq::new(g[y].len(), |x: int| step_cell(g, births, survivals, y, x)))
}

/// The grid `g` with the pattern `p` written over its upper-left corner:
/// inside the pattern's extent the pattern's cell wins, outside it the grid
/// keeps its own cell. Pattern cells that fall outside the grid are dropped.
pub open spec fn overlay(g: Seq<Seq<bool>>, p: Seq<Seq<bool>>) -> Seq<Seq<bool>> {
    Seq::new(
        g.len(),
        |y: int|
            Seq::new(
                g[y].len(),
                |x: int|
                    if 0 <= y < p.len() && 0 <= x < p[y].len() {
                        p[y][x]
                    } else {
                        g[y][x]
                    },
            ),
    )
}

/// Every cell of the grid is dead.
pub open spec fn all_dead(g: Seq<Seq<bool>>) -> bool {
    forall|y: int, x: int| live(g, y, x) == false
}

/// Stepping an all-dead grid leaves it all-dead, unless 0 is a member of the
/// birth list.
pub proof fn lemma_dead_grid_stays_dead(g: Seq<Seq<bool>>, births: Seq<u8>, survivals: Seq<u8>)
    requires
        all_dead(g),
        !births.contains(0u8),
    ensures
        step_grid(g, births, survivals) == g,
{
    let stepped = step_grid(g, births, survivals);
    assert forall|y: int| 0 <= y < g.len() implies stepped[y] =~= g[y] by {
        assert forall|x: int| 0 <= x < g[y].len() implies stepped[y][x] == g[y][x] by {
            assert(!live(g, y, x));
            assert(!g[y][x]);
            assert(neighbor_count(g, y, x) == 0);
            assert(stepped[y][x] == births.contains(0u8));
        }
    }
    assert(stepped =~~= g);
}

} // verus!
