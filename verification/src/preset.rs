//! Named starting patterns that can be overlaid onto a fresh grid.

use vstd::prelude::*;
use crate::grid::grid_view;

verus! {

/// A named starting pattern: two fixed patterns of historical Game-of-Life
/// interest, a randomly seeded board, or an effectively empty board.
#[derive(Debug)]
pub enum Preset {
    Blinker,
    Mold,
    Random,
    Empty,
}

/// The preset a name selects: the three recognized names, or the empty
/// pattern for any other.
pub open spec fn preset_of(s: Seq<char>) -> Preset {
    if s == "Blinker"@ {
        Preset::Blinker
    } else if s == "Mold"@ {
        Preset::Mold
    } else if s == "Random"@ {
        Preset::Random
    } else {
        Preset::Empty
    }
}

/// The blinker: a period-2 oscillator, one horizontal 3-cell bar.
pub open spec fn blinker_pattern() -> Seq<Seq<bool>> {
    seq![
        seq![false, false, false],
        seq![true, true, true],
        seq![false, false, false],
    ]
}

/// The mold: a small period-4 oscillator.
pub open spec fn mold_pattern() -> Seq<Seq<bool>> {
    seq![
        seq![false, false, false, true, true, false],
        seq![false, false, true, false, false, true],
        seq![true, false, false, true, false, true],
        seq![false, false, false, false, true, false],
        seq![true, false, true, true, false, false],
        seq![false, true, false, false, false, false],
    ]
}

/// The pattern of an unrecognized preset: one dead cell, effectively empty.
pub open spec fn empty_pattern() -> Seq<Seq<bool>> {
    seq![seq![false]]
}

impl Preset {
    /// Selects the preset the given name denotes; any unrecognized name,
    /// case-sensitively, falls back to the empty pattern.
    pub fn from(preset_string: &str) -> (r: Preset)
        ensures
            r == preset_of(preset_string@),
    {
        let p = preset_string.to_owned();
        if p == "Blinker".to_owned() {
            Preset::Blinker
        } else if p == "Mold".to_owned() {
            Preset::Mold
        } else if p == "Random".to_owned() {
            Preset::Random
        } else {
            Preset::Empty
        }
    }
}

/// The board that a row-major sequence of draws yields: the cell at (y, x)
/// is alive exactly when its draw lands below 3. With each draw uniform in
/// [0, 10), a cell is alive with probability 3 in 10.
pub open spec fn draw_pattern(draws: Seq<u32>, rows: int, cols: int) -> Seq<Seq<bool>> {
    Seq::new(rows as nat, |y: int| Seq::new(cols as nat, |x: int| draws[y * cols + x] < 3))
}

/// Builds the board of [`draw_pattern`] from a supplied row-major sequence
/// of draws. The random source is injected as these plain drawn values, so a
/// deterministic source can stand in for the thread-local generator.
pub fn pattern_from_draws(draws: &Vec<u32>, rows: usize, cols: usize) -> (r: Vec<Vec<bool>>)
    requires
        draws@.len() == rows * cols,
    ensures
        grid_view(r@) == draw_pattern(draws@, rows as int, cols as int),
{
    let mut out: Vec<Vec<bool>> = Vec::new();
    let mut k: usize = 0;
    let mut y: usize = 0;
    while y < rows
        invariant
            draws@.len() == rows * cols,
            y <= rows,
            k == y * cols,
            out@.len() == y,
            forall|i: int|
                0 <= i < y ==> (#[trigger] out@[i])@ == draw_pattern(
                    draws@,
                    rows as int,
                    cols as int,
                )[i],
        decreases rows - y,
    {
        let mut row: Vec<bool> = Vec::new();
        let mut x: usize = 0;
        while x < cols
            invariant
                draws@.len() == rows * cols,
                y < rows,
                x <= cols,
                k == y * cols + x,
                row@.len() == x,
                forall|j: int| 0 <= j < x ==> (#[trigger] row@[j]) == (draws@[y * cols + j] < 3),
            decreases cols - x,
        {
            proof {
                assert(y * cols + x < rows * cols) by (nonlinear_arith)
                    requires
                        0 <= y < rows,
                        0 <= x < cols,
                ;
                vstd::std_specs::vec::axiom_spec_len(draws);
                assert(k < draws@.len());
            }
            let alive = draws[k] < 3;
            row.push(alive);
            k += 1;
            x += 1;
        }
        proof {
            assert(row@ =~= draw_pattern(draws@, rows as int, cols as int)[y as int]);
            assert((y + 1) * cols == y * cols + cols) by (nonlinear_arith);
        }
        out.push(row);
        y += 1;
    }
    proof {
        assert(grid_view(out@) =~~= draw_pattern(draws@, rows as int, cols as int));
    }
    out
}

/// The blinker pattern as a cell buffer.
pub(crate) fn blinker_cells() -> (r: Vec<Vec<bool>>)
    ensures
        grid_view(r@) == blinker_pattern(),
{
    let r = vec![
        vec![false, false, false],
        vec![true, true, true],
        vec![false, false, false],
    ];
    proof {
        assert(grid_view(r@) =~~= blinker_pattern());
    }
    r
}

/// The mold pattern as a cell buffer.
pub(crate) fn mold_cells() -> (r: Vec<Vec<bool>>)
    ensures
        grid_view(r@) == mold_pattern(),
{
    let r = vec![
        vec![false, false, false, true, true, false],
        vec![false, false, true, false, false, true],
        vec![true, false, false, true, false, true],
        vec![false, false, false, false, true, false],
        vec![true, false, true, true, false, false],
        vec![false, true, false, false, false, false],
    ];
    proof {
        assert(grid_view(r@) =~~= mold_pattern());
    }
    r
}

/// The empty pattern as a cell buffer.
pub(crate) fn empty_cells() -> (r: Vec<Vec<bool>>)
    ensures
        grid_view(r@) == empty_pattern(),
{
    let r = vec![vec![false]];
    proof {
        assert(grid_view(r@) =~~= empty_pattern());
    }
    r
}

} // verus!
