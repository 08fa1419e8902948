//! The inlet: a band of rows at the left edge where fluid enters each tick.

use vstd::prelude::*;
use crate::grid::{at, in_grid, is_grid, put, well_formed, width_of, Cell};

verus! {

/// What the inlet adds per tick, and how wide it is.
#[derive(Clone, Copy, Debug)]
pub struct Inlet<T> {
    /// Number of rows of the band, centred on the middle row.
    pub width: usize,
    /// Added to the density of each inlet cell.
    pub emission_rate: T,
    /// Written over the horizontal momentum of each inlet cell.
    pub velocity: T,
    /// Added to the energy of each inlet cell.
    pub energy_gain: T,
}

/// Row `y` of a grid of `height` rows belongs to a band of `inlet_width`
/// rows centred on row `height / 2`.
pub open spec fn in_inlet(height: int, inlet_width: int, y: int) -> bool {
    &&& 0 <= y < height
    &&& height / 2 - inlet_width / 2 <= y < height / 2 + inlet_width / 2
}

/// `after` is `before` with the inlet applied: on each inlet row the cell of
/// column 0 has its density and energy raised through `combine` and its
/// horizontal momentum overwritten; nothing else changes.
pub open spec fn injected<T, A: Fn(T, T) -> T>(
    before: Seq<Vec<Cell<T>>>,
    after: Seq<Vec<Cell<T>>>,
    inlet: Inlet<T>,
    combine: A,
) -> bool {
    let w = width_of(before);
    let h = before.len() as int;
    &&& is_grid(after, w, h)
    &&& forall|x: int, y: int|
        in_grid(w, h, x, y) ==> inlet_cell(
            at(before, x, y),
            #[trigger] at(after, x, y),
            x == 0 && in_inlet(h, inlet.width as int, y),
            inlet,
            combine,
        )
}

/// `d` is what the inlet makes of `c`: `fed` tells whether `c` is an inlet
/// cell at all.
pub open spec fn inlet_cell<T, A: Fn(T, T) -> T>(
    c: Cell<T>,
    d: Cell<T>,
    fed: bool,
    inlet: Inlet<T>,
    combine: A,
) -> bool {
    if fed {
        &&& combine.ensures((c.density, inlet.emission_rate), d.density)
        &&& d.momentum_x == inlet.velocity
        &&& d.momentum_y == c.momentum_y
        &&& combine.ensures((c.energy, inlet.energy_gain), d.energy)
    } else {
        d == c
    }
}

/// Feeds the inlet once: for each row of the band, the cell of column 0 gets
/// `combine(density, emission_rate)`, `velocity` as horizontal momentum and
/// `combine(energy, energy_gain)`. Rows of the band that fall outside the
/// grid are skipped.
pub fn add_fluid_source<T: Copy, A: Fn(T, T) -> T>(
    grid: &mut Vec<Vec<Cell<T>>>,
    inlet: &Inlet<T>,
    combine: A,
)
    requires
        well_formed(old(grid)@),
        forall|a: T, b: T| combine.requires((a, b)),
    ensures
        injected(old(grid)@, final(grid)@, *inlet, combine),
{
    let height: usize = grid.len();
    let ghost g = grid@;
    let ghost w = width_of(g);
    let half: usize = inlet.width / 2;
    let center: usize = height / 2;
    let lo: usize = if half <= center {
        center - half
    } else {
        0
    };
    let hi: usize = if half <= height - center {
        center + half
    } else {
        height
    };
    let mut y: usize = lo;
    while y < hi
        invariant
            lo <= y <= hi <= height,
            height == g.len(),
            w == width_of(g),
            well_formed(g),
            forall|a: T, b: T| combine.requires((a, b)),
            forall|yy: int|
                in_inlet(height as int, inlet.width as int, yy) <==> lo <= yy < hi,
            is_grid(grid@, w, height as int),
            forall|x: int, yy: int|
                in_grid(w, height as int, x, yy) ==> inlet_cell(
                    at(g, x, yy),
                    #[trigger] at(grid@, x, yy),
                    x == 0 && lo <= yy < y,
                    *inlet,
                    combine,
                ),
        decreases hi - y,
    {
        assert(grid@[y as int]@.len() == w);
        let c = grid[y][0];
        let d = Cell {
            density: combine(c.density, inlet.emission_rate),
            momentum_x: inlet.velocity,
            momentum_y: c.momentum_y,
            energy: combine(c.energy, inlet.energy_gain),
        };
        let ghost before = grid@;
        put(grid, 0, y, d);
        assert forall|x: int, yy: int| in_grid(w, height as int, x, yy) implies inlet_cell(
            at(g, x, yy),
            at(grid@, x, yy),
            x == 0 && lo <= yy < y + 1,
            *inlet,
            combine,
        ) by {
            if yy == y && x == 0 {
                assert(at(grid@, x, yy) == d);
                assert(at(before, x, yy) == at(g, x, yy));
            } else {
                assert(at(grid@, x, yy) == at(before, x, yy));
            }
        }
        y = y + 1;
    }
}

/// Feeding the inlet twice with the same settings raises the density of an
/// inlet cell twice by the emission rate, while its horizontal momentum is
/// the inlet velocity whatever it was before; cells off the inlet keep
/// their state.
pub proof fn inlet_fed_twice<T, A: Fn(T, T) -> T>(
    g0: Seq<Vec<Cell<T>>>,
    g1: Seq<Vec<Cell<T>>>,
    g2: Seq<Vec<Cell<T>>>,
    inlet: Inlet<T>,
    combine: A,
)
    requires
        well_formed(g0),
        injected(g0, g1, inlet, combine),
        injected(g1, g2, inlet, combine),
    ensures
        forall|y: int|
            in_inlet(g0.len() as int, inlet.width as int, y) ==> {
                &&& combine.ensures(
                    (at(g0, 0, y).density, inlet.emission_rate),
                    at(g1, 0, y).density,
                )
                &&& combine.ensures(
                    (at(g1, 0, y).density, inlet.emission_rate),
                    #[trigger] at(g2, 0, y).density,
                )
                &&& at(g2, 0, y).momentum_x == inlet.velocity
            },
        forall|x: int, y: int|
            in_grid(width_of(g0), g0.len() as int, x, y) && !(x == 0 && in_inlet(
                g0.len() as int,
                inlet.width as int,
                y,
            )) ==> #[trigger] at(g2, x, y) == at(g0, x, y),
{
    assert(g1[0]@.len() == width_of(g0));
    assert forall|y: int| in_inlet(g0.len() as int, inlet.width as int, y) implies {
        &&& combine.ensures((at(g0, 0, y).density, inlet.emission_rate), at(g1, 0, y).density)
        &&& combine.ensures((at(g1, 0, y).density, inlet.emission_rate), at(g2, 0, y).density)
        &&& at(g2, 0, y).momentum_x == inlet.velocity
    } by {
        assert(in_grid(width_of(g0), g0.len() as int, 0, y));
        assert(inlet_cell(at(g0, 0, y), at(g1, 0, y), true, inlet, combine));
        assert(inlet_cell(at(g1, 0, y), at(g2, 0, y), true, inlet, combine));
    }
    assert forall|x: int, y: int|
        in_grid(width_of(g0), g0.len() as int, x, y) && !(x == 0 && in_inlet(
            g0.len() as int,
            inlet.width as int,
            y,
        )) implies at(g2, x, y) == at(g0, x, y) by {
        assert(inlet_cell(at(g0, x, y), at(g1, x, y), false, inlet, combine));
        assert(inlet_cell(at(g1, x, y), at(g2, x, y), false, inlet, combine));
    }
}

} // verus!
