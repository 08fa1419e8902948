//! The simulation driver: owns the grid and the solid mask, runs ticks in
//! order (inlet, sweep, walls, swap) and routes interactive perturbations.

use vstd::prelude::*;
use crate::boundary::{apply_boundary_conditions, bounded_cell};
use crate::flux::{calculate_fluxes, is_frozen, stepped, swept_cell};
use crate::grid::{
    add_perturbation, at, in_grid, is_grid, perturbed, well_formed, width_of, Cell, GridError,
    MIN_SIDE,
};
use crate::obstacle::is_mask;
use crate::source::{add_fluid_source, injected, Inlet};

verus! {

/// What the input source reports to the driver.
#[derive(Clone, Copy, Debug, PartialEq, Eq, Structural)]
pub enum InputEvent {
    /// The user asked to stop.
    Quit,
    /// A pointer press at pixel `(px, py)`.
    PointerDown { px: usize, py: usize },
}

/// The cell under pixel `(px, py)` when each cell is drawn as a `tile` by
/// `tile` square; `None` for an empty tile.
pub fn cell_of_pixel(px: usize, py: usize, tile: usize) -> (r: Option<(usize, usize)>)
    ensures
        tile == 0 ==> r is None,
        tile > 0 ==> r == Some(((px / tile) as usize, (py / tile) as usize)),
{
    if tile == 0 {
        None
    } else {
        Some((px / tile, py / tile))
    }
}

/// A running or stopped simulation over a grid of `T` values.
pub struct Simulation<T> {
    grid: Vec<Vec<Cell<T>>>,
    solid: Vec<Vec<bool>>,
    running: bool,
}

/// `after` is one tick from `before`: the inlet is fed, the grid is swept,
/// and the wall conditions are enforced on the result.
pub open spec fn ticked<
    T,
    F: Fn(Cell<T>, Cell<T>, Cell<T>, Cell<T>, Cell<T>) -> Cell<T>,
    A: Fn(T, T) -> T,
>(
    before: Seq<Vec<Cell<T>>>,
    solid: Seq<Vec<bool>>,
    inlet: Inlet<T>,
    update: F,
    combine: A,
    zero: T,
    after: Seq<Vec<Cell<T>>>,
) -> bool {
    exists|fed: Seq<Vec<Cell<T>>>, swept: Seq<Vec<Cell<T>>>|
        {
            &&& injected(before, fed, inlet, combine)
            &&& stepped(fed, solid, update, swept)
            &&& is_grid(after, width_of(before), before.len() as int)
            &&& forall|x: int, y: int|
                in_grid(width_of(before), before.len() as int, x, y) ==> #[trigger] at(
                    after,
                    x,
                    y,
                ) == bounded_cell(swept, x, y, zero)
        }
}

/// `rows` is a list of rows that all have `width` entries.
fn rows_have_width<U>(rows: &Vec<Vec<U>>, width: usize) -> (r: bool)
    ensures
        r == forall|y: int| 0 <= y < rows@.len() ==> (#[trigger] rows@[y])@.len() == width,
{
    let mut y: usize = 0;
    while y < rows.len()
        invariant
            y <= rows@.len(),
            forall|yy: int| 0 <= yy < y ==> (#[trigger] rows@[yy])@.len() == width,
        decreases rows@.len() - y,
    {
        if rows[y].len() != width {
            return false;
        }
        y = y + 1;
    }
    true
}

impl<T: Copy> Simulation<T> {
    /// The grid the simulation holds.
    pub closed spec fn cells(&self) -> Seq<Vec<Cell<T>>> {
        self.grid@
    }

    /// The solid mask the simulation holds.
    pub closed spec fn mask(&self) -> Seq<Vec<bool>> {
        self.solid@
    }

    /// Whether ticks still advance the simulation.
    pub closed spec fn active(&self) -> bool {
        self.running
    }

    /// The grid is well formed and the mask has its dimensions.
    pub open spec fn wf(&self) -> bool {
        &&& well_formed(self.cells())
        &&& is_mask(self.mask(), width_of(self.cells()), self.cells().len() as int)
    }

    /// Starts a running simulation on `grid` with obstacle `solid`. A grid
    /// with a side under three cells or with rows of unequal length is
    /// `TooSmall`; a mask of other dimensions is `MaskMismatch`.
    pub fn new(grid: Vec<Vec<Cell<T>>>, solid: Vec<Vec<bool>>) -> (r: Result<Self, GridError>)
        ensures
            r is Ok <==> well_formed(grid@) && is_mask(solid@, width_of(grid@), grid@.len() as int),
            r is Ok ==> {
                &&& r->Ok_0.cells() == grid@
                &&& r->Ok_0.mask() == solid@
                &&& r->Ok_0.active()
                &&& r->Ok_0.wf()
            },
            r is Err ==> (r->Err_0 == GridError::TooSmall <==> !well_formed(grid@)),
            r is Err ==> (r->Err_0 == GridError::TooSmall || r->Err_0 == GridError::MaskMismatch),
    {
        if grid.len() < MIN_SIDE || grid[0].len() < MIN_SIDE || !rows_have_width(
            &grid,
            grid[0].len(),
        ) {
            return Err(GridError::TooSmall);
        }
        if solid.len() != grid.len() || !rows_have_width(&solid, grid[0].len()) {
            return Err(GridError::MaskMismatch);
        }
        Ok(Simulation { grid, solid, running: true })
    }

    /// The current grid.
    pub fn grid(&self) -> (r: &Vec<Vec<Cell<T>>>)
        ensures
            r@ == self.cells(),
    {
        &self.grid
    }

    /// The solid mask.
    pub fn solid(&self) -> (r: &Vec<Vec<bool>>)
        ensures
            r@ == self.mask(),
    {
        &self.solid
    }

    /// Whether the simulation is still running.
    pub fn is_running(&self) -> (r: bool)
        ensures
            r == self.active(),
    {
        self.running
    }

    /// Stops the simulation: later ticks change nothing.
    pub fn cancel(&mut self)
        ensures
            !final(self).active(),
            final(self).cells() == old(self).cells(),
            final(self).mask() == old(self).mask(),
    {
        self.running = false;
    }

    /// Runs one tick while running: feeds the inlet, sweeps the grid with
    /// `update`, enforces the walls with `zero` and swaps the result in. A
    /// stopped simulation is left as it is.
    pub fn tick<F: Fn(Cell<T>, Cell<T>, Cell<T>, Cell<T>, Cell<T>) -> Cell<T>, A: Fn(T, T) -> T>(
        &mut self,
        inlet: &Inlet<T>,
        update: F,
        combine: A,
        zero: T,
    )
        requires
            old(self).wf(),
            forall|c: Cell<T>, l: Cell<T>, rt: Cell<T>, u: Cell<T>, d: Cell<T>|
                update.requires((c, l, rt, u, d)),
            forall|a: T, b: T| combine.requires((a, b)),
        ensures
            final(self).wf(),
            final(self).mask() == old(self).mask(),
            final(self).active() == old(self).active(),
            old(self).active() ==> ticked(
                old(self).cells(),
                old(self).mask(),
                *inlet,
                update,
                combine,
                zero,
                final(self).cells(),
            ),
            !old(self).active() ==> final(self).cells() == old(self).cells(),
    {
        if !self.running {
            return;
        }
        let ghost before = self.grid@;
        add_fluid_source(&mut self.grid, inlet, combine);
        let ghost fed = self.grid@;
        assert(fed[0]@.len() == width_of(before));
        let mut next = calculate_fluxes(&self.grid, &self.solid, update);
        let ghost swept = next@;
        assert(swept[0]@.len() == width_of(before));
        apply_boundary_conditions(&mut next, zero);
        self.grid = next;
        assert(ticked(before, self.solid@, *inlet, update, combine, zero, self.grid@)) by {
            assert(injected(before, fed, *inlet, combine));
            assert(stepped(fed, self.solid@, update, swept));
        }
        assert(self.grid@[0]@.len() == width_of(before));
    }

    /// Adds `amount` to the density and `(vx, vy)` to the momentum of the
    /// cell at `(x, y)`; a coordinate outside the grid is refused.
    pub fn inject<A: Fn(T, T) -> T>(
        &mut self,
        x: usize,
        y: usize,
        amount: T,
        vx: T,
        vy: T,
        combine: A,
    ) -> (r: Result<(), GridError>)
        requires
            old(self).wf(),
            forall|a: T, b: T| combine.requires((a, b)),
        ensures
            final(self).wf(),
            final(self).mask() == old(self).mask(),
            final(self).active() == old(self).active(),
            r is Ok <==> in_grid(
                width_of(old(self).cells()),
                old(self).cells().len() as int,
                x as int,
                y as int,
            ),
            r is Ok ==> perturbed(
                old(self).cells(),
                final(self).cells(),
                x as int,
                y as int,
                amount,
                vx,
                vy,
                combine,
            ),
            r is Err ==> r->Err_0 == GridError::OutOfRange && final(self).cells() == old(
                self,
            ).cells(),
    {
        let ghost before = self.grid@;
        let r = add_perturbation(&mut self.grid, x, y, amount, vx, vy, combine);
        assert(self.grid@[0]@.len() == width_of(before));
        r
    }

    /// Acts on one input event: `Quit` stops the simulation; a pointer press
    /// injects `amount` and `(vx, vy)` at the cell under the pointer, and is
    /// ignored where no cell lies under it. Returns whether a cell was
    /// perturbed.
    pub fn handle_event<A: Fn(T, T) -> T>(
        &mut self,
        event: InputEvent,
        tile: usize,
        amount: T,
        vx: T,
        vy: T,
        combine: A,
    ) -> (r: bool)
        requires
            old(self).wf(),
            forall|a: T, b: T| combine.requires((a, b)),
        ensures
            final(self).wf(),
            final(self).mask() == old(self).mask(),
            event is Quit ==> !r && !final(self).active() && final(self).cells() == old(
                self,
            ).cells(),
            event is PointerDown ==> final(self).active() == old(self).active(),
            event is PointerDown ==> (r <==> tile > 0 && in_grid(
                width_of(old(self).cells()),
                old(self).cells().len() as int,
                (event->px / tile) as int,
                (event->py / tile) as int,
            )),
            event is PointerDown && r ==> perturbed(
                old(self).cells(),
                final(self).cells(),
                (event->px / tile) as int,
                (event->py / tile) as int,
                amount,
                vx,
                vy,
                combine,
            ),
            !r ==> final(self).cells() == old(self).cells(),
    {
        match event {
            InputEvent::Quit => {
                self.cancel();
                false
            },
            InputEvent::PointerDown { px, py } => match cell_of_pixel(px, py, tile) {
                None => false,
                Some((x, y)) => match self.inject(x, y, amount, vx, vy, combine) {
                    Ok(()) => true,
                    Err(_) => false,
                },
            },
        }
    }
}

/// A uniform field at rest is a fixed point of a tick without inlet: when
/// every cell equals `c`, `c` has `zero` vertical momentum and `update`
/// returns `c` for five copies of `c`, the sweep and the wall conditions
/// both leave every cell equal to `c`.
pub proof fn uniform_field_is_steady<T, F: Fn(Cell<T>, Cell<T>, Cell<T>, Cell<T>, Cell<T>) -> Cell<
    T,
>>(
    g: Seq<Vec<Cell<T>>>,
    solid: Seq<Vec<bool>>,
    update: F,
    swept: Seq<Vec<Cell<T>>>,
    c: Cell<T>,
    zero: T,
)
    requires
        well_formed(g),
        is_mask(solid, width_of(g), g.len() as int),
        forall|x: int, y: int| in_grid(width_of(g), g.len() as int, x, y) ==> #[trigger] at(g, x, y) == c,
        c.momentum_y == zero,
        forall|r: Cell<T>| update.ensures((c, c, c, c, c), r) ==> r == c,
        stepped(g, solid, update, swept),
    ensures
        forall|x: int, y: int|
            in_grid(width_of(g), g.len() as int, x, y) ==> #[trigger] at(swept, x, y) == c
                && bounded_cell(swept, x, y, zero) == c,
{
    let w = width_of(g);
    let h = g.len() as int;
    assert(swept[0]@.len() == w);
    assert forall|x: int, y: int| in_grid(w, h, x, y) implies at(swept, x, y) == c by {
        assert(swept_cell(g, solid, update, x, y, at(swept, x, y)));
        if !is_frozen(w, h, solid, x, y) {
            assert(at(g, x - 1, y) == c);
            assert(at(g, x + 1, y) == c);
            assert(at(g, x, y - 1) == c);
            assert(at(g, x, y + 1) == c);
        }
    }
    assert forall|x: int, y: int| in_grid(w, h, x, y) implies bounded_cell(swept, x, y, zero)
        == c by {
        let row_from = if y == 0 {
            1
        } else if y == h - 1 {
            h - 2
        } else {
            y
        };
        let col_from = if x == 0 {
            1
        } else if x == w - 1 {
            w - 2
        } else {
            x
        };
        assert(at(swept, x, row_from) == c);
        assert(at(swept, col_from, y) == c);
    }
}

} // verus!
