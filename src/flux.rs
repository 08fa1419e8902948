//! One stencil sweep: each interior, open cell is rebuilt from itself and
//! its four axis neighbours; border and solid cells are copied unchanged.

use vstd::prelude::*;
use crate::grid::{at, in_grid, is_grid, well_formed, width_of, Cell};
use crate::obstacle::is_mask;

verus! {

/// `(x, y)` lies on the outer one-cell ring of a `width` by `height` grid.
pub open spec fn is_border(width: int, height: int, x: int, y: int) -> bool {
    x == 0 || y == 0 || x == width - 1 || y == height - 1
}

/// The sweep leaves the cell at `(x, y)` as it was.
pub open spec fn is_frozen(width: int, height: int, solid: Seq<Vec<bool>>, x: int, y: int) -> bool {
    is_border(width, height, x, y) || solid[y]@[x]
}

/// `out` is what one sweep of `before` puts at `(x, y)`: a copy of the cell
/// where it is frozen, else a result of `update` on (centre, left, right, up,
/// down).
pub open spec fn swept_cell<T, F: Fn(Cell<T>, Cell<T>, Cell<T>, Cell<T>, Cell<T>) -> Cell<T>>(
    before: Seq<Vec<Cell<T>>>,
    solid: Seq<Vec<bool>>,
    update: F,
    x: int,
    y: int,
    out: Cell<T>,
) -> bool {
    if is_frozen(width_of(before), before.len() as int, solid, x, y) {
        out == at(before, x, y)
    } else {
        update.ensures(
            (
                at(before, x, y),
                at(before, x - 1, y),
                at(before, x + 1, y),
                at(before, x, y - 1),
                at(before, x, y + 1),
            ),
            out,
        )
    }
}

/// `after` is one sweep of `before`.
pub open spec fn stepped<T, F: Fn(Cell<T>, Cell<T>, Cell<T>, Cell<T>, Cell<T>) -> Cell<T>>(
    before: Seq<Vec<Cell<T>>>,
    solid: Seq<Vec<bool>>,
    update: F,
    after: Seq<Vec<Cell<T>>>,
) -> bool {
    let w = width_of(before);
    let h = before.len() as int;
    &&& is_grid(after, w, h)
    &&& forall|x: int, y: int|
        in_grid(w, h, x, y) ==> swept_cell(before, solid, update, x, y, #[trigger] at(after, x, y))
}

/// Computes the next grid from `grid`. `update` receives a cell and its
/// left, right, upper and lower neighbours, all taken from `grid`, so no
/// cell of the result depends on another cell of the result.
pub fn calculate_fluxes<T: Copy, F: Fn(Cell<T>, Cell<T>, Cell<T>, Cell<T>, Cell<T>) -> Cell<T>>(
    grid: &Vec<Vec<Cell<T>>>,
    solid: &Vec<Vec<bool>>,
    update: F,
) -> (r: Vec<Vec<Cell<T>>>)
    requires
        well_formed(grid@),
        is_mask(solid@, width_of(grid@), grid@.len() as int),
        forall|c: Cell<T>, l: Cell<T>, rt: Cell<T>, u: Cell<T>, d: Cell<T>|
            update.requires((c, l, rt, u, d)),
    ensures
        stepped(grid@, solid@, update, r@),
        forall|x: int, y: int|
            in_grid(width_of(grid@), grid@.len() as int, x, y) && is_frozen(
                width_of(grid@),
                grid@.len() as int,
                solid@,
                x,
                y,
            ) ==> #[trigger] at(r@, x, y) == at(grid@, x, y),
{
    let height: usize = grid.len();
    let width: usize = grid[0].len();
    let ghost w = width as int;
    let ghost h = height as int;
    let mut next: Vec<Vec<Cell<T>>> = Vec::new();
    let mut y: usize = 0;
    while y < height
        invariant
            y <= height,
            height == grid@.len(),
            width == width_of(grid@),
            well_formed(grid@),
            is_mask(solid@, w, h),
            w == width,
            h == height,
            forall|c: Cell<T>, l: Cell<T>, rt: Cell<T>, u: Cell<T>, d: Cell<T>|
                update.requires((c, l, rt, u, d)),
            next@.len() == y,
            forall|yy: int| 0 <= yy < y ==> (#[trigger] next@[yy])@.len() == width,
            forall|x: int, yy: int|
                in_grid(w, y as int, x, yy) ==> swept_cell(
                    grid@,
                    solid@,
                    update,
                    x,
                    yy,
                    #[trigger] at(next@, x, yy),
                ),
        decreases height - y,
    {
        let mut row: Vec<Cell<T>> = Vec::new();
        let mut x: usize = 0;
        while x < width
            invariant
                x <= width,
                y < height,
                height == grid@.len(),
                width == width_of(grid@),
                well_formed(grid@),
                is_mask(solid@, w, h),
                w == width,
                h == height,
                forall|c: Cell<T>, l: Cell<T>, rt: Cell<T>, u: Cell<T>, d: Cell<T>|
                    update.requires((c, l, rt, u, d)),
                row@.len() == x,
                forall|xx: int|
                    0 <= xx < x ==> swept_cell(grid@, solid@, update, xx, y as int, #[trigger] row@[xx]),
            decreases width - x,
        {
            assert(grid@[y as int]@.len() == width);
            assert(solid@[y as int]@.len() == width);
            if x == 0 || y == 0 || x == width - 1 || y == height - 1 || solid[y][x] {
                row.push(grid[y][x]);
            } else {
                assert(grid@[y - 1]@.len() == width);
                assert(grid@[y + 1]@.len() == width);
                let c = update(
                    grid[y][x],
                    grid[y][x - 1],
                    grid[y][x + 1],
                    grid[y - 1][x],
                    grid[y + 1][x],
                );
                row.push(c);
            }
            x = x + 1;
        }
        let ghost before = next@;
        next.push(row);
        assert forall|x: int, yy: int| in_grid(w, y + 1, x, yy) implies swept_cell(
            grid@,
            solid@,
            update,
            x,
            yy,
            at(next@, x, yy),
        ) by {
            if yy < y {
                assert(next@[yy] == before[yy]);
                assert(at(next@, x, yy) == at(before, x, yy));
            } else {
                assert(next@[yy] == row);
                assert(at(next@, x, yy) == row@[x]);
            }
        }
        y = y + 1;
    }
    next
}

} // verus!
