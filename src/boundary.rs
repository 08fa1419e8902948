//! Wall conditions on the four edges of a stepped grid.

use vstd::prelude::*;
use crate::flux::is_border;
use crate::grid::{at, in_grid, is_grid, well_formed, width_of, Cell};

verus! {

/// The cell at `(x, y)` once the wall conditions hold: on the left and right
/// columns the horizontal momentum is copied from the adjacent interior
/// column; on every edge the vertical momentum is `zero`; on the top and
/// bottom rows density and energy are copied from the adjacent interior row.
pub open spec fn bounded_cell<T>(g: Seq<Vec<Cell<T>>>, x: int, y: int, zero: T) -> Cell<T> {
    let w = width_of(g);
    let h = g.len() as int;
    let c = at(g, x, y);
    let row_from = if y == 0 {
        1
    } else if y == h - 1 {
        h - 2
    } else {
        y
    };
    let col_from = if x == 0 {
        1
    } else if x == w - 1 {
        w - 2
    } else {
        x
    };
    Cell {
        density: at(g, x, row_from).density,
        momentum_x: at(g, col_from, y).momentum_x,
        momentum_y: if is_border(w, h, x, y) {
            zero
        } else {
            c.momentum_y
        },
        energy: at(g, x, row_from).energy,
    }
}

/// Enforces the wall conditions on `grid`, writing `zero` as the vertical
/// momentum of every edge cell.
pub fn apply_boundary_conditions<T: Copy>(grid: &mut Vec<Vec<Cell<T>>>, zero: T)
    requires
        well_formed(old(grid)@),
    ensures
        is_grid(final(grid)@, width_of(old(grid)@), old(grid)@.len() as int),
        forall|x: int, y: int|
            in_grid(width_of(old(grid)@), old(grid)@.len() as int, x, y) ==> #[trigger] at(
                final(grid)@,
                x,
                y,
            ) == bounded_cell(old(grid)@, x, y, zero),
        forall|y: int|
            0 <= y < old(grid)@.len() ==> (#[trigger] at(final(grid)@, 0, y)).momentum_y == zero
                && at(final(grid)@, width_of(old(grid)@) - 1, y).momentum_y == zero,
        forall|x: int|
            0 <= x < width_of(old(grid)@) ==> (#[trigger] at(final(grid)@, x, 0)).density == at(
                final(grid)@,
                x,
                1,
            ).density && at(final(grid)@, x, old(grid)@.len() - 1).density == at(
                final(grid)@,
                x,
                old(grid)@.len() - 2,
            ).density,
{
    let height: usize = grid.len();
    let width: usize = grid[0].len();
    let ghost g = grid@;
    let mut next: Vec<Vec<Cell<T>>> = Vec::new();
    let mut y: usize = 0;
    while y < height
        invariant
            y <= height,
            g == grid@,
            height == g.len(),
            width == width_of(g),
            well_formed(g),
            next@.len() == y,
            forall|yy: int| 0 <= yy < y ==> (#[trigger] next@[yy])@.len() == width,
            forall|x: int, yy: int|
                in_grid(width as int, y as int, x, yy) ==> #[trigger] at(next@, x, yy)
                    == bounded_cell(g, x, yy, zero),
        decreases height - y,
    {
        let row_from: usize = if y == 0 {
            1
        } else if y == height - 1 {
            height - 2
        } else {
            y
        };
        assert(g[y as int]@.len() == width);
        assert(g[row_from as int]@.len() == width);
        let mut row: Vec<Cell<T>> = Vec::new();
        let mut x: usize = 0;
        while x < width
            invariant
                x <= width,
                y < height,
                g == grid@,
                height == g.len(),
                width == width_of(g),
                well_formed(g),
                row_from == (if y == 0 {
                    1
                } else if y == height - 1 {
                    height - 2
                } else {
                    y as int
                }),
                g[y as int]@.len() == width,
                g[row_from as int]@.len() == width,
                row@.len() == x,
                forall|xx: int|
                    0 <= xx < x ==> #[trigger] row@[xx] == bounded_cell(g, xx, y as int, zero),
            decreases width - x,
        {
            let col_from: usize = if x == 0 {
                1
            } else if x == width - 1 {
                width - 2
            } else {
                x
            };
            let c = grid[y][x];
            let src_row = grid[row_from][x];
            let src_col = grid[y][col_from];
            let border = x == 0 || y == 0 || x == width - 1 || y == height - 1;
            let out = Cell {
                density: src_row.density,
                momentum_x: src_col.momentum_x,
                momentum_y: if border {
                    zero
                } else {
                    c.momentum_y
                },
                energy: src_row.energy,
            };
            row.push(out);
            x = x + 1;
        }
        let ghost before = next@;
        next.push(row);
        assert forall|x: int, yy: int| in_grid(width as int, y + 1, x, yy) implies at(next@, x, yy)
            == bounded_cell(g, x, yy, zero) by {
            if yy < y {
                assert(next@[yy] == before[yy]);
                assert(at(next@, x, yy) == at(before, x, yy));
            } else {
                assert(next@[yy] == row);
                assert(at(next@, x, yy) == row@[x]);
            }
        }
        y = y + 1;
    }
    *grid = next;
}

} // verus!
