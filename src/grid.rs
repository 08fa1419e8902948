//! Cells, grids and the accessors that keep every write inside the grid.

use vstd::prelude::*;

verus! {

/// The fluid state at one grid point.
#[derive(Clone, Copy, Debug, PartialEq)]
pub struct Cell<T> {
    pub density: T,
    pub momentum_x: T,
    pub momentum_y: T,
    pub energy: T,
}

/// Why a grid, a mask or a coordinate was turned down.
#[derive(Clone, Copy, Debug, PartialEq, Eq, Structural)]
pub enum GridError {
    /// A side of the grid is shorter than three cells, or its rows differ
    /// in length.
    TooSmall,
    /// A coordinate lies outside the grid.
    OutOfRange,
    /// The solid mask does not have the grid's dimensions.
    MaskMismatch,
}

/// Smallest side of a grid: the stencil needs a one-cell margin.
pub const MIN_SIDE: usize = 3;

/// `g` is a `width` by `height` grid, indexed `g[y][x]`.
pub open spec fn is_grid<T>(g: Seq<Vec<Cell<T>>>, width: int, height: int) -> bool {
    &&& width >= MIN_SIDE
    &&& height >= MIN_SIDE
    &&& g.len() == height
    &&& forall|y: int| 0 <= y < height ==> (#[trigger] g[y])@.len() == width
}

/// Number of columns of a grid (the length of its first row).
pub open spec fn width_of<T>(g: Seq<Vec<Cell<T>>>) -> int {
    g[0]@.len() as int
}

/// `g` is a grid of some dimensions.
pub open spec fn well_formed<T>(g: Seq<Vec<Cell<T>>>) -> bool {
    is_grid(g, width_of(g), g.len() as int)
}

/// The cell at column `x` and row `y`.
pub open spec fn at<T>(g: Seq<Vec<Cell<T>>>, x: int, y: int) -> Cell<T> {
    g[y]@[x]
}

/// `x, y` names a cell of a `width` by `height` grid.
pub open spec fn in_grid(width: int, height: int, x: int, y: int) -> bool {
    0 <= x < width && 0 <= y < height
}

/// The cell that starts a run: ambient state with its density and energy raised.
pub open spec fn seeded<T>(ambient: Cell<T>, density: T, energy: T) -> Cell<T> {
    Cell { density, momentum_x: ambient.momentum_x, momentum_y: ambient.momentum_y, energy }
}

/// Builds a `width` by `height` grid of `ambient` cells whose centre cell
/// `(width / 2, height / 2)` has `center_density` and `center_energy` instead.
pub fn initialize_grid<T: Copy>(
    width: usize,
    height: usize,
    ambient: Cell<T>,
    center_density: T,
    center_energy: T,
) -> (r: Result<Vec<Vec<Cell<T>>>, GridError>)
    ensures
        r is Ok <==> (width >= MIN_SIDE && height >= MIN_SIDE),
        r is Err ==> r->Err_0 == GridError::TooSmall,
        r is Ok ==> is_grid(r->Ok_0@, width as int, height as int),
        r is Ok ==> forall|x: int, y: int|
            in_grid(width as int, height as int, x, y) ==> #[trigger] at(r->Ok_0@, x, y) == if x == width
                / 2 && y == height / 2 {
                seeded(ambient, center_density, center_energy)
            } else {
                ambient
            },
{
    if width < MIN_SIDE || height < MIN_SIDE {
        return Err(GridError::TooSmall);
    }
    let cx: usize = width / 2;
    let cy: usize = height / 2;
    let hot = Cell {
        density: center_density,
        momentum_x: ambient.momentum_x,
        momentum_y: ambient.momentum_y,
        energy: center_energy,
    };
    let mut grid: Vec<Vec<Cell<T>>> = Vec::new();
    let mut y: usize = 0;
    while y < height
        invariant
            y <= height,
            width >= MIN_SIDE,
            cx == width / 2,
            cy == height / 2,
            hot == seeded(ambient, center_density, center_energy),
            grid@.len() == y,
            forall|yy: int| 0 <= yy < y ==> (#[trigger] grid@[yy])@.len() == width,
            forall|x: int, yy: int|
                in_grid(width as int, y as int, x, yy) ==> at(grid@, x, yy) == if x == cx && yy
                    == cy {
                    hot
                } else {
                    ambient
                },
        decreases height - y,
    {
        let mut row: Vec<Cell<T>> = Vec::new();
        let mut x: usize = 0;
        while x < width
            invariant
                x <= width,
                cx == width / 2,
                cy == height / 2,
                row@.len() == x,
                forall|xx: int|
                    0 <= xx < x ==> row@[xx] == if xx == cx && y == cy {
                        hot
                    } else {
                        ambient
                    },
            decreases width - x,
        {
            if x == cx && y == cy {
                row.push(hot);
            } else {
                row.push(ambient);
            }
            x = x + 1;
        }
        let ghost before = grid@;
        grid.push(row);
        assert forall|x: int, yy: int| in_grid(width as int, y + 1, x, yy) implies at(grid@, x, yy)
            == if x == cx && yy == cy {
            hot
        } else {
            ambient
        } by {
            if yy < y {
                assert(grid@[yy] == before[yy]);
                assert(at(grid@, x, yy) == at(before, x, yy));
                assert(in_grid(width as int, y as int, x, yy));
                assert(at(before, x, yy) == if x == cx && yy == cy {
                    hot
                } else {
                    ambient
                });
            } else {
                assert(grid@[yy] == row);
                assert(at(grid@, x, yy) == row@[x]);
                assert(row@[x] == if x == cx && yy == cy {
                    hot
                } else {
                    ambient
                });
            }
        }
        y = y + 1;
    }
    Ok(grid)
}

/// Number of columns of a grid.
pub fn grid_width<T>(grid: &Vec<Vec<Cell<T>>>) -> (r: usize)
    requires
        well_formed(grid@),
    ensures
        r == width_of(grid@),
{
    grid[0].len()
}

/// Number of rows of a grid.
pub fn grid_height<T>(grid: &Vec<Vec<Cell<T>>>) -> (r: usize)
    requires
        well_formed(grid@),
    ensures
        r == grid@.len(),
{
    grid.len()
}

/// The cell at `(x, y)`, or `OutOfRange` when the grid has no such cell.
pub fn cell_at<T: Copy>(grid: &Vec<Vec<Cell<T>>>, x: usize, y: usize) -> (r: Result<
    Cell<T>,
    GridError,
>)
    requires
        well_formed(grid@),
    ensures
        r is Ok <==> in_grid(width_of(grid@), grid@.len() as int, x as int, y as int),
        r is Ok ==> r->Ok_0 == at(grid@, x as int, y as int),
        r is Err ==> r->Err_0 == GridError::OutOfRange,
{
    if y < grid.len() && x < grid[0].len() {
        Ok(grid[y][x])
    } else {
        Err(GridError::OutOfRange)
    }
}

/// Replaces the cell at `(x, y)` and leaves every other cell as it was.
pub(crate) fn put<T>(grid: &mut Vec<Vec<Cell<T>>>, x: usize, y: usize, c: Cell<T>)
    requires
        y < old(grid)@.len(),
        x < old(grid)@[y as int]@.len(),
    ensures
        final(grid)@.len() == old(grid)@.len(),
        forall|yy: int|
            0 <= yy < old(grid)@.len() ==> (#[trigger] final(grid)@[yy])@ == if yy == y {
                old(grid)@[yy]@.update(x as int, c)
            } else {
                old(grid)@[yy]@
            },
{
    let mut row: Vec<Cell<T>> = Vec::new();
    grid.set_and_swap(y, &mut row);
    row.set(x, c);
    grid.set(y, row);
}

/// `after` is `before` with the cell at `(x, y)` perturbed: `combine` took its
/// density to `amount` and its momenta to `vx` and `vy`.
pub open spec fn perturbed<T, A: Fn(T, T) -> T>(
    before: Seq<Vec<Cell<T>>>,
    after: Seq<Vec<Cell<T>>>,
    x: int,
    y: int,
    amount: T,
    vx: T,
    vy: T,
    combine: A,
) -> bool {
    let w = width_of(before);
    let h = before.len() as int;
    let c = at(before, x, y);
    let d = at(after, x, y);
    &&& is_grid(after, w, h)
    &&& combine.ensures((c.density, amount), d.density)
    &&& combine.ensures((c.momentum_x, vx), d.momentum_x)
    &&& combine.ensures((c.momentum_y, vy), d.momentum_y)
    &&& d.energy == c.energy
    &&& forall|xx: int, yy: int|
        in_grid(w, h, xx, yy) && !(xx == x && yy == y) ==> at(after, xx, yy) == at(before, xx, yy)
}

/// Adds `amount` to the density and `(vx, vy)` to the momentum of the cell
/// at `(x, y)`; a coordinate outside the grid is refused and changes nothing.
pub fn add_perturbation<T: Copy, A: Fn(T, T) -> T>(
    grid: &mut Vec<Vec<Cell<T>>>,
    x: usize,
    y: usize,
    amount: T,
    vx: T,
    vy: T,
    combine: A,
) -> (r: Result<(), GridError>)
    requires
        well_formed(old(grid)@),
        forall|a: T, b: T| combine.requires((a, b)),
    ensures
        r is Ok <==> in_grid(width_of(old(grid)@), old(grid)@.len() as int, x as int, y as int),
        r is Ok ==> perturbed(old(grid)@, final(grid)@, x as int, y as int, amount, vx, vy, combine),
        r is Err ==> r->Err_0 == GridError::OutOfRange && final(grid)@ == old(grid)@,
{
    if y >= grid.len() || x >= grid[0].len() {
        return Err(GridError::OutOfRange);
    }
    let c = grid[y][x];
    let d = Cell {
        density: combine(c.density, amount),
        momentum_x: combine(c.momentum_x, vx),
        momentum_y: combine(c.momentum_y, vy),
        energy: c.energy,
    };
    put(grid, x, y, d);
    Ok(())
}

} // verus!
