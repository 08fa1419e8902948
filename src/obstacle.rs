//! Static solid masks: a centred rectangular block and a centred disc.

use vstd::prelude::*;

verus! {

/// Largest number of cells of a disc mask: far beyond any memory, and small
/// enough for the disc test to be computed exactly in `u128`.
pub const DISC_MAX_CELLS: u64 = 0x4000_0000_0000_0000;

/// `m` is a `width` by `height` mask, indexed `m[y][x]`.
pub open spec fn is_mask(m: Seq<Vec<bool>>, width: int, height: int) -> bool {
    &&& m.len() == height
    &&& forall|y: int| 0 <= y < height ==> (#[trigger] m[y])@.len() == width
}

/// The block covers the middle third of the rows and the middle quarter of
/// the columns (rows 20 to 39 and columns 30 to 49 of an 80 by 60 grid).
pub open spec fn in_block(width: int, height: int, x: int, y: int) -> bool {
    &&& height / 3 <= y < (2 * height) / 3
    &&& (3 * width) / 8 <= x < (5 * width) / 8
}

/// The disc holds the cells whose normalised position `(x / width, y / height)`
/// lies closer than a quarter to the centre `(1/2, 1/2)`. Multiplying the
/// inequality `(x/w - 1/2)^2 + (y/h - 1/2)^2 < 1/16` through by `16 w^2 h^2`
/// keeps it exact in integers.
pub open spec fn in_disc(width: int, height: int, x: int, y: int) -> bool {
    let dx = 2 * x - width;
    let dy = 2 * y - height;
    4 * (dx * dx) * (height * height) + 4 * (dy * dy) * (width * width) < (width * width) * (height
        * height)
}

/// Builds the rectangular obstacle of a `width` by `height` grid.
pub fn create_solid_object(width: usize, height: usize) -> (r: Vec<Vec<bool>>)
    ensures
        is_mask(r@, width as int, height as int),
        forall|x: int, y: int|
            0 <= x < width && 0 <= y < height ==> r@[y]@[x] == in_block(
                width as int,
                height as int,
                x,
                y,
            ),
{
    let y_lo: usize = height / 3;
    let y_hi: usize = ((height as u128) * 2 / 3) as usize;
    let x_lo: usize = ((width as u128) * 3 / 8) as usize;
    let x_hi: usize = ((width as u128) * 5 / 8) as usize;
    let mut mask: Vec<Vec<bool>> = Vec::new();
    let mut y: usize = 0;
    while y < height
        invariant
            y <= height,
            y_lo == height / 3,
            y_hi == (2 * height) / 3,
            x_lo == (3 * width) / 8,
            x_hi == (5 * width) / 8,
            is_mask(mask@, width as int, y as int),
            forall|x: int, yy: int|
                0 <= x < width && 0 <= yy < y ==> mask@[yy]@[x] == in_block(
                    width as int,
                    height as int,
                    x,
                    yy,
                ),
        decreases height - y,
    {
        let mut row: Vec<bool> = Vec::new();
        let mut x: usize = 0;
        while x < width
            invariant
                x <= width,
                y < height,
                y_lo == height / 3,
                y_hi == (2 * height) / 3,
                x_lo == (3 * width) / 8,
                x_hi == (5 * width) / 8,
                row@.len() == x,
                forall|xx: int|
                    0 <= xx < x ==> row@[xx] == in_block(width as int, height as int, xx, y as int),
            decreases width - x,
        {
            row.push(y_lo <= y && y < y_hi && x_lo <= x && x < x_hi);
            x = x + 1;
        }
        mask.push(row);
        y = y + 1;
    }
    mask
}

/// The disc leaves the left column and the top row open, and the right
/// column and the bottom row too once that side has four cells; it covers
/// the centre cell of any grid whose sides have three cells or more.
proof fn lemma_disc_border_and_centre(width: int, height: int)
    requires
        width >= 1,
        height >= 1,
    ensures
        forall|y: int| 0 <= y < height ==> !#[trigger] in_disc(width, height, 0, y),
        forall|x: int| 0 <= x < width ==> !#[trigger] in_disc(width, height, x, 0),
        width >= 4 ==> forall|y: int|
            0 <= y < height ==> !#[trigger] in_disc(width, height, width - 1, y),
        height >= 4 ==> forall|x: int|
            0 <= x < width ==> !#[trigger] in_disc(width, height, x, height - 1),
        width >= 3 && height >= 3 ==> in_disc(width, height, width / 2, height / 2),
{
    let ww = width * width;
    let hh = height * height;
    assert forall|y: int| 0 <= y < height implies !in_disc(width, height, 0, y) by {
        let dx = 0 - width;
        let dy = 2 * y - height;
        assert(4 * (dx * dx) * hh + 4 * (dy * dy) * ww >= ww * hh) by (nonlinear_arith)
            requires
                dx == -width,
                ww == width * width,
                hh == height * height,
        ;
    }
    assert forall|x: int| 0 <= x < width implies !in_disc(width, height, x, 0) by {
        let dx = 2 * x - width;
        let dy = 0 - height;
        assert(4 * (dx * dx) * hh + 4 * (dy * dy) * ww >= ww * hh) by (nonlinear_arith)
            requires
                dy == -height,
                ww == width * width,
                hh == height * height,
        ;
    }
    if width >= 4 {
        assert forall|y: int| 0 <= y < height implies !#[trigger] in_disc(width, height, width - 1, y) by {
            let dx = 2 * (width - 1) - width;
            let dy = 2 * y - height;
            assert(4 * (dx * dx) * hh + 4 * (dy * dy) * ww >= ww * hh) by (nonlinear_arith)
                requires
                    dx == width - 2,
                    width >= 4,
                    ww == width * width,
                    hh == height * height,
            ;
        }
    }
    if height >= 4 {
        assert forall|x: int| 0 <= x < width implies !#[trigger] in_disc(width, height, x, height - 1) by {
            let dy = 2 * (height - 1) - height;
            let dx = 2 * x - width;
            assert(4 * (dx * dx) * hh + 4 * (dy * dy) * ww >= ww * hh) by (nonlinear_arith)
                requires
                    dy == height - 2,
                    height >= 4,
                    ww == width * width,
                    hh == height * height,
            ;
        }
    }
    if width >= 3 && height >= 3 {
        let dx = 2 * (width / 2) - width;
        let dy = 2 * (height / 2) - height;
        assert(dx * dx <= 1 && dy * dy <= 1) by (nonlinear_arith)
            requires
                -1 <= dx <= 0,
                -1 <= dy <= 0,
        ;
        assert(4 * (dx * dx) * hh + 4 * (dy * dy) * ww < ww * hh) by (nonlinear_arith)
            requires
                dx * dx <= 1,
                dy * dy <= 1,
                ww == width * width,
                hh == height * height,
                width >= 3,
                height >= 3,
        ;
    }
}

/// A mask of `height` rows that have no cells.
fn empty_rows(height: usize) -> (r: Vec<Vec<bool>>)
    ensures
        is_mask(r@, 0, height as int),
{
    let mut mask: Vec<Vec<bool>> = Vec::new();
    let mut y: usize = 0;
    while y < height
        invariant
            y <= height,
            is_mask(mask@, 0, y as int),
        decreases height - y,
    {
        mask.push(Vec::new());
        y = y + 1;
    }
    mask
}

/// Builds the round obstacle of a `width` by `height` grid.
pub fn create_airfoil(width: usize, height: usize) -> (r: Vec<Vec<bool>>)
    requires
        (width as int) * (height as int) <= DISC_MAX_CELLS,
    ensures
        is_mask(r@, width as int, height as int),
        forall|x: int, y: int|
            0 <= x < width && 0 <= y < height ==> r@[y]@[x] == in_disc(
                width as int,
                height as int,
                x,
                y,
            ),
        forall|y: int| 0 <= y < height && width > 0 ==> !r@[y]@[0],
        forall|x: int| 0 <= x < width && height > 0 ==> !r@[0]@[x],
        width >= 4 ==> forall|y: int| 0 <= y < height ==> !#[trigger] r@[y]@[width - 1],
        height >= 4 ==> forall|x: int| 0 <= x < width ==> !#[trigger] r@[height - 1]@[x],
        width >= 3 && height >= 3 ==> r@[height as int / 2]@[width as int / 2],
{
    if width == 0 || height == 0 {
        let mask = empty_rows(height);
        assert(height == 0 ==> is_mask(mask@, width as int, height as int));
        return mask;
    }
    proof {
        lemma_disc_border_and_centre(width as int, height as int);
    }
    let w: u128 = width as u128;
    let h: u128 = height as u128;
    assert(w <= 0x4000_0000_0000_0000 && h <= 0x4000_0000_0000_0000) by (nonlinear_arith)
        requires
            1 <= w,
            1 <= h,
            w * h <= 0x4000_0000_0000_0000,
    ;
    assert(w * w <= 0x1000_0000_0000_0000_0000_0000_0000_0000 && h * h <= 0x1000_0000_0000_0000_0000_0000_0000_0000) by (nonlinear_arith)
        requires
            w <= 0x4000_0000_0000_0000,
            h <= 0x4000_0000_0000_0000,
    ;
    let ww: u128 = w * w;
    let hh: u128 = h * h;
    assert(ww * hh <= 0x1000_0000_0000_0000_0000_0000_0000_0000) by (nonlinear_arith)
        requires
            ww == w * w,
            hh == h * h,
            w * h <= 0x4000_0000_0000_0000,
    ;
    let limit: u128 = ww * hh;
    let mut mask: Vec<Vec<bool>> = Vec::new();
    let mut y: usize = 0;
    while y < height
        invariant
            y <= height,
            w == width,
            h == height,
            ww == w * w,
            hh == h * h,
            limit == ww * hh,
            ww <= 0x1000_0000_0000_0000_0000_0000_0000_0000,
            hh <= 0x1000_0000_0000_0000_0000_0000_0000_0000,
            limit <= 0x1000_0000_0000_0000_0000_0000_0000_0000,
            is_mask(mask@, width as int, y as int),
            forall|x: int, yy: int|
                0 <= x < width && 0 <= yy < y ==> mask@[yy]@[x] == in_disc(
                    width as int,
                    height as int,
                    x,
                    yy,
                ),
        decreases height - y,
    {
        let y2: u128 = 2 * (y as u128);
        let dy: u128 = if y2 >= h { y2 - h } else { h - y2 };
        assert(dy <= h);
        assert(dy * dy <= hh) by (nonlinear_arith)
            requires
                hh == h * h,
                dy <= h,
        ;
        let dyy: u128 = dy * dy;
        assert(4 * dyy <= 4 * hh && 4 * dyy * ww <= 4 * hh * ww && 4 * hh * ww <= 4 * limit)
            by (nonlinear_arith)
            requires
                dyy <= hh,
                limit == ww * hh,
        ;
        let term_y: u128 = 4 * dyy * ww;
        let mut row: Vec<bool> = Vec::new();
        let mut x: usize = 0;
        while x < width
            invariant
                x <= width,
                y < height,
                w == width,
                h == height,
                ww == w * w,
                hh == h * h,
                limit == ww * hh,
                term_y == 4 * dyy * ww,
                dyy == dy * dy,
                dy as int == if 2 * y >= height {
                    2 * y - height
                } else {
                    height - 2 * y
                },
                term_y <= 4 * hh * ww,
                4 * hh * ww <= 4 * limit,
                ww <= 0x1000_0000_0000_0000_0000_0000_0000_0000,
                hh <= 0x1000_0000_0000_0000_0000_0000_0000_0000,
                limit <= 0x1000_0000_0000_0000_0000_0000_0000_0000,
                row@.len() == x,
                forall|xx: int|
                    0 <= xx < x ==> row@[xx] == in_disc(width as int, height as int, xx, y as int),
            decreases width - x,
        {
            let x2: u128 = 2 * (x as u128);
            let dx: u128 = if x2 >= w { x2 - w } else { w - x2 };
            assert(dx * dx <= ww) by (nonlinear_arith)
                requires
                    ww == w * w,
                    dx <= w,
            ;
            let dxx: u128 = dx * dx;
            assert(4 * dxx <= 4 * ww && 4 * dxx * hh <= 4 * ww * hh && 4 * ww * hh <= 4 * limit)
                by (nonlinear_arith)
                requires
                    dxx <= ww,
                    limit == ww * hh,
            ;
            let term_x: u128 = 4 * dxx * hh;
            let inside: bool = term_x + term_y < limit;
            proof {
                let sx = 2 * x - width;
                let sy = 2 * y - height;
                assert(dx * dx == sx * sx) by (nonlinear_arith)
                    requires
                        dx == sx || dx == -sx,
                ;
                assert(dy * dy == sy * sy) by (nonlinear_arith)
                    requires
                        dy == sy || dy == -sy,
                ;
            }
            row.push(inside);
            x = x + 1;
        }
        mask.push(row);
        y = y + 1;
    }
    assert forall|yy: int| 0 <= yy < height implies !mask@[yy]@[0] by {
        assert(mask@[yy]@[0] == in_disc(width as int, height as int, 0, yy));
    }
    assert forall|x: int| 0 <= x < width implies !mask@[0]@[x] by {
        assert(mask@[0]@[x] == in_disc(width as int, height as int, x, 0));
    }
    if width >= 4 {
        assert forall|yy: int| 0 <= yy < height implies !#[trigger] mask@[yy]@[width - 1] by {
            assert(mask@[yy]@[width - 1] == in_disc(width as int, height as int, width - 1, yy));
        }
    }
    if height >= 4 {
        assert forall|x: int| 0 <= x < width implies !#[trigger] mask@[height - 1]@[x] by {
            assert(mask@[height - 1]@[x] == in_disc(width as int, height as int, x, height - 1));
        }
    }
    mask
}

} // verus!
