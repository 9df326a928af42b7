//! Math helpers: clamping, byte comparison, point sums, and UV-table
//! generation.

use vstd::prelude::*;

use crate::common::{Point, Rect};

verus! {

/// Clamps `input` into the inclusive range `[min, max]`.
pub fn clamp(input: i64, min: i64, max: i64) -> (r: i64)
    requires
        min <= max,
    ensures
        r == spec_clamp(input as int, min as int, max as int),
{
    if input < min {
        min
    } else if input > max {
        max
    } else {
        input
    }
}

/// Compares two byte slices for equality.
pub fn bytes_eq(a: &[u8], b: &[u8]) -> (r: bool)
    ensures
        r == (a@ == b@),
{
    if a.len() != b.len() {
        return false;
    }
    let mut i: usize = 0;
    while i < a.len()
        invariant
            0 <= i <= a@.len(),
            a@.len() == b@.len(),
            forall|j: int| 0 <= j < i ==> a@[j] == b@[j],
        decreases a@.len() - i,
    {
        if a[i] != b[i] {
            return false;
        }
        i = i + 1;
    }
    proof {
        assert(a@ =~= b@);
    }
    true
}

/// What `clamp` returns: `input` pulled into `[min, max]`.
pub open spec fn spec_clamp(input: int, min: int, max: int) -> int {
    if input < min {
        min
    } else if input > max {
        max
    } else {
        input
    }
}

/// The componentwise sum of a sequence of points.
pub open spec fn spec_sum_points(s: Seq<Point>) -> (int, int)
    decreases s.len(),
{
    if s.len() == 0 {
        (0int, 0int)
    } else {
        let rest = spec_sum_points(s.drop_last());
        (rest.0 + s.last().x, rest.1 + s.last().y)
    }
}

/// Largest point-coordinate magnitude `add_points` accepts.
pub const MAX_POINT_COORD: i64 = 0x100_0000_0000;

/// Sums a slice of points componentwise.
pub fn add_points(args: &[Point]) -> (r: Point)
    requires
        args@.len() <= 0x40_0000,
        forall|i: int| 0 <= i < args@.len() ==> -MAX_POINT_COORD <= (#[trigger] args@[i]).x
            <= MAX_POINT_COORD && -MAX_POINT_COORD <= args@[i].y <= MAX_POINT_COORD,
    ensures
        r.x == spec_sum_points(args@).0,
        r.y == spec_sum_points(args@).1,
{
    let mut sum = Point { x: 0, y: 0 };
    let mut i: usize = 0;
    while i < args.len()
        invariant
            0 <= i <= args@.len(),
            args@.len() <= 0x40_0000,
            forall|j: int| 0 <= j < args@.len() ==> -MAX_POINT_COORD <= (#[trigger] args@[j]).x
                <= MAX_POINT_COORD && -MAX_POINT_COORD <= args@[j].y <= MAX_POINT_COORD,
            sum.x == spec_sum_points(args@.take(i as int)).0,
            sum.y == spec_sum_points(args@.take(i as int)).1,
            -(i as int) * MAX_POINT_COORD <= sum.x <= (i as int) * MAX_POINT_COORD,
            -(i as int) * MAX_POINT_COORD <= sum.y <= (i as int) * MAX_POINT_COORD,
        decreases args@.len() - i,
    {
        proof {
            assert(args@.take(i as int + 1).drop_last() =~= args@.take(i as int));
            assert(args@.take(i as int + 1).last() == args@[i as int]);
        }
        sum.x = sum.x + args[i].x;
        sum.y = sum.y + args[i].y;
        i = i + 1;
    }
    proof {
        assert(args@.take(args@.len() as int) =~= args@);
    }
    sum
}

/// The UV table for a tileset image: one source rectangle per tile, in
/// row-major order, each rectangle in image pixels.
pub open spec fn spec_uvs(i_w: int, i_h: int, t_w: int, t_h: int) -> Seq<Rect> {
    let cols = i_w / t_w;
    let rows = i_h / t_h;
    Seq::new(
        (rows * cols) as nat,
        |k: int|
            Rect {
                x: ((k % cols) * t_w) as i64,
                y: ((k / cols) * t_h) as i64,
                w: t_w as i64,
                h: t_h as i64,
            },
    )
}

/// Generates the UV table for an image of `i_width` by `i_height` pixels cut
/// into tiles of `t_width` by `t_height` pixels: one rectangle per tile,
/// rows top to bottom, columns left to right.
pub fn generate_uvs(i_width: i64, i_height: i64, t_width: i64, t_height: i64) -> (r: Vec<Rect>)
    requires
        0 < t_width <= 0x10_0000,
        0 < t_height <= 0x10_0000,
        0 <= i_width <= 0x10_0000,
        0 <= i_height <= 0x10_0000,
    ensures
        r@ == spec_uvs(i_width as int, i_height as int, t_width as int, t_height as int),
{
    let cols = i_width / t_width;
    let rows = i_height / t_height;
    proof {
        vstd::arithmetic::div_mod::lemma_div_pos_is_pos(i_width as int, t_width as int);
        vstd::arithmetic::div_mod::lemma_div_pos_is_pos(i_height as int, t_height as int);
        vstd::arithmetic::div_mod::lemma_div_nonincreasing(i_width as int, t_width as int);
        vstd::arithmetic::div_mod::lemma_div_nonincreasing(i_height as int, t_height as int);
        assert(0 <= (rows as int) * (cols as int) <= 0x100_0000_0000) by (nonlinear_arith)
            requires
                0 <= rows as int <= 0x10_0000,
                0 <= cols as int <= 0x10_0000,
        ;
    }
    let ghost target = spec_uvs(i_width as int, i_height as int, t_width as int, t_height as int);
    let mut uvs: Vec<Rect> = Vec::new();
    let mut ux: i64 = 0;
    let mut uy: i64 = 0;
    let mut row: i64 = 0;
    while row < rows
        invariant
            0 <= row <= rows,
            0 <= cols <= 0x10_0000,
            0 <= rows <= 0x10_0000,
            0 < t_width <= 0x10_0000,
            0 < t_height <= 0x10_0000,
            target == spec_uvs(i_width as int, i_height as int, t_width as int, t_height as int),
            target.len() == rows * cols,
            cols == i_width as int / t_width as int,
            rows == i_height as int / t_height as int,
            ux == 0,
            uy == row * t_height,
            uvs@.len() == row * cols,
            forall|k: int| 0 <= k < uvs@.len() ==> uvs@[k] == target[k],
        decreases rows - row,
    {
        let mut col: i64 = 0;
        while col < cols
            invariant
                0 <= col <= cols,
                0 <= row < rows,
                0 <= cols <= 0x10_0000,
                0 <= rows <= 0x10_0000,
                0 < t_width <= 0x10_0000,
                0 < t_height <= 0x10_0000,
                target == spec_uvs(
                    i_width as int,
                    i_height as int,
                    t_width as int,
                    t_height as int,
                ),
                target.len() == rows * cols,
                cols == i_width as int / t_width as int,
                rows == i_height as int / t_height as int,
                ux == col * t_width,
                uy == row * t_height,
                uvs@.len() == row * cols + col,
                forall|k: int| 0 <= k < uvs@.len() ==> uvs@[k] == target[k],
            decreases cols - col,
        {
            proof {
                let ri = row as int;
                let ci = col as int;
                let cs = cols as int;
                let rs = rows as int;
                let k = ri * cs + ci;
                assert(0 <= ri * cs <= 0x100_0000_0000) by (nonlinear_arith)
                    requires
                        0 <= ri <= 0x10_0000,
                        0 <= cs <= 0x10_0000,
                ;
                assert(k < rs * cs) by (nonlinear_arith)
                    requires
                        0 <= ri,
                        ri < rs,
                        0 <= ci,
                        ci < cs,
                        k == ri * cs + ci,
                ;
                assert(k == ri * cs + ci);
                vstd::arithmetic::div_mod::lemma_fundamental_div_mod_converse_div(k, cs, ri, ci);
                vstd::arithmetic::div_mod::lemma_fundamental_div_mod_converse_mod(k, cs, ri, ci);
                let tw = t_width as int;
                let th = t_height as int;
                assert(0 <= ci * tw <= 0x100_0000_0000) by (nonlinear_arith)
                    requires
                        0 <= ci <= 0x10_0000,
                        0 < tw <= 0x10_0000,
                ;
                assert((ci + 1) * tw == ci * tw + tw) by (nonlinear_arith);
                assert(target[k] == Rect { x: ux, y: uy, w: t_width, h: t_height });
            }
            uvs.push(Rect { x: ux, y: uy, w: t_width, h: t_height });
            ux = ux + t_width;
            col = col + 1;
        }
        proof {
            let ri = row as int;
            let th = t_height as int;
            assert(0 <= ri * th <= 0x100_0000_0000) by (nonlinear_arith)
                requires
                    0 <= ri <= 0x10_0000,
                    0 < th <= 0x10_0000,
            ;
            assert((ri + 1) * th == ri * th + th) by (nonlinear_arith);
            assert((ri + 1) * (cols as int) == ri * (cols as int) + (cols as int))
                by (nonlinear_arith);
        }
        ux = 0;
        uy = uy + t_height;
        row = row + 1;
    }
    proof {
        assert(uvs@ =~= target);
    }
    uvs
}

} // verus!
