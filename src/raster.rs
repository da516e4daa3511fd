//! Integer line rasterization: the incremental midpoint walk between two
//! pixels, in all eight octants.
use vstd::prelude::*;

use crate::geometry::Point;

verus! {

pub open spec fn abs_diff(p: int, q: int) -> int {
    if p <= q { q - p } else { p - q }
}

/// Horizontal extent of the segment from `a` to `b`.
pub open spec fn span_x(a: Point, b: Point) -> int {
    abs_diff(a.x as int, b.x as int)
}

/// Vertical extent of the segment from `a` to `b`.
pub open spec fn span_y(a: Point, b: Point) -> int {
    abs_diff(a.y as int, b.y as int)
}

/// Direction of a horizontal step.
pub open spec fn dir_x(a: Point, b: Point) -> int {
    if a.x < b.x { 1 } else { -1 }
}

/// Direction of a vertical step.
pub open spec fn dir_y(a: Point, b: Point) -> int {
    if a.y < b.y { 1 } else { -1 }
}

/// One step of the walk from `(x, y)` with error term `e`: a horizontal move
/// when `2e > -dy`, a vertical one when `2e < dx`, both when both hold.
pub open spec fn walk_step(a: Point, b: Point, x: int, y: int, e: int) -> (int, int, int) {
    let dx = span_x(a, b);
    let dy = span_y(a, b);
    let e2 = 2 * e;
    let (e1, x1) = if e2 > -dy { (e - dy, x + dir_x(a, b)) } else { (e, x) };
    if e2 < dx { (x1, y + dir_y(a, b), e1 + dx) } else { (x1, y, e1) }
}

/// The pixels visited from `(x, y)` on, stopping at `b` (or when `fuel` runs out).
pub open spec fn walk(a: Point, b: Point, x: int, y: int, e: int, fuel: nat) -> Seq<Point>
    decreases fuel,
{
    let p = Point { x: x as u32, y: y as u32 };
    if fuel == 0 || (x == b.x && y == b.y) {
        seq![p]
    } else {
        let (nx, ny, ne) = walk_step(a, b, x, y, e);
        seq![p] + walk(a, b, nx, ny, ne, (fuel - 1) as nat)
    }
}

/// The pixels of the segment from `a` to `b`, in the order the walk emits them.
pub open spec fn segment_pixels(a: Point, b: Point) -> Seq<Point> {
    walk(a, b, a.x as int, a.y as int, span_x(a, b) - span_y(a, b), (span_x(a, b) + span_y(a, b)) as nat)
}

/// Two pixels that touch, sides or corners (or coincide).
pub open spec fn adjacent(p: Point, q: Point) -> bool {
    abs_diff(p.x as int, q.x as int) <= 1 && abs_diff(p.y as int, q.y as int) <= 1
}

/// `p` lies in the bounding box of `a` and `b`.
pub open spec fn in_box(a: Point, b: Point, p: Point) -> bool {
    &&& (a.x <= p.x <= b.x || b.x <= p.x <= a.x)
    &&& (a.y <= p.y <= b.y || b.y <= p.y <= a.y)
}

proof fn lemma_step_bounds(dx: int, dy: int, i: int, j: int, err: int)
    requires
        0 <= i <= dx,
        0 <= j <= dy,
        i < dx || j < dy,
        err == (j + 1) * dx - (i + 1) * dy,
    ensures
        2 * err > -dy ==> i < dx,
        2 * err < dx ==> j < dy,
        2 * err > -dy || 2 * err < dx,
{
    if i == dx && j < dy {
        assert((j + 1) * dx <= dy * dx) by (nonlinear_arith)
            requires
                j + 1 <= dy,
                dx >= 0,
        ;
        assert(dy * dx == dx * dy) by (nonlinear_arith);
        assert((i + 1) * dy == dx * dy + dy) by (nonlinear_arith)
            requires
                i == dx,
        ;
    }
    if j == dy && i < dx {
        assert((i + 1) * dy <= dx * dy) by (nonlinear_arith)
            requires
                i + 1 <= dx,
                dy >= 0,
        ;
        assert((j + 1) * dx == dx * dy + dx) by (nonlinear_arith)
            requires
                j == dy,
        ;
    }
}

proof fn lemma_err_update(dx: int, dy: int, i: int, j: int)
    ensures
        (j + 1) * dx - (i + 2) * dy == (j + 1) * dx - (i + 1) * dy - dy,
        (j + 2) * dx - (i + 1) * dy == (j + 1) * dx - (i + 1) * dy + dx,
        (j + 2) * dx - (i + 2) * dy == (j + 1) * dx - (i + 1) * dy - dy + dx,
{
    assert((i + 2) * dy == (i + 1) * dy + dy) by (nonlinear_arith);
    assert((j + 2) * dx == (j + 1) * dx + dx) by (nonlinear_arith);
}

/// The pixels of the segment from `a` to `b`: the walk starts at `a`, ends
/// at `b`, moves to a touching pixel at each step and never leaves the
/// bounding box of the two ends.
pub fn rasterize(a: Point, b: Point) -> (r: Vec<Point>)
    ensures
        r@ == segment_pixels(a, b),
        r@.len() >= 1,
        r@[0] == a,
        r@.last() == b,
        forall|k: int| 0 <= k < r@.len() - 1 ==> #[trigger] adjacent(r@[k], r@[k + 1]),
        forall|k: int| 0 <= k < r@.len() ==> #[trigger] in_box(a, b, r@[k]),
{
    let ax = a.x as i64;
    let ay = a.y as i64;
    let bx = b.x as i64;
    let by = b.y as i64;
    let dx: i64 = if ax <= bx { bx - ax } else { ax - bx };
    let dy: i64 = if ay <= by { by - ay } else { ay - by };
    let sx: i64 = if ax < bx { 1 } else { -1 };
    let sy: i64 = if ay < by { 1 } else { -1 };
    let mut err: i64 = dx - dy;
    let mut x: i64 = ax;
    let mut y: i64 = ay;
    let mut r: Vec<Point> = Vec::new();
    r.push(a);
    let ghost fuel: int = dx + dy;
    let ghost mut i: int = 0;
    let ghost mut j: int = 0;
    let ghost mut n: int = 0;
    assert(r@.subrange(0, 0) + segment_pixels(a, b) =~= segment_pixels(a, b));
    while x != bx || y != by
        invariant
            dx == span_x(a, b),
            dy == span_y(a, b),
            sx == dir_x(a, b),
            sy == dir_y(a, b),
            ax == a.x,
            ay == a.y,
            bx == b.x,
            by == b.y,
            fuel == dx + dy,
            0 <= i <= dx,
            0 <= j <= dy,
            0 <= n <= i + j,
            x == ax + sx * i,
            y == ay + sy * j,
            err == (j + 1) * dx - (i + 1) * dy,
            -2 * dy <= err <= 2 * dx,
            r@.len() == n + 1,
            r@.last() == (Point { x: x as u32, y: y as u32 }),
            r@[0] == a,
            segment_pixels(a, b) == r@.subrange(0, n) + walk(
                a,
                b,
                x as int,
                y as int,
                err as int,
                (fuel - n) as nat,
            ),
            forall|k: int| 0 <= k < r@.len() - 1 ==> #[trigger] adjacent(r@[k], r@[k + 1]),
            forall|k: int| 0 <= k < r@.len() ==> #[trigger] in_box(a, b, r@[k]),
        decreases dx + dy - i - j,
    {
        assert(i < dx || j < dy);
        proof {
            lemma_step_bounds(dx as int, dy as int, i, j, err as int);
            lemma_err_update(dx as int, dy as int, i, j);
        }
        let ghost x0 = x;
        let ghost y0 = y;
        let ghost e0 = err;
        let ghost r0 = r@;
        let e2 = 2 * err;
        if e2 > -dy {
            err = err - dy;
            x = x + sx;
            proof {
                i = i + 1;
            }
        }
        if e2 < dx {
            err = err + dx;
            y = y + sy;
            proof {
                j = j + 1;
            }
        }
        assert(walk_step(a, b, x0 as int, y0 as int, e0 as int) == (x as int, y as int, err as int));
        assert(walk(a, b, x0 as int, y0 as int, e0 as int, (fuel - n) as nat) == seq![
            Point { x: x0 as u32, y: y0 as u32 },
        ] + walk(a, b, x as int, y as int, err as int, (fuel - n - 1) as nat));
        let p = Point { x: x as u32, y: y as u32 };
        r.push(p);
        proof {
            n = n + 1;
            assert(r@.subrange(0, n) =~= r0.subrange(0, n - 1) + seq![
                Point { x: x0 as u32, y: y0 as u32 },
            ]);
            assert(r@.subrange(0, n) + walk(a, b, x as int, y as int, err as int, (fuel - n) as nat)
                =~= r0.subrange(0, n - 1) + (seq![Point { x: x0 as u32, y: y0 as u32 }] + walk(
                a,
                b,
                x as int,
                y as int,
                err as int,
                (fuel - n) as nat,
            )));
            assert(adjacent(r@[n - 1], r@[n]));
            assert(in_box(a, b, r@[n]));
            assert forall|k: int| 0 <= k < r@.len() - 1 implies #[trigger] adjacent(r@[k], r@[k + 1]) by {
                if k < n - 1 {
                    assert(r@[k] == r0[k] && r@[k + 1] == r0[k + 1]);
                }
            }
            assert forall|k: int| 0 <= k < r@.len() implies #[trigger] in_box(a, b, r@[k]) by {
                if k < n {
                    assert(r@[k] == r0[k]);
                }
            }
        }
    }
    proof {
        assert(walk(a, b, x as int, y as int, err as int, (fuel - n) as nat) == seq![
            Point { x: x as u32, y: y as u32 },
        ]);
        assert(r@ =~= r@.subrange(0, n) + seq![Point { x: x as u32, y: y as u32 }]);
        assert(r@.last() == b);
    }
    r
}

} // verus!
