//! Double-buffered frame composition: the back surface is repainted from the
//! whole history each frame, then the two surfaces trade roles.
use vstd::prelude::*;

use crate::geometry::Point;
use crate::history::History;
use crate::line::{Color, Line, LineView};
use crate::raster::{rasterize, segment_pixels};

verus! {

/// How each rasterized pixel is written: alone, or with its four side
/// neighbours as well.
#[derive(Clone, Copy, Debug, PartialEq, Eq, Structural)]
pub enum Brush {
    Exact,
    Plus,
}

/// Byte value of the cleared background.
pub const BACKGROUND_BYTE: u8 = 255;

/// Byte value of the reserved strip row.
pub const STRIP_BYTE: u8 = 0;

/// Writes `c` at pixel `(x, y)` as the bytes alpha, blue, green, red; a
/// pixel outside the `w` by `h` surface is left alone.
pub open spec fn paint_pixel(buf: Seq<u8>, w: int, h: int, x: int, y: int, c: Color) -> Seq<u8> {
    if 0 <= x < w && 0 <= y < h {
        let o = (y * w + x) * 4;
        buf.update(o, c.a).update(o + 1, c.b).update(o + 2, c.g).update(o + 3, c.r)
    } else {
        buf
    }
}

/// Writes one rasterized pixel with the given brush.
pub open spec fn paint_dot(buf: Seq<u8>, w: int, h: int, p: Point, c: Color, brush: Brush) -> Seq<u8> {
    let x = p.x as int;
    let y = p.y as int;
    match brush {
        Brush::Exact => paint_pixel(buf, w, h, x, y, c),
        Brush::Plus => paint_pixel(
            paint_pixel(
                paint_pixel(
                    paint_pixel(paint_pixel(buf, w, h, x - 1, y, c), w, h, x, y, c),
                    w,
                    h,
                    x + 1,
                    y,
                    c,
                ),
                w,
                h,
                x,
                y - 1,
                c,
            ),
            w,
            h,
            x,
            y + 1,
            c,
        ),
    }
}

/// Writes the first `n` pixels of `pts`, in order.
pub open spec fn paint_points(
    buf: Seq<u8>,
    w: int,
    h: int,
    pts: Seq<Point>,
    c: Color,
    brush: Brush,
    n: nat,
) -> Seq<u8>
    decreases n,
{
    if n == 0 {
        buf
    } else {
        paint_dot(paint_points(buf, w, h, pts, c, brush, (n - 1) as nat), w, h, pts[n - 1], c, brush)
    }
}

/// Paints the first `n` segments of a stroke, segment `k` joining
/// `pts[k]` to `pts[k + 1]`.
pub open spec fn paint_segments(
    buf: Seq<u8>,
    w: int,
    h: int,
    pts: Seq<Point>,
    c: Color,
    brush: Brush,
    n: nat,
) -> Seq<u8>
    decreases n,
{
    if n == 0 {
        buf
    } else {
        let seg = segment_pixels(pts[n - 1], pts[n as int]);
        paint_points(
            paint_segments(buf, w, h, pts, c, brush, (n - 1) as nat),
            w,
            h,
            seg,
            c,
            brush,
            seg.len(),
        )
    }
}

/// Paints a whole stroke; one with fewer than two points paints nothing.
pub open spec fn paint_line(buf: Seq<u8>, w: int, h: int, l: LineView, brush: Brush) -> Seq<u8> {
    if l.points.len() < 2 {
        buf
    } else {
        paint_segments(buf, w, h, l.points, l.color, brush, (l.points.len() - 1) as nat)
    }
}

/// Paints the first `n` strokes, later ones over earlier ones.
pub open spec fn paint_lines(
    buf: Seq<u8>,
    w: int,
    h: int,
    ls: Seq<LineView>,
    brush: Brush,
    n: nat,
) -> Seq<u8>
    decreases n,
{
    if n == 0 {
        buf
    } else {
        paint_line(paint_lines(buf, w, h, ls, brush, (n - 1) as nat), w, h, ls[n - 1], brush)
    }
}

/// The byte at index `i` of a cleared surface of width `w`: the strip row
/// holds `STRIP_BYTE`, every other row `BACKGROUND_BYTE`.
pub open spec fn background_byte(w: int, strip: int, i: int) -> u8 {
    if i / (4 * w) == strip { STRIP_BYTE } else { BACKGROUND_BYTE }
}

/// A cleared `w` by `h` surface.
pub open spec fn background(w: int, h: int, strip: int) -> Seq<u8> {
    Seq::new((w * h * 4) as nat, |i: int| background_byte(w, strip, i))
}

/// The frame drawn for the given committed strokes.
pub open spec fn frame(w: int, h: int, strip: int, brush: Brush, ls: Seq<LineView>) -> Seq<u8> {
    paint_lines(background(w, h, strip), w, h, ls, brush, ls.len())
}

/// Two pixel surfaces of `width` by `height` pixels, four bytes each: `back`
/// is the one being drawn, `front` the one last presented.
#[derive(Debug)]
pub struct Compositor {
    pub width: usize,
    pub height: usize,
    pub strip_row: usize,
    pub brush: Brush,
    pub back: Vec<u8>,
    pub front: Vec<u8>,
}

impl Compositor {
    pub open spec fn wf(&self) -> bool {
        &&& self.width * self.height * 4 <= usize::MAX
        &&& self.back@.len() == self.width * self.height * 4
        &&& self.front@.len() == self.width * self.height * 4
    }

    /// Same size, strip row and brush.
    pub open spec fn same_setup(&self, other: &Compositor) -> bool {
        &&& self.width == other.width
        &&& self.height == other.height
        &&& self.strip_row == other.strip_row
        &&& self.brush == other.brush
    }

    /// The frame that this compositor draws for the given strokes.
    pub open spec fn frame_of(&self, ls: Seq<LineView>) -> Seq<u8> {
        frame(self.width as int, self.height as int, self.strip_row as int, self.brush, ls)
    }
}

proof fn lemma_offset_in_range(w: int, h: int, x: int, y: int)
    requires
        0 <= x < w,
        0 <= y < h,
    ensures
        0 <= (y * w + x) * 4,
        (y * w + x) * 4 + 3 < w * h * 4,
{
    assert(y * w + x < w * h) by (nonlinear_arith)
        requires
            0 <= x < w,
            0 <= y < h,
    ;
    assert(0 <= y * w) by (nonlinear_arith)
        requires
            0 <= y,
            0 <= w,
    ;
}

fn put_pixel(buf: &mut Vec<u8>, w: usize, h: usize, x: i64, y: i64, c: Color)
    requires
        w * h * 4 <= usize::MAX,
        old(buf)@.len() == w * h * 4,
    ensures
        final(buf)@ == paint_pixel(old(buf)@, w as int, h as int, x as int, y as int, c),
        final(buf)@.len() == old(buf)@.len(),
{
    if 0 <= x && 0 <= y && (x as u64) < (w as u64) && (y as u64) < (h as u64) {
        let xu = x as usize;
        let yu = y as usize;
        proof {
            lemma_offset_in_range(w as int, h as int, x as int, y as int);
        }
        let o = (yu * w + xu) * 4;
        buf.set(o, c.a);
        buf.set(o + 1, c.b);
        buf.set(o + 2, c.g);
        buf.set(o + 3, c.r);
    }
}

fn put_dot(buf: &mut Vec<u8>, w: usize, h: usize, p: Point, c: Color, brush: Brush)
    requires
        w * h * 4 <= usize::MAX,
        old(buf)@.len() == w * h * 4,
    ensures
        final(buf)@ == paint_dot(old(buf)@, w as int, h as int, p, c, brush),
        final(buf)@.len() == w * h * 4,
{
    let x = p.x as i64;
    let y = p.y as i64;
    match brush {
        Brush::Exact => put_pixel(buf, w, h, x, y, c),
        Brush::Plus => {
            put_pixel(buf, w, h, x - 1, y, c);
            put_pixel(buf, w, h, x, y, c);
            put_pixel(buf, w, h, x + 1, y, c);
            put_pixel(buf, w, h, x, y - 1, c);
            put_pixel(buf, w, h, x, y + 1, c);
        },
    }
}

fn put_points(buf: &mut Vec<u8>, w: usize, h: usize, pts: &Vec<Point>, c: Color, brush: Brush)
    requires
        w * h * 4 <= usize::MAX,
        old(buf)@.len() == w * h * 4,
    ensures
        final(buf)@ == paint_points(old(buf)@, w as int, h as int, pts@, c, brush, pts@.len()),
        final(buf)@.len() == w * h * 4,
{
    let mut k: usize = 0;
    while k < pts.len()
        invariant
            w * h * 4 <= usize::MAX,
            0 <= k <= pts@.len(),
            buf@.len() == w * h * 4,
            buf@ == paint_points(old(buf)@, w as int, h as int, pts@, c, brush, k as nat),
        decreases pts@.len() - k,
    {
        put_dot(buf, w, h, pts[k], c, brush);
        k = k + 1;
    }
}

fn put_line(buf: &mut Vec<u8>, w: usize, h: usize, l: &Line, brush: Brush)
    requires
        w * h * 4 <= usize::MAX,
        old(buf)@.len() == w * h * 4,
    ensures
        final(buf)@ == paint_line(old(buf)@, w as int, h as int, l@, brush),
        final(buf)@.len() == w * h * 4,
{
    let n = l.points.len();
    if n < 2 {
        return;
    }
    let mut k: usize = 1;
    while k < n
        invariant
            w * h * 4 <= usize::MAX,
            n == l.points@.len(),
            1 <= k <= n,
            buf@.len() == w * h * 4,
            buf@ == paint_segments(old(buf)@, w as int, h as int, l.points@, l.color, brush, (k - 1) as nat),
        decreases n - k,
    {
        let seg = rasterize(l.points[k - 1], l.points[k]);
        put_points(buf, w, h, &seg, l.color, brush);
        k = k + 1;
    }
}

impl Compositor {
    /// Two surfaces of `width` by `height` pixels, all bytes zero.
    pub fn new(width: usize, height: usize, strip_row: usize, brush: Brush) -> (c: Compositor)
        requires
            width * height * 4 <= usize::MAX,
        ensures
            c.wf(),
            c.width == width,
            c.height == height,
            c.strip_row == strip_row,
            c.brush == brush,
            c.back@ == Seq::new((width * height * 4) as nat, |i: int| 0u8),
            c.front@ == Seq::new((width * height * 4) as nat, |i: int| 0u8),
    {
        let len = width * height * 4;
        let mut back: Vec<u8> = Vec::new();
        let mut front: Vec<u8> = Vec::new();
        let mut k: usize = 0;
        while k < len
            invariant
                0 <= k <= len,
                back@.len() == k,
                front@.len() == k,
                forall|i: int| 0 <= i < k ==> back@[i] == 0u8 && front@[i] == 0u8,
            decreases len - k,
        {
            back.push(0u8);
            front.push(0u8);
            k = k + 1;
        }
        assert(back@ =~= Seq::new(len as nat, |i: int| 0u8));
        assert(front@ =~= Seq::new(len as nat, |i: int| 0u8));
        Compositor { width, height, strip_row, brush, back, front }
    }

    /// Clears the back surface to the background, with the strip row marked.
    pub fn clear(&mut self)
        requires
            old(self).wf(),
        ensures
            final(self).wf(),
            final(self).same_setup(old(self)),
            final(self).front == old(self).front,
            final(self).back@ == background(
                old(self).width as int,
                old(self).height as int,
                old(self).strip_row as int,
            ),
    {
        let len = self.back.len();
        if len == 0 {
            assert(self.back@ =~= background(self.width as int, self.height as int, self.strip_row as int));
            return;
        }
        assert(4 * self.width <= self.width * self.height * 4) by (nonlinear_arith)
            requires
                self.width * self.height * 4 > 0,
        ;
        let row_bytes = 4 * self.width;
        let mut k: usize = 0;
        while k < len
            invariant
                self.wf(),
                len == self.back@.len(),
                row_bytes == 4 * self.width,
                row_bytes > 0,
                self.same_setup(old(self)),
                self.front == old(self).front,
                0 <= k <= len,
                forall|i: int|
                    0 <= i < k ==> self.back@[i] == background_byte(
                        self.width as int,
                        self.strip_row as int,
                        i,
                    ),
            decreases len - k,
        {
            let v = if k / row_bytes == self.strip_row { STRIP_BYTE } else { BACKGROUND_BYTE };
            self.back.set(k, v);
            k = k + 1;
        }
        assert(self.back@ =~= background(self.width as int, self.height as int, self.strip_row as int));
    }

    /// Repaints the back surface from the committed strokes of `history`,
    /// oldest first; the front surface is untouched.
    pub fn render(&mut self, history: &History)
        requires
            old(self).wf(),
        ensures
            final(self).wf(),
            final(self).same_setup(old(self)),
            final(self).front == old(self).front,
            final(self).back@ == old(self).frame_of(history@.committed),
    {
        self.clear();
        let lines = history.iterate_for_render();
        let w = self.width;
        let h = self.height;
        let brush = self.brush;
        let ghost bg = self.back@;
        let mut k: usize = 0;
        while k < lines.len()
            invariant
                self.wf(),
                self.same_setup(old(self)),
                self.front == old(self).front,
                w == self.width,
                h == self.height,
                brush == self.brush,
                bg == background(w as int, h as int, self.strip_row as int),
                crate::history::lines_view(lines@) == history@.committed,
                0 <= k <= lines@.len(),
                self.back@ == paint_lines(bg, w as int, h as int, history@.committed, brush, k as nat),
            decreases lines@.len() - k,
        {
            assert(history@.committed[k as int] == lines@[k as int]@);
            put_line(&mut self.back, w, h, &lines[k], brush);
            k = k + 1;
        }
    }

    /// Exchanges the roles of the two surfaces; no pixel is copied.
    pub fn swap(&mut self)
        requires
            old(self).wf(),
        ensures
            final(self).wf(),
            final(self).same_setup(old(self)),
            final(self).back == old(self).front,
            final(self).front == old(self).back,
    {
        std::mem::swap(&mut self.back, &mut self.front);
    }

    /// The surface to present.
    pub fn front(&self) -> (r: &Vec<u8>)
        ensures
            r@ == self.front@,
    {
        &self.front
    }

    /// The surface being drawn.
    pub fn back(&self) -> (r: &Vec<u8>)
        ensures
            r@ == self.back@,
    {
        &self.back
    }
}

/// Rendering a history, swapping the surfaces and rendering the same
/// history again leaves the two surfaces byte for byte equal, whatever they
/// held before: each render depends on the strokes alone.
pub proof fn lemma_rerender_identical(
    c0: Compositor,
    c1: Compositor,
    c2: Compositor,
    c3: Compositor,
    strokes: Seq<LineView>,
)
    requires
        c1.same_setup(&c0),
        c1.back@ == c0.frame_of(strokes),
        c2.same_setup(&c1),
        c2.back == c1.front,
        c2.front == c1.back,
        c3.same_setup(&c2),
        c3.front == c2.front,
        c3.back@ == c2.frame_of(strokes),
    ensures
        c3.back@ == c3.front@,
        c3.back@ == c0.frame_of(strokes),
{
}

} // verus!
