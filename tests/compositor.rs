use aliexpaint::compositor::{Brush, Compositor};
use aliexpaint::geometry::Point;
use aliexpaint::history::History;
use aliexpaint::line::Color;

fn pixel(buf: &[u8], w: usize, x: usize, y: usize) -> [u8; 4] {
    let o = (y * w + x) * 4;
    [buf[o], buf[o + 1], buf[o + 2], buf[o + 3]]
}

fn stroke(h: &mut History, c: Color, pts: &[(u32, u32)]) {
    h.begin_stroke(c);
    for &(x, y) in pts {
        h.extend_active(Point::new(x, y));
    }
}

#[test]
fn new_surfaces_are_zeroed() {
    let c = Compositor::new(4, 3, 1, Brush::Exact);
    assert_eq!(c.back().len(), 48);
    assert_eq!(c.front().len(), 48);
    assert!(c.back().iter().all(|&b| b == 0));
}

#[test]
fn empty_history_renders_background_and_strip() {
    let mut c = Compositor::new(4, 3, 1, Brush::Exact);
    c.render(&History::new());
    for y in 0..3 {
        for x in 0..4 {
            let want = if y == 1 { [0, 0, 0, 0] } else { [255, 255, 255, 255] };
            assert_eq!(pixel(c.back(), 4, x, y), want);
        }
    }
}

#[test]
fn stroke_pixels_are_written_alpha_blue_green_red() {
    let mut h = History::new();
    stroke(&mut h, Color::rgba(10, 20, 30, 40), &[(0, 3), (2, 3)]);
    let mut c = Compositor::new(5, 5, 0, Brush::Exact);
    c.render(&h);
    for x in 0..3 {
        assert_eq!(pixel(c.back(), 5, x, 3), [40, 30, 20, 10]);
    }
    assert_eq!(pixel(c.back(), 5, 3, 3), [255, 255, 255, 255]);
    assert_eq!(pixel(c.back(), 5, 1, 2), [255, 255, 255, 255]);
}

#[test]
fn single_point_stroke_paints_nothing() {
    let mut h = History::new();
    stroke(&mut h, Color::rgba(1, 2, 3, 4), &[(2, 2)]);
    let mut c = Compositor::new(5, 5, 0, Brush::Plus);
    c.render(&h);
    assert_eq!(pixel(c.back(), 5, 2, 2), [255, 255, 255, 255]);
}

#[test]
fn plus_brush_paints_side_neighbours() {
    let mut h = History::new();
    stroke(&mut h, Color::rgba(1, 2, 3, 4), &[(2, 2), (2, 2)]);
    let mut c = Compositor::new(5, 5, 0, Brush::Plus);
    c.render(&h);
    let painted = [4, 3, 2, 1];
    for &(x, y) in &[(2, 2), (1, 2), (3, 2), (2, 1), (2, 3)] {
        assert_eq!(pixel(c.back(), 5, x, y), painted);
    }
    assert_eq!(pixel(c.back(), 5, 1, 1), [255, 255, 255, 255]);
}

#[test]
fn plus_brush_at_the_corner_stays_inside() {
    let mut h = History::new();
    stroke(&mut h, Color::rgba(9, 9, 9, 9), &[(0, 0), (0, 0), (3, 2), (3, 2)]);
    let mut c = Compositor::new(4, 3, 5, Brush::Plus);
    c.render(&h);
    assert_eq!(pixel(c.back(), 4, 0, 0), [9, 9, 9, 9]);
    assert_eq!(pixel(c.back(), 4, 3, 2), [9, 9, 9, 9]);
    assert_eq!(c.back().len(), 48);
}

#[test]
fn later_strokes_paint_over_earlier_ones() {
    let mut h = History::new();
    stroke(&mut h, Color::rgba(255, 0, 0, 255), &[(0, 2), (4, 2)]);
    stroke(&mut h, Color::rgba(0, 255, 0, 255), &[(2, 0), (2, 4)]);
    let mut c = Compositor::new(5, 5, 9, Brush::Exact);
    c.render(&h);
    assert_eq!(pixel(c.back(), 5, 2, 2), [255, 0, 255, 0]);
    assert_eq!(pixel(c.back(), 5, 0, 2), [255, 0, 0, 255]);
}

#[test]
fn rerendering_gives_identical_bytes() {
    let mut h = History::new();
    stroke(&mut h, Color::rgba(255, 0, 0, 255), &[(0, 0), (7, 5), (1, 6)]);
    let mut c = Compositor::new(8, 8, 3, Brush::Plus);
    c.render(&h);
    let first = c.back().clone();
    c.swap();
    assert_eq!(*c.front(), first);
    c.render(&h);
    assert_eq!(*c.back(), first);
    assert_eq!(c.back(), c.front());
}

#[test]
fn swap_exchanges_surfaces() {
    let mut c = Compositor::new(2, 2, 0, Brush::Exact);
    c.render(&History::new());
    let drawn = c.back().clone();
    c.swap();
    assert_eq!(*c.front(), drawn);
    assert!(c.back().iter().all(|&b| b == 0));
}
