use aliexpaint::geometry::Point;
use aliexpaint::raster::rasterize;

fn pts(v: &[(u32, u32)]) -> Vec<Point> {
    v.iter().map(|&(x, y)| Point::new(x, y)).collect()
}

fn check_walk(a: Point, b: Point) {
    let r = rasterize(a, b);
    assert_eq!(r[0], a);
    assert_eq!(*r.last().unwrap(), b);
    for w in r.windows(2) {
        assert!((w[0].x as i64 - w[1].x as i64).abs() <= 1);
        assert!((w[0].y as i64 - w[1].y as i64).abs() <= 1);
    }
}

#[test]
fn horizontal_segment() {
    let r = rasterize(Point::new(0, 0), Point::new(3, 0));
    assert_eq!(r, pts(&[(0, 0), (1, 0), (2, 0), (3, 0)]));
}

#[test]
fn diagonal_segment() {
    let r = rasterize(Point::new(0, 0), Point::new(3, 3));
    assert_eq!(r, pts(&[(0, 0), (1, 1), (2, 2), (3, 3)]));
}

#[test]
fn single_pixel_segment() {
    let r = rasterize(Point::new(7, 9), Point::new(7, 9));
    assert_eq!(r, pts(&[(7, 9)]));
}

#[test]
fn vertical_segment_upwards() {
    let r = rasterize(Point::new(2, 5), Point::new(2, 2));
    assert_eq!(r, pts(&[(2, 5), (2, 4), (2, 3), (2, 2)]));
}

#[test]
fn shallow_segment_exact_pixels() {
    let r = rasterize(Point::new(0, 0), Point::new(4, 2));
    assert_eq!(r, pts(&[(0, 0), (1, 0), (2, 1), (3, 1), (4, 2)]));
}

#[test]
fn walks_are_connected_in_all_octants() {
    let c = Point::new(100, 100);
    let ends = [
        (110, 103), (103, 110), (90, 103), (97, 110),
        (110, 97), (103, 90), (90, 97), (97, 90), (100, 100), (0, 479), (639, 0),
    ];
    for &(x, y) in ends.iter() {
        check_walk(c, Point::new(x, y));
        check_walk(Point::new(x, y), c);
    }
}

#[test]
fn largest_coordinates() {
    let a = Point::new(u32::MAX, u32::MAX);
    let b = Point::new(u32::MAX - 3, u32::MAX);
    let r = rasterize(a, b);
    assert_eq!(r.len(), 4);
    check_walk(a, b);
}
