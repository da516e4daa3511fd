//! Strokes: an ordered run of pointer samples drawn in one color.
use vstd::prelude::*;

use crate::geometry::Point;

verus! {

/// An RGBA color, one byte per channel.
#[derive(Clone, Copy, Debug, PartialEq, Eq, Structural, Hash)]
pub struct Color {
    pub r: u8,
    pub g: u8,
    pub b: u8,
    pub a: u8,
}

impl Color {
    pub fn rgba(r: u8, g: u8, b: u8, a: u8) -> (c: Color)
        ensures
            c == (Color { r, g, b, a }),
    {
        Color { r, g, b, a }
    }
}

/// The mathematical content of a stroke.
pub struct LineView {
    pub points: Seq<Point>,
    pub color: Color,
}

/// One continuous gesture: the points in the order they were sampled.
#[derive(Debug)]
pub struct Line {
    pub points: Vec<Point>,
    pub color: Color,
}

impl View for Line {
    type V = LineView;

    open spec fn view(&self) -> LineView {
        LineView { points: self.points@, color: self.color }
    }
}

impl Line {
    /// A stroke with no points yet.
    pub fn new(color: Color) -> (l: Line)
        ensures
            l@ == (LineView { points: Seq::<Point>::empty(), color }),
    {
        Line { points: Vec::new(), color }
    }

    /// Appends one sample at the end of the stroke.
    pub fn append_point(&mut self, p: Point)
        ensures
            final(self)@ == (LineView { points: old(self)@.points.push(p), color: old(self)@.color }),
    {
        self.points.push(p);
    }
}

} // verus!
