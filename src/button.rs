//! A square on-screen control that tracks hovering and issues a history
//! command when clicked.
use vstd::prelude::*;

use crate::geometry::Point;
use crate::history::{apply_spec, Command, History};

verus! {

#[derive(Clone, Copy, Debug, PartialEq, Eq, Structural)]
pub struct Button {
    pub origin: Point,
    pub size: u32,
    pub hovering: bool,
    pub on_click: Command,
}

impl Button {
    /// `p` lies in the square, edges included.
    pub open spec fn covers(&self, p: Point) -> bool {
        &&& self.origin.x <= p.x <= self.origin.x + self.size
        &&& self.origin.y <= p.y <= self.origin.y + self.size
    }

    /// A button that is not hovered.
    pub fn new(origin: Point, size: u32, on_click: Command) -> (b: Button)
        ensures
            b == (Button { origin, size, hovering: false, on_click }),
    {
        Button { origin, size, hovering: false, on_click }
    }

    pub fn contains(&self, point: Point) -> (r: bool)
        ensures
            r == self.covers(point),
    {
        point.x >= self.origin.x && (point.x as u64) <= (self.origin.x as u64) + (self.size as u64)
            && point.y >= self.origin.y && (point.y as u64) <= (self.origin.y as u64) + (
        self.size as u64)
    }

    /// Records whether the pointer at `point` is over the button.
    pub fn hover(&mut self, point: Point)
        ensures
            *final(self) == (Button { hovering: old(self).covers(point), ..*old(self) }),
    {
        if self.contains(point) {
            self.hovering = true;
        } else {
            self.hovering = false;
        }
    }

    /// Carries out the button's command on `history`.
    pub fn click(&self, history: &mut History)
        ensures
            final(history)@ == apply_spec(old(history)@, self.on_click),
    {
        history.apply(self.on_click);
    }
}

} // verus!
