//! Turns pointer and keyboard events into history changes and button state.
use vstd::prelude::*;

use crate::button::Button;
use crate::geometry::Point;
use crate::history::{apply_spec, Command, History, HistoryView};
use crate::line::{Color, LineView};

verus! {

#[derive(Clone, Copy, Debug, PartialEq, Eq, Structural)]
pub enum MouseButton {
    Left,
    Right,
    Other,
}

#[derive(Clone, Copy, Debug, PartialEq, Eq, Structural)]
pub enum Key {
    Escape,
    Z,
    Y,
    Other,
}

/// A discrete input event, positions in window pixels.
#[derive(Clone, Copy, Debug, PartialEq, Eq, Structural)]
pub enum InputEvent {
    Quit,
    KeyDown { key: Key, ctrl: bool },
    MouseDown { x: i32, y: i32, button: MouseButton },
    MouseUp,
    MouseMotion { x: i32, y: i32 },
}

/// Whether the frame loop goes on.
#[derive(Clone, Copy, Debug, PartialEq, Eq, Structural)]
pub enum Flow {
    Continue,
    Quit,
}

/// The pointer position as a surface point.
pub open spec fn event_point(x: i32, y: i32) -> Point {
    Point { x: x as u32, y: y as u32 }
}

/// The command of the first hovered button at index `k` or after.
pub open spec fn hovered_from(bs: Seq<Button>, k: int) -> Option<Command>
    decreases bs.len() - k,
{
    if k < 0 || k >= bs.len() {
        None
    } else if bs[k].hovering {
        Some(bs[k].on_click)
    } else {
        hovered_from(bs, k + 1)
    }
}

/// A click lands on the first hovered button, if any.
pub open spec fn click_spec(h: HistoryView, bs: Seq<Button>) -> HistoryView {
    match hovered_from(bs, 0) {
        Some(c) => apply_spec(h, c),
        None => h,
    }
}

/// A new stroke of one point: redo is no longer possible.
pub open spec fn start_spec(h: HistoryView, c: Color, p: Point) -> HistoryView {
    HistoryView {
        committed: h.committed.push(LineView { points: seq![p], color: c }),
        undone: Seq::empty(),
    }
}

/// `p` appended to the most recent stroke, if there is one.
pub open spec fn extend_spec(h: HistoryView, p: Point) -> HistoryView {
    if h.committed.len() > 0 {
        HistoryView {
            committed: h.committed.update(
                h.committed.len() - 1,
                LineView {
                    points: h.committed.last().points.push(p),
                    color: h.committed.last().color,
                },
            ),
            undone: h.undone,
        }
    } else {
        h
    }
}

/// Every button with its hover state set for the pointer at `p`.
pub open spec fn hover_all(bs: Seq<Button>, p: Point) -> Seq<Button> {
    bs.map_values(|b: Button| Button { hovering: b.covers(p), ..b })
}

/// Whether an event ends the frame loop.
pub open spec fn flow_of(ev: InputEvent) -> Flow {
    match ev {
        InputEvent::Quit => Flow::Quit,
        InputEvent::KeyDown { key: Key::Escape, .. } => Flow::Quit,
        _ => Flow::Continue,
    }
}

/// Input state: the drawing area and whether a stroke is being drawn.
/// Points with `0 <= x < width` and `strip_row < y < height` can be drawn.
#[derive(Clone, Copy, Debug, PartialEq, Eq, Structural)]
pub struct InputRouter {
    pub width: u32,
    pub height: u32,
    pub strip_row: u32,
    pub drawing: bool,
    pub primary: Color,
    pub secondary: Color,
}

impl InputRouter {
    /// The pointer at `(x, y)` is in the drawable area.
    pub open spec fn in_area(&self, x: i32, y: i32) -> bool {
        0 <= x < self.width && self.strip_row < y < self.height
    }

    /// The color of a stroke that `b` starts, if it starts one.
    pub open spec fn color_of(&self, b: MouseButton) -> Option<Color> {
        match b {
            MouseButton::Left => Some(self.primary),
            MouseButton::Right => Some(self.secondary),
            MouseButton::Other => None,
        }
    }

    /// Whether a stroke is being drawn after `ev`.
    pub open spec fn drawing_after(&self, ev: InputEvent) -> bool {
        match ev {
            InputEvent::MouseDown { button, .. } => self.color_of(button) is Some || self.drawing,
            InputEvent::MouseUp => false,
            InputEvent::MouseMotion { x, y } => self.drawing && self.in_area(x, y),
            _ => self.drawing,
        }
    }

    /// The history after `ev`.
    pub open spec fn history_after(&self, bs: Seq<Button>, h: HistoryView, ev: InputEvent) -> HistoryView {
        match ev {
            InputEvent::KeyDown { key: Key::Z, ctrl: true } => apply_spec(h, Command::Undo),
            InputEvent::KeyDown { key: Key::Y, ctrl: true } => apply_spec(h, Command::Redo),
            InputEvent::MouseDown { x, y, button } => match self.color_of(button) {
                Some(c) => start_spec(click_spec(h, bs), c, event_point(x, y)),
                None => click_spec(h, bs),
            },
            InputEvent::MouseMotion { x, y } => if self.drawing && self.in_area(x, y) {
                extend_spec(h, event_point(x, y))
            } else {
                h
            },
            _ => h,
        }
    }

    /// The buttons after `ev`.
    pub open spec fn buttons_after(bs: Seq<Button>, ev: InputEvent) -> Seq<Button> {
        match ev {
            InputEvent::MouseMotion { x, y } => hover_all(bs, event_point(x, y)),
            _ => bs,
        }
    }

    /// Not drawing yet; the left button draws in `primary`, the right one in
    /// `secondary`.
    pub fn new(width: u32, height: u32, strip_row: u32, primary: Color, secondary: Color) -> (r: InputRouter)
        ensures
            r == (InputRouter { width, height, strip_row, drawing: false, primary, secondary }),
    {
        InputRouter { width, height, strip_row, drawing: false, primary, secondary }
    }

    fn in_area_exec(&self, x: i32, y: i32) -> (r: bool)
        ensures
            r == self.in_area(x, y),
    {
        0 <= x && (x as u64) < (self.width as u64) && (y as i64) > (self.strip_row as i64) && 0 <= y
            && (y as u64) < (self.height as u64)
    }

    fn click_hovered(buttons: &Vec<Button>, history: &mut History)
        ensures
            final(history)@ == click_spec(old(history)@, buttons@),
    {
        let mut k: usize = 0;
        while k < buttons.len()
            invariant
                0 <= k <= buttons@.len(),
                history@ == old(history)@,
                hovered_from(buttons@, 0) == hovered_from(buttons@, k as int),
            decreases buttons@.len() - k,
        {
            if buttons[k].hovering {
                buttons[k].click(history);
                return;
            }
            k = k + 1;
        }
    }

    fn hover_buttons(buttons: &mut Vec<Button>, p: Point)
        ensures
            final(buttons)@ == hover_all(old(buttons)@, p),
    {
        let mut k: usize = 0;
        while k < buttons.len()
            invariant
                0 <= k <= buttons@.len(),
                buttons@.len() == old(buttons)@.len(),
                forall|i: int| 0 <= i < k ==> buttons@[i] == hover_all(old(buttons)@, p)[i],
                forall|i: int| k <= i < buttons@.len() ==> buttons@[i] == old(buttons)@[i],
            decreases buttons@.len() - k,
        {
            let mut b = buttons[k];
            b.hover(p);
            buttons.set(k, b);
            k = k + 1;
        }
        assert(buttons@ =~= hover_all(old(buttons)@, p));
    }

    /// Handles one event: keys undo and redo, a press clicks the hovered
    /// button and starts a stroke, motion moves the hover state and extends
    /// the stroke while the pointer stays in the drawable area.
    pub fn handle(&mut self, ev: InputEvent, buttons: &mut Vec<Button>, history: &mut History) -> (r: Flow)
        ensures
            r == flow_of(ev),
            final(history)@ == old(self).history_after(old(buttons)@, old(history)@, ev),
            final(buttons)@ == InputRouter::buttons_after(old(buttons)@, ev),
            final(self).drawing == old(self).drawing_after(ev),
            *final(self) == (InputRouter { drawing: final(self).drawing, ..*old(self) }),
    {
        match ev {
            InputEvent::Quit => Flow::Quit,
            InputEvent::KeyDown { key, ctrl } => {
                match key {
                    Key::Escape => {
                        return Flow::Quit;
                    },
                    Key::Z => {
                        if ctrl {
                            history.apply(Command::Undo);
                        }
                    },
                    Key::Y => {
                        if ctrl {
                            history.apply(Command::Redo);
                        }
                    },
                    Key::Other => {},
                }
                Flow::Continue
            },
            InputEvent::MouseDown { x, y, button } => {
                InputRouter::click_hovered(buttons, history);
                let color = match button {
                    MouseButton::Left => Some(self.primary),
                    MouseButton::Right => Some(self.secondary),
                    MouseButton::Other => None,
                };
                match color {
                    Some(c) => {
                        self.drawing = true;
                        history.begin_stroke(c);
                        let p = Point::new(x as u32, y as u32);
                        history.extend_active(p);
                        assert(history@.committed =~= start_spec(
                            click_spec(old(history)@, old(buttons)@),
                            c,
                            p,
                        ).committed);
                        assert(history@.undone =~= Seq::<LineView>::empty());
                    },
                    None => {},
                }
                Flow::Continue
            },
            InputEvent::MouseUp => {
                self.drawing = false;
                Flow::Continue
            },
            InputEvent::MouseMotion { x, y } => {
                if !self.in_area_exec(x, y) {
                    self.drawing = false;
                }
                let p = Point::new(x as u32, y as u32);
                InputRouter::hover_buttons(buttons, p);
                if self.drawing {
                    history.extend_active(p);
                }
                Flow::Continue
            },
        }
    }
}

} // verus!
