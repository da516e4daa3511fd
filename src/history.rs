//! Undo/redo history: a stack of committed strokes and a stack of undone ones.
use vstd::prelude::*;

use crate::geometry::Point;
use crate::line::{Color, Line, LineView};

verus! {

/// The views of a sequence of strokes.
pub open spec fn lines_view(v: Seq<Line>) -> Seq<LineView> {
    v.map_values(|l: Line| l@)
}

/// The mathematical content of a history.
pub struct HistoryView {
    pub committed: Seq<LineView>,
    pub undone: Seq<LineView>,
}

/// A named operation on the history, as issued by the input side.
#[derive(Clone, Copy, Debug, PartialEq, Eq, Structural)]
pub enum Command {
    Reset,
    Undo,
    Redo,
}

/// Committed strokes in paint order (last painted on top) and the strokes
/// that undo took off, most recent last.
#[derive(Debug)]
pub struct History {
    pub committed: Vec<Line>,
    pub undone: Vec<Line>,
}

impl View for History {
    type V = HistoryView;

    open spec fn view(&self) -> HistoryView {
        HistoryView { committed: lines_view(self.committed@), undone: lines_view(self.undone@) }
    }
}

/// What `undo` makes of a history.
pub open spec fn undo_spec(h: HistoryView) -> HistoryView {
    if h.committed.len() > 0 {
        HistoryView {
            committed: h.committed.drop_last(),
            undone: h.undone.push(h.committed.last()),
        }
    } else {
        h
    }
}

/// What `redo` makes of a history.
pub open spec fn redo_spec(h: HistoryView) -> HistoryView {
    if h.undone.len() > 0 {
        HistoryView {
            committed: h.committed.push(h.undone.last()),
            undone: h.undone.drop_last(),
        }
    } else {
        h
    }
}

/// The empty history.
pub open spec fn empty_history() -> HistoryView {
    HistoryView { committed: Seq::empty(), undone: Seq::empty() }
}

/// What a command makes of a history.
pub open spec fn apply_spec(h: HistoryView, c: Command) -> HistoryView {
    match c {
        Command::Reset => empty_history(),
        Command::Undo => undo_spec(h),
        Command::Redo => redo_spec(h),
    }
}

proof fn lemma_lines_view_push(v: Seq<Line>, l: Line)
    ensures
        lines_view(v.push(l)) == lines_view(v).push(l@),
{
    assert(lines_view(v.push(l)) =~= lines_view(v).push(l@));
}

proof fn lemma_lines_view_drop_last(v: Seq<Line>)
    requires
        v.len() > 0,
    ensures
        lines_view(v.drop_last()) == lines_view(v).drop_last(),
        lines_view(v).last() == v.last()@,
{
    assert(lines_view(v.drop_last()) =~= lines_view(v).drop_last());
}

impl History {
    /// A history with both stacks empty.
    pub fn new() -> (h: History)
        ensures
            h@ == empty_history(),
    {
        let h = History { committed: Vec::new(), undone: Vec::new() };
        assert(h@.committed =~= Seq::<LineView>::empty());
        assert(h@.undone =~= Seq::<LineView>::empty());
        h
    }

    /// Starts a new, empty stroke on top of the committed stack. Whatever was
    /// undone can no longer be redone.
    pub fn begin_stroke(&mut self, color: Color)
        ensures
            final(self)@.committed == old(self)@.committed.push(
                LineView { points: Seq::<Point>::empty(), color },
            ),
            final(self)@.undone == Seq::<LineView>::empty(),
    {
        self.undone.clear();
        let l = Line::new(color);
        proof {
            lemma_lines_view_push(self.committed@, l);
        }
        self.committed.push(l);
        assert(self@.undone =~= Seq::<LineView>::empty());
    }

    /// Appends a point to the most recent stroke; does nothing when no
    /// stroke has been committed.
    pub fn extend_active(&mut self, p: Point)
        ensures
            old(self)@.committed.len() > 0 ==> final(self)@.committed == old(self)@.committed.update(
                old(self)@.committed.len() - 1,
                LineView {
                    points: old(self)@.committed.last().points.push(p),
                    color: old(self)@.committed.last().color,
                },
            ),
            old(self)@.committed.len() == 0 ==> final(self)@.committed == old(self)@.committed,
            final(self)@.undone == old(self)@.undone,
    {
        let ghost v0 = self.committed@;
        match self.committed.pop() {
            Some(mut l) => {
                proof {
                    lemma_lines_view_drop_last(v0);
                }
                l.append_point(p);
                proof {
                    lemma_lines_view_push(self.committed@, l);
                }
                self.committed.push(l);
                assert(self@.committed =~= old(self)@.committed.update(
                    old(self)@.committed.len() - 1,
                    LineView {
                        points: old(self)@.committed.last().points.push(p),
                        color: old(self)@.committed.last().color,
                    },
                ));
            },
            None => {},
        }
    }

    /// Moves the top committed stroke onto the undone stack; reports whether
    /// there was one.
    pub fn undo(&mut self) -> (r: bool)
        ensures
            r == (old(self)@.committed.len() > 0),
            final(self)@ == undo_spec(old(self)@),
    {
        let ghost v0 = self.committed@;
        match self.committed.pop() {
            Some(l) => {
                proof {
                    lemma_lines_view_drop_last(v0);
                    lemma_lines_view_push(self.undone@, l);
                }
                self.undone.push(l);
                true
            },
            None => false,
        }
    }

    /// Moves the top undone stroke back onto the committed stack; reports
    /// whether there was one.
    pub fn redo(&mut self) -> (r: bool)
        ensures
            r == (old(self)@.undone.len() > 0),
            final(self)@ == redo_spec(old(self)@),
    {
        let ghost v0 = self.undone@;
        match self.undone.pop() {
            Some(l) => {
                proof {
                    lemma_lines_view_drop_last(v0);
                    lemma_lines_view_push(self.committed@, l);
                }
                self.committed.push(l);
                true
            },
            None => false,
        }
    }

    /// Empties both stacks.
    pub fn reset(&mut self)
        ensures
            final(self)@ == empty_history(),
    {
        self.committed.clear();
        self.undone.clear();
        assert(self@.committed =~= Seq::<LineView>::empty());
        assert(self@.undone =~= Seq::<LineView>::empty());
    }

    /// Carries out a command.
    pub fn apply(&mut self, c: Command)
        ensures
            final(self)@ == apply_spec(old(self)@, c),
    {
        match c {
            Command::Reset => self.reset(),
            Command::Undo => {
                self.undo();
            },
            Command::Redo => {
                self.redo();
            },
        }
    }

    /// The committed strokes, oldest first: the order in which they are painted.
    pub fn iterate_for_render(&self) -> (r: &Vec<Line>)
        ensures
            lines_view(r@) == self@.committed,
    {
        &self.committed
    }
}

} // verus!
