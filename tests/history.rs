use aliexpaint::geometry::Point;
use aliexpaint::history::{Command, History};
use aliexpaint::line::{Color, Line};

fn red() -> Color {
    Color::rgba(255, 0, 0, 255)
}

fn green() -> Color {
    Color::rgba(0, 255, 0, 255)
}

#[test]
fn undo_and_redo_on_empty_are_noops() {
    let mut h = History::new();
    assert!(!h.undo());
    assert!(!h.redo());
    assert!(h.committed.is_empty());
    assert!(h.undone.is_empty());
}

#[test]
fn undo_moves_the_stroke() {
    let mut h = History::new();
    h.begin_stroke(red());
    h.extend_active(Point::new(1, 2));
    h.extend_active(Point::new(3, 4));
    assert!(h.undo());
    assert!(h.committed.is_empty());
    assert_eq!(h.undone.len(), 1);
    assert_eq!(h.undone[0].points, vec![Point::new(1, 2), Point::new(3, 4)]);
    assert_eq!(h.undone[0].color, red());
}

#[test]
fn new_stroke_discards_redo() {
    let mut h = History::new();
    h.begin_stroke(red());
    h.extend_active(Point::new(1, 2));
    h.extend_active(Point::new(3, 4));
    h.undo();
    h.begin_stroke(green());
    assert!(h.undone.is_empty());
    assert_eq!(h.committed.len(), 1);
    assert_eq!(h.committed[0].color, green());
    assert!(h.committed[0].points.is_empty());
    assert!(!h.redo());
}

#[test]
fn redo_restores_the_stroke() {
    let mut h = History::new();
    h.begin_stroke(red());
    h.extend_active(Point::new(5, 6));
    h.begin_stroke(green());
    assert!(h.undo());
    assert!(h.undo());
    assert!(!h.undo());
    assert!(h.redo());
    assert_eq!(h.committed.len(), 1);
    assert_eq!(h.committed[0].color, red());
    assert_eq!(h.committed[0].points, vec![Point::new(5, 6)]);
    assert_eq!(h.undone.len(), 1);
    assert_eq!(h.undone[0].color, green());
}

#[test]
fn reset_empties_both_stacks() {
    let mut h = History::new();
    h.reset();
    assert!(h.committed.is_empty() && h.undone.is_empty());
    h.begin_stroke(red());
    h.begin_stroke(green());
    h.undo();
    h.reset();
    assert!(h.committed.is_empty() && h.undone.is_empty());
}

#[test]
fn extend_without_stroke_does_nothing() {
    let mut h = History::new();
    h.extend_active(Point::new(1, 1));
    assert!(h.committed.is_empty());
}

#[test]
fn apply_runs_commands() {
    let mut h = History::new();
    h.begin_stroke(red());
    h.apply(Command::Undo);
    assert_eq!(h.undone.len(), 1);
    h.apply(Command::Redo);
    assert_eq!(h.committed.len(), 1);
    h.apply(Command::Reset);
    assert!(h.committed.is_empty() && h.undone.is_empty());
}

#[test]
fn render_order_is_chronological() {
    let mut h = History::new();
    h.begin_stroke(red());
    h.begin_stroke(green());
    let ls: &Vec<Line> = h.iterate_for_render();
    assert_eq!(ls.len(), 2);
    assert_eq!(ls[0].color, red());
    assert_eq!(ls[1].color, green());
}

#[test]
fn line_appends_in_order() {
    let mut l = Line::new(red());
    assert!(l.points.is_empty());
    l.append_point(Point::new(1, 1));
    l.append_point(Point::new(0, 0));
    assert_eq!(l.points, vec![Point::new(1, 1), Point::new(0, 0)]);
}
