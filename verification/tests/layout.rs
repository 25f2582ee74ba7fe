use draw::canvas::Canvas;
use draw::drawable::{Direction, Rect, Size, WidgetSized};
use draw::error::Error;
use draw::layout::{Layout, Widget};
use draw::size_error::SizeError;
use draw::spacer::Spacer;
use draw::status_bar::{CursorBar, Mode, ModeBar, StatusBar};

fn rect(x: u16, y: u16, width: u16, height: u16) -> Rect {
    Rect { x, y, width, height }
}

#[test]
fn test_align_children_fixed_and_flexible_split_evenly() {
    // Children of preferred widths [10 (fixed), flex, flex] in a parent of
    // width 100 with margin 1: the flexible pair shares 100-10-2 = 88
    // columns as 44/44, positioned left to right with margins as the only
    // gaps.
    let layout = Layout::new(
        vec![
            Widget::Spacer(Spacer::new((10, 1), (false, false))),
            Widget::Spacer(Spacer::new_simple_flexible(1)),
            Widget::Spacer(Spacer::new_simple_flexible(1)),
        ],
        Direction::Horizontal,
        1,
    );
    let rects = layout.align_children(rect(0, 0, 100, 5)).unwrap();
    assert_eq!(
        rects,
        vec![rect(0, 0, 10, 5), rect(11, 0, 44, 5), rect(56, 0, 44, 5)]
    );
}

#[test]
fn test_align_children_remainder_goes_to_earliest() {
    // Three equal flexible children over 100 units of flexible space split
    // as 34/33/33: the earliest child absorbs the remainder.
    let layout = Layout::new(
        vec![
            Widget::Spacer(Spacer::new_simple_flexible(1)),
            Widget::Spacer(Spacer::new_simple_flexible(1)),
            Widget::Spacer(Spacer::new_simple_flexible(1)),
        ],
        Direction::Horizontal,
        1,
    );
    let rects = layout.align_children(rect(0, 0, 102, 4)).unwrap();
    assert_eq!(
        rects,
        vec![rect(0, 0, 34, 4), rect(35, 0, 33, 4), rect(69, 0, 33, 4)]
    );
}

#[test]
fn test_align_children_vertical_spans_full_width() {
    let layout = Layout::new(
        vec![
            Widget::Spacer(Spacer::new((3, 2), (false, false))),
            Widget::Spacer(Spacer::new_simple_flexible(1)),
        ],
        Direction::Vertical,
        0,
    );
    let rects = layout.align_children(rect(4, 7, 20, 10)).unwrap();
    assert_eq!(rects, vec![rect(4, 7, 20, 2), rect(4, 9, 20, 8)]);
}

#[test]
fn test_align_children_insufficient_space_is_an_error() {
    let layout = Layout::new(
        vec![
            Widget::Spacer(Spacer::new((10, 1), (false, false))),
            Widget::Spacer(Spacer::new((10, 1), (false, false))),
        ],
        Direction::Horizontal,
        1,
    );
    assert_eq!(
        layout.align_children(rect(0, 0, 15, 5)).err(),
        Some(Error::InsufficientSpace)
    );
}

#[test]
fn test_count_flexible_children_and_margins() {
    let layout = Layout::new(
        vec![
            Widget::Spacer(Spacer::new((10, 1), (false, true))),
            Widget::Spacer(Spacer::new_simple_flexible(1)),
            Widget::Spacer(Spacer::new((2, 2), (false, false))),
        ],
        Direction::Horizontal,
        1,
    );
    assert_eq!(layout.count_flexible_children(&Direction::Horizontal), 1);
    assert_eq!(layout.count_flexible_children(&Direction::Vertical), 2);
    assert_eq!(layout.count_margins(), 2);
}

#[test]
fn test_layout_size_preferred_sums_and_maxes() {
    // Horizontal: width sums children plus margins; height is the maximum.
    let layout = Layout::new(
        vec![
            Widget::Spacer(Spacer::new((10, 3), (false, false))),
            Widget::Spacer(Spacer::new((5, 7), (true, false))),
        ],
        Direction::Horizontal,
        2,
    );
    let (w, h) = layout.size_preferred();
    assert_eq!(w, Size { size: 17, flexible: true });
    assert_eq!(h, Size { size: 7, flexible: false });
}

#[test]
fn test_nested_layout_size_preferred() {
    let inner = Layout::new(
        vec![
            Widget::Spacer(Spacer::new((4, 1), (false, false))),
            Widget::Spacer(Spacer::new((6, 2), (false, false))),
        ],
        Direction::Horizontal,
        1,
    );
    let outer = Layout::new(
        vec![
            Widget::Layout(inner),
            Widget::Spacer(Spacer::new((3, 5), (false, false))),
        ],
        Direction::Vertical,
        0,
    );
    let (w, h) = outer.size_preferred();
    // Inner is 4+6+1 = 11 wide and 2 tall; stacking vertically the width
    // is the maximum and the heights add.
    assert_eq!(w, Size { size: 11, flexible: false });
    assert_eq!(h, Size { size: 7, flexible: false });
}

#[test]
fn test_size_preferred_in_direction() {
    let s = Spacer::new((10, 3), (true, false));
    assert_eq!(
        s.size_preferred_in_direction(&Direction::Horizontal),
        Size { size: 10, flexible: true }
    );
    assert_eq!(
        s.size_preferred_in_direction(&Direction::Vertical),
        Size { size: 3, flexible: false }
    );
}

#[test]
fn test_canvas_widget_size_preferred() {
    let widget = draw::widget_canvas::Canvas::new(Canvas::new(100, 12));
    let (w, h) = widget.size_preferred();
    assert_eq!(w, Size { size: 100, flexible: false });
    assert_eq!(h, Size { size: 12, flexible: false });
    assert_eq!(widget.canvas().width(), 100);
}

#[test]
fn test_size_error_size_preferred() {
    let e = SizeError::new((80, 24));
    assert_eq!(e.min_size(), (80, 24));
    let (w, h) = e.size_preferred();
    // The headline is 28 characters plus a two-cell border on each side.
    assert_eq!(w, Size { size: 32, flexible: true });
    assert_eq!(h, Size { size: 7, flexible: true });
}

#[test]
fn test_mode_bar() {
    let mut bar = ModeBar::new(Mode::Normal);
    assert!(matches!(bar.mode(), Mode::Normal));
    bar.set_mode(Mode::Replace);
    assert!(matches!(bar.mode(), Mode::Replace));
    // The widest mode name is "Replace" (7) plus one cell each side.
    let (w, h) = bar.size_preferred();
    assert_eq!(w, Size { size: 9, flexible: false });
    assert_eq!(h, Size { size: 1, flexible: false });
}

#[test]
fn test_mode_names() {
    assert_eq!(Mode::all().len(), 2);
    assert_eq!(Mode::Normal.name(), "Normal");
    assert_eq!(Mode::Replace.name(), "Replace");
}

#[test]
fn test_cursor_bar() {
    let mut bar = CursorBar::new((3, 4));
    assert_eq!(bar.cursor(), (3, 4));
    bar.set_cursor((7, 8));
    assert_eq!(bar.cursor(), (7, 8));
    let (w, h) = bar.size_preferred();
    assert_eq!(w, Size { size: 9, flexible: false });
    assert_eq!(h, Size { size: 1, flexible: false });
}

#[test]
fn test_status_bar() {
    let mut bar = StatusBar::new(Mode::Normal, (0, 0));
    bar.set_mode(Mode::Replace);
    bar.set_cursor_position((5, 6));
    assert!(matches!(bar.mode(), Mode::Replace));
    assert_eq!(bar.cursor_position(), (5, 6));
    // Mode bar (9) + spacer (1) + cursor bar (9) + two margins.
    let (w, h) = bar.size_preferred();
    assert_eq!(w, Size { size: 21, flexible: true });
    assert_eq!(h, Size { size: 1, flexible: true });
    // The layout positions the mode bar left and the cursor bar right.
    let rects = bar.layout().align_children(rect(0, 0, 80, 1)).unwrap();
    assert_eq!(rects.len(), 3);
    assert_eq!(rects[0], rect(0, 0, 9, 1));
    assert_eq!(rects[2], rect(71, 0, 9, 1));
}

#[test]
fn test_align_children_at_coordinate_space_edge() {
    // The parent ends exactly at the far edge of the coordinate space.
    let layout = Layout::new(
        vec![
            Widget::Spacer(Spacer::new((100, 1), (false, false))),
            Widget::Spacer(Spacer::new_simple_flexible(1)),
        ],
        Direction::Horizontal,
        1,
    );
    let rects = layout.align_children(rect(65000, 0, 535, 3)).unwrap();
    assert_eq!(rects, vec![rect(65000, 0, 100, 3), rect(65101, 0, 434, 3)]);
}

#[test]
fn test_align_children_empty_layout() {
    let layout = Layout::new(vec![], Direction::Vertical, 3);
    assert_eq!(layout.align_children(rect(0, 0, 10, 10)).unwrap(), vec![]);
    assert_eq!(layout.count_margins(), 0);
}
