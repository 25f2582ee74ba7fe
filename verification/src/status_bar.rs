//! The one-line status bar: the editing mode on the left, the cursor
//! position on the right, a flexible spacer between them.

use vstd::prelude::*;

use crate::drawable::{Direction, Size, WidgetSized};
use crate::layout::{layout_size_of, Layout, Widget};
use crate::spacer::Spacer;
use crate::style::Color;

verus! {

/// The editor's input mode.
#[derive(Debug, Clone, Copy, PartialEq, Eq, Structural)]
pub enum Mode {
    Normal,
    Replace,
}

impl Mode {
    /// Every mode, in display order.
    pub fn all() -> (r: Vec<Mode>)
        ensures
            r@ == seq![Mode::Normal, Mode::Replace],
    {
        let mut v: Vec<Mode> = Vec::new();
        v.push(Mode::Normal);
        v.push(Mode::Replace);
        proof {
            assert(v@ =~= seq![Mode::Normal, Mode::Replace]);
        }
        v
    }

    /// The mode's display name.
    pub open spec fn name_spec(&self) -> Seq<char> {
        match self {
            Mode::Normal => "Normal"@,
            Mode::Replace => "Replace"@,
        }
    }

    pub fn name(&self) -> (r: String)
        ensures
            r@ == self.name_spec(),
    {
        match self {
            Mode::Normal => "Normal".to_owned(),
            Mode::Replace => "Replace".to_owned(),
        }
    }
}

/// The length of the widest mode name.
pub open spec fn max_mode_name_len() -> int {
    if "Normal"@.len() >= "Replace"@.len() {
        "Normal"@.len() as int
    } else {
        "Replace"@.len() as int
    }
}

/// The preferred size of a mode bar: the widest mode name plus one cell of
/// padding on each side, one line tall, fixed on both axes.
pub open spec fn mode_bar_size() -> (Size, Size) {
    (
        Size { size: (max_mode_name_len() + 2) as u16, flexible: false },
        Size { size: 1u16, flexible: false },
    )
}

/// The preferred size of a cursor bar: room for ` 000:000 `, one line
/// tall, fixed on both axes.
pub open spec fn cursor_bar_size() -> (Size, Size) {
    (Size { size: " 000:000 "@.len() as u16, flexible: false }, Size { size: 1u16, flexible: false })
}

/// Shows the current editing mode.
#[derive(Debug, Clone, Copy)]
pub struct ModeBar {
    mode: Mode,
}

impl ModeBar {
    pub closed spec fn spec_mode(&self) -> Mode {
        self.mode
    }

    pub fn new(mode: Mode) -> (r: Self)
        ensures
            r.spec_mode() == mode,
    {
        Self { mode }
    }

    pub fn mode(&self) -> (r: Mode)
        ensures
            r == self.spec_mode(),
    {
        self.mode
    }

    pub fn set_mode(&mut self, mode: Mode)
        ensures
            final(self).spec_mode() == mode,
    {
        self.mode = mode;
    }

    /// The color the mode is displayed in.
    pub open spec fn spec_color(&self) -> Color {
        match self.spec_mode() {
            Mode::Normal => Color::White,
            Mode::Replace => Color::Blue,
        }
    }

    pub fn color(&self) -> (r: Color)
        ensures
            r == self.spec_color(),
    {
        match self.mode {
            Mode::Normal => Color::White,
            Mode::Replace => Color::Blue,
        }
    }
}

impl WidgetSized for ModeBar {
    open spec fn spec_size_preferred(&self) -> (Size, Size) {
        mode_bar_size()
    }

    fn size_preferred(&self) -> (r: (Size, Size)) {
        proof {
            reveal_strlit("Normal");
            reveal_strlit("Replace");
        }
        let a = Mode::Normal.name();
        let la = a.as_str().unicode_len();
        let b = Mode::Replace.name();
        let lb = b.as_str().unicode_len();
        let widest = if la >= lb {
            la
        } else {
            lb
        };
        (Size { size: widest as u16 + 2, flexible: false }, Size { size: 1, flexible: false })
    }
}

/// Shows the cursor position.
#[derive(Debug, Clone, Copy)]
pub struct CursorBar {
    cursor: (u16, u16),
}

impl CursorBar {
    pub closed spec fn spec_cursor(&self) -> (u16, u16) {
        self.cursor
    }

    pub fn new(cursor: (u16, u16)) -> (r: Self)
        ensures
            r.spec_cursor() == cursor,
    {
        Self { cursor }
    }

    pub fn cursor(&self) -> (r: (u16, u16))
        ensures
            r == self.spec_cursor(),
    {
        self.cursor
    }

    pub fn set_cursor(&mut self, cursor: (u16, u16))
        ensures
            final(self).spec_cursor() == cursor,
    {
        self.cursor = cursor;
    }
}

impl WidgetSized for CursorBar {
    open spec fn spec_size_preferred(&self) -> (Size, Size) {
        cursor_bar_size()
    }

    fn size_preferred(&self) -> (r: (Size, Size)) {
        proof {
            reveal_strlit(" 000:000 ");
        }
        let w = " 000:000 ".unicode_len();
        (Size { size: w as u16, flexible: false }, Size { size: 1, flexible: false })
    }
}

/// The whole status bar: mode, flexible spacer, cursor position, laid out
/// horizontally with a margin of one cell.
#[derive(Debug, Clone, Copy)]
pub struct StatusBar {
    mode: ModeBar,
    cursor: CursorBar,
}

impl StatusBar {
    pub closed spec fn spec_mode(&self) -> Mode {
        self.mode.spec_mode()
    }

    pub closed spec fn spec_cursor(&self) -> (u16, u16) {
        self.cursor.spec_cursor()
    }

    pub fn new(mode: Mode, cursor: (u16, u16)) -> (r: Self)
        ensures
            r.spec_mode() == mode,
            r.spec_cursor() == cursor,
    {
        Self { mode: ModeBar::new(mode), cursor: CursorBar::new(cursor) }
    }

    pub fn mode(&self) -> (r: Mode)
        ensures
            r == self.spec_mode(),
    {
        self.mode.mode()
    }

    pub fn cursor_position(&self) -> (r: (u16, u16))
        ensures
            r == self.spec_cursor(),
    {
        self.cursor.cursor()
    }

    pub fn set_mode(&mut self, mode: Mode)
        ensures
            final(self).spec_mode() == mode,
            final(self).spec_cursor() == old(self).spec_cursor(),
    {
        self.mode.set_mode(mode);
    }

    pub fn set_cursor_position(&mut self, cursor_position: (u16, u16))
        ensures
            final(self).spec_cursor() == cursor_position,
            final(self).spec_mode() == old(self).spec_mode(),
    {
        self.cursor.set_cursor(cursor_position);
    }

    /// The widget pair every status bar reports: its layout's size.
    pub open spec fn status_bar_size() -> (Size, Size) {
        layout_size_of(
            seq![
                mode_bar_size(),
                (Size { size: 1u16, flexible: true }, Size { size: 1u16, flexible: true }),
                cursor_bar_size(),
            ],
            Direction::Horizontal,
            1u16,
        )
    }

    /// The bar's one-line layout: the mode on the left, the cursor on the
    /// right, a flexible spacer between them, one cell of margin.
    pub fn layout(&self) -> (r: Layout)
        ensures
            r.direction == Direction::Horizontal,
            r.margin == 1,
            r.children@.len() == 3,
            r.children@[0] matches Widget::ModeBar(m) && m.spec_mode() == self.spec_mode(),
            (r.children@[1] matches Widget::Spacer(s) && s.spec_size_preferred() == (
                Size { size: 1u16, flexible: true },
                Size { size: 1u16, flexible: true },
            )),
            r.children@[2] matches Widget::CursorBar(c) && c.spec_cursor() == self.spec_cursor(),
            r.child_size_pairs() == seq![
                mode_bar_size(),
                (Size { size: 1u16, flexible: true }, Size { size: 1u16, flexible: true }),
                cursor_bar_size(),
            ],
    {
        let mut children: Vec<Widget> = Vec::new();
        children.push(Widget::ModeBar(ModeBar::new(self.mode.mode())));
        children.push(Widget::Spacer(Spacer::new_simple_flexible(1)));
        children.push(Widget::CursorBar(CursorBar::new(self.cursor.cursor())));
        let r = Layout::new(children, Direction::Horizontal, 1);
        proof {
            crate::layout::lemma_pairs_of(r.children@);
            assert(r.child_size_pairs() =~= seq![
                mode_bar_size(),
                (Size { size: 1u16, flexible: true }, Size { size: 1u16, flexible: true }),
                cursor_bar_size(),
            ]);
        }
        r
    }
}

impl WidgetSized for StatusBar {
    open spec fn spec_size_preferred(&self) -> (Size, Size) {
        StatusBar::status_bar_size()
    }

    fn size_preferred(&self) -> (r: (Size, Size)) {
        self.layout().size_preferred()
    }
}

} // verus!
