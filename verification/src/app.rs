//! The editing session: a canvas widget plus the session state, advanced by
//! key events that an input source hands in.

use vstd::prelude::*;

use crate::character::Character;
use crate::drawable::{Rect, Size, WidgetSized};
use crate::widget_canvas::Canvas;

verus! {

/// Whether the session keeps running.
#[derive(Debug, Clone, Copy, PartialEq, Eq, Structural)]
pub enum AppState {
    InProgress,
    End,
}

/// What kind of key event arrived.
#[derive(Debug, Clone, Copy, PartialEq, Eq, Structural)]
pub enum KeyKind {
    Press,
    Other,
}

/// The key that an event names.
#[derive(Debug, Clone, Copy, PartialEq, Eq, Structural)]
pub enum KeyCode {
    Escape,
    Char(char),
    Other,
}

/// The modifier keys held during an event.
#[derive(Debug, Clone, Copy, PartialEq, Eq, Structural)]
pub struct KeyModifiers {
    pub shift: bool,
    pub control: bool,
    pub alt: bool,
}

impl KeyModifiers {
    /// No modifier held.
    pub open spec fn spec_none(&self) -> bool {
        !self.shift && !self.control && !self.alt
    }

    /// Exactly the control key held.
    pub open spec fn spec_control_only(&self) -> bool {
        self.control && !self.shift && !self.alt
    }
}

/// One key event from the input source.
#[derive(Debug, Clone, Copy, PartialEq, Eq, Structural)]
pub struct KeyEvent {
    pub kind: KeyKind,
    pub code: KeyCode,
    pub modifiers: KeyModifiers,
}

/// The two recognized end-of-session inputs: a bare Escape press, or a
/// Ctrl+C press.
pub open spec fn quit_event(e: KeyEvent) -> bool {
    e.kind == KeyKind::Press && ((e.code == KeyCode::Escape && e.modifiers.spec_none()) || (e.code
        == KeyCode::Char('c') && e.modifiers.spec_control_only()))
}

/// The session: the canvas being edited and whether the session goes on.
#[derive(Debug)]
pub struct App {
    canvas: Canvas,
    state: AppState,
}

impl App {
    pub closed spec fn spec_state(&self) -> AppState {
        self.state
    }

    /// The contents of the canvas under edit.
    pub closed spec fn spec_canvas(&self) -> Seq<Seq<Character>> {
        self.canvas@
    }

    pub fn new(canvas: crate::canvas::Canvas) -> (r: Self)
        ensures
            r.spec_state() == AppState::InProgress,
            r.spec_canvas() == canvas@,
    {
        Self { canvas: Canvas::new(canvas), state: AppState::InProgress }
    }

    /// The canvas widget under edit.
    pub fn canvas(&self) -> (r: &Canvas)
        ensures
            r@ == self.spec_canvas(),
    {
        &self.canvas
    }

    pub fn state(&self) -> (r: AppState)
        ensures
            r == self.spec_state(),
    {
        self.state
    }

    /// Advance the session by one key event: a bare Escape press or a
    /// Ctrl+C press ends the session, everything else changes nothing.
    pub fn handle_key(&mut self, key: &KeyEvent)
        ensures
            final(self).spec_state() == (if quit_event(*key) {
                AppState::End
            } else {
                old(self).spec_state()
            }),
            final(self).spec_canvas() == old(self).spec_canvas(),
    {
        match (key.kind, key.code) {
            (KeyKind::Press, KeyCode::Escape) => {
                if !key.modifiers.shift && !key.modifiers.control && !key.modifiers.alt {
                    self.state = AppState::End;
                }
            },
            (KeyKind::Press, KeyCode::Char(c)) => {
                if c == 'c' && key.modifiers.control && !key.modifiers.shift
                    && !key.modifiers.alt {
                    self.state = AppState::End;
                }
            },
            _ => {},
        }
    }

    /// A failing input source is fatal for the session.
    pub fn input_failure(&mut self)
        ensures
            final(self).spec_state() == AppState::End,
            final(self).spec_canvas() == old(self).spec_canvas(),
    {
        self.state = AppState::End;
    }

    /// Whether the target rectangle offers at least the preferred size on
    /// both axes.
    pub fn check_size(&self, target: Rect) -> (r: bool)
        ensures
            r == (target.width >= self.spec_size_preferred().0.size && target.height
                >= self.spec_size_preferred().1.size),
    {
        let size = self.canvas.size_preferred();
        target.width >= size.0.size && target.height >= size.1.size
    }
}

impl WidgetSized for App {
    /// The app wants what its canvas wants.
    open spec fn spec_size_preferred(&self) -> (Size, Size) {
        (
            Size {
                size: crate::widget_canvas::sat_u16(
                    (if self.spec_canvas().len() == 0 {
                        0
                    } else {
                        self.spec_canvas()[0].len()
                    }) as int,
                ),
                flexible: false,
            },
            Size { size: crate::widget_canvas::sat_u16(self.spec_canvas().len() as int), flexible: false },
        )
    }

    fn size_preferred(&self) -> (r: (Size, Size)) {
        self.canvas.size_preferred()
    }
}

} // verus!
