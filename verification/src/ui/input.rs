use vstd::prelude::*;
use crate::ui::rect::IVec2;

verus! {

/// Keys that the widgets react to; every other key is `Other`.
#[derive(Copy, Clone, Debug, PartialEq, Eq, Structural)]
pub enum KeyCode {
    Return,
    Back,
    Up,
    Down,
    Other,
}

/// A key press sent to the focused widget.
#[derive(Copy, Clone, Debug, PartialEq, Eq, Structural)]
pub struct KeyboardInput {
    keycode: KeyCode,
}

impl KeyboardInput {
    pub closed spec fn key(&self) -> KeyCode {
        self.keycode
    }

    pub fn new(keycode: KeyCode) -> (r: Self)
        ensures
            r.key() == keycode,
    {
        Self { keycode }
    }

    pub fn is_return(&self) -> (r: bool)
        ensures
            r == (self.key() == KeyCode::Return),
    {
        match self.keycode {
            KeyCode::Return => true,
            _ => false,
        }
    }

    pub fn is_back(&self) -> (r: bool)
        ensures
            r == (self.key() == KeyCode::Back),
    {
        match self.keycode {
            KeyCode::Back => true,
            _ => false,
        }
    }

    pub fn is_up(&self) -> (r: bool)
        ensures
            r == (self.key() == KeyCode::Up),
    {
        match self.keycode {
            KeyCode::Up => true,
            _ => false,
        }
    }

    pub fn is_down(&self) -> (r: bool)
        ensures
            r == (self.key() == KeyCode::Down),
    {
        match self.keycode {
            KeyCode::Down => true,
            _ => false,
        }
    }
}

/// Input for the widgets.
#[derive(Copy, Clone, Debug, PartialEq, Eq, Structural)]
pub enum WidgetInput {
    /// window is resized (new size in pixels)
    Resized(IVec2),
    MouseClick { pos: IVec2 },
    Character(char),
    KeyboardInput(KeyboardInput),
}

/// What a widget reports to its interaction handler.
#[derive(Debug)]
pub enum Interaction {
    Clicked,
    TextEdited(String),
    TerminalInput(String),
}

} // verus!
