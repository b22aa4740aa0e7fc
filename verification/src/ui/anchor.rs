use vstd::prelude::*;

verus! {

/// Horizontal placement of a widget inside its parent.
#[derive(Copy, Clone, Debug, PartialEq, Eq, Structural)]
pub enum AnchorHorizon {
    Left,
    Center,
    Right,
    /// fill horizontally
    Fill,
}

impl Default for AnchorHorizon {
    fn default() -> (r: Self)
        ensures
            r == AnchorHorizon::Left,
    {
        AnchorHorizon::Left
    }
}

/// Vertical placement of a widget inside its parent.
#[derive(Copy, Clone, Debug, PartialEq, Eq, Structural)]
pub enum AnchorVertical {
    Top,
    Center,
    Bottom,
    /// fill vertically
    Fill,
}

impl Default for AnchorVertical {
    fn default() -> (r: Self)
        ensures
            r == AnchorVertical::Top,
    {
        AnchorVertical::Top
    }
}

} // verus!
