use vstd::prelude::*;

verus! {

/// Identifier of a widget in a widget repository.
#[derive(Clone, Copy, Debug, Hash, PartialEq, Eq, Structural)]
pub struct WidgetId(pub u64);

impl WidgetId {
    pub fn new(id: u64) -> (r: Self)
        ensures
            r.0 == id,
    {
        WidgetId(id)
    }

    /// Moves the identifier `rhs` further (`id += rhs`).
    pub fn advance(&mut self, rhs: u64)
        requires
            old(self).0 + rhs <= u64::MAX,
        ensures
            final(self).0 == old(self).0 + rhs,
    {
        self.0 = rhs + self.0;
    }
}

impl Default for WidgetId {
    fn default() -> (r: Self)
        ensures
            r.0 == 0,
    {
        Self(0)
    }
}

/// Identifier of a node in a widget tree.
#[derive(Clone, Copy, Debug, Hash, PartialEq, Eq, Structural)]
pub struct WidgetNodeId(pub u64);

impl WidgetNodeId {
    pub fn new(id: u64) -> (r: Self)
        ensures
            r.0 == id,
    {
        WidgetNodeId(id)
    }

    /// Moves the identifier `rhs` further (`id += rhs`).
    pub fn advance(&mut self, rhs: u64)
        requires
            old(self).0 + rhs <= u64::MAX,
        ensures
            final(self).0 == old(self).0 + rhs,
    {
        self.0 = rhs + self.0;
    }
}

impl Default for WidgetNodeId {
    fn default() -> (r: Self)
        ensures
            r.0 == 0,
    {
        Self(0)
    }
}

/// reaction from widget when processing widget input
#[derive(Clone, Copy, Debug, PartialEq, Eq, Structural)]
pub enum WidgetEvent {
    ButtonClicked(WidgetNodeId),
}

} // verus!
