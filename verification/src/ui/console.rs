use vstd::prelude::*;
use crate::ui::rect::IVec2;

verus! {

/// A console area with its output lines.
pub struct Console {
    outputs: Vec<String>,
    pos: IVec2,
    size: IVec2,
}

impl Console {
    pub closed spec fn spec_pos(&self) -> IVec2 {
        self.pos
    }

    pub closed spec fn spec_size(&self) -> IVec2 {
        self.size
    }

    pub closed spec fn output_count(&self) -> nat {
        self.outputs@.len()
    }

    /// A builder at position (0, 0) with size (100, 100).
    pub fn build() -> (r: Builder)
        ensures
            r.spec_pos() == IVec2::new_spec(0, 0),
            r.spec_size() == IVec2::new_spec(100, 100),
    {
        Builder::new()
    }
}

/// Builder of a [`Console`].
pub struct Builder {
    pos: IVec2,
    size: IVec2,
}

impl Builder {
    pub closed spec fn spec_pos(&self) -> IVec2 {
        self.pos
    }

    pub closed spec fn spec_size(&self) -> IVec2 {
        self.size
    }

    fn new() -> (r: Self)
        ensures
            r.spec_pos() == IVec2::new_spec(0, 0),
            r.spec_size() == IVec2::new_spec(100, 100),
    {
        Self { pos: IVec2::new(0, 0), size: IVec2::new(100, 100) }
    }

    pub fn pos(self, pos: IVec2) -> (r: Self)
        ensures
            r.spec_pos() == pos,
            r.spec_size() == self.spec_size(),
    {
        Builder { pos, size: self.size }
    }

    pub fn size(self, size: IVec2) -> (r: Self)
        ensures
            r.spec_pos() == self.spec_pos(),
            r.spec_size() == size,
    {
        Builder { pos: self.pos, size }
    }

    /// A console with no output lines, at the position and size given.
    pub fn build(self) -> (r: Console)
        ensures
            r.spec_pos() == self.spec_pos(),
            r.spec_size() == self.spec_size(),
            r.output_count() == 0,
    {
        Console { outputs: Vec::new(), pos: self.pos, size: self.size }
    }
}

} // verus!
