use vstd::prelude::*;

verus! {

/// Integer 2D vector (screen pixels).
#[derive(Clone, Copy, Debug, PartialEq, Eq, Structural)]
pub struct IVec2 {
    pub x: i32,
    pub y: i32,
}

impl IVec2 {
    pub open spec fn new_spec(x: i32, y: i32) -> Self {
        IVec2 { x, y }
    }

    pub fn new(x: i32, y: i32) -> (r: Self)
        ensures
            r == Self::new_spec(x, y),
    {
        IVec2 { x, y }
    }
}

/// The larger of `a` and `b`.
pub open spec fn spec_max(a: int, b: int) -> int {
    if a >= b { a } else { b }
}

/// The smaller of `a` and `b`.
pub open spec fn spec_min(a: int, b: int) -> int {
    if a <= b { a } else { b }
}

/// `v` is a value of `i32`.
pub open spec fn fits_i32(v: int) -> bool {
    i32::MIN <= v <= i32::MAX
}

/// Axis-aligned integer rectangle given by its minimum corner and its size.
#[derive(Clone, Copy, Debug, PartialEq, Eq, Structural)]
pub struct Rect2 {
    pub min: IVec2,
    pub size: IVec2,
}

/// Start of the overlap of the ranges `[a_min, a_min + a_size)` and `[b_min, b_min + b_size)`.
pub open spec fn overlap_min(a_min: int, b_min: int) -> int {
    spec_max(a_min, b_min)
}

/// Length of the overlap of two ranges; zero when they are disjoint.
pub open spec fn overlap_len(a_min: int, a_size: int, b_min: int, b_size: int) -> int {
    spec_max(spec_min(a_min + a_size, b_min + b_size) - spec_max(a_min, b_min), 0)
}

impl Rect2 {
    pub fn new(min: IVec2, size: IVec2) -> (r: Self)
        ensures
            r.min == min,
            r.size == size,
    {
        Rect2 { min, size }
    }

    /// The far corner `min + size` fits in `i32` on both axes.
    pub open spec fn max_fits(&self) -> bool {
        fits_i32(self.min.x + self.size.x) && fits_i32(self.min.y + self.size.y)
    }

    /// The overlap of two rectangles whose far corners fit in `i32` stays in `i32`.
    pub open spec fn intersect_fits(&self, other: &Rect2) -> bool {
        &&& self.max_fits()
        &&& other.max_fits()
        &&& fits_i32(
            spec_min(self.min.x + self.size.x, other.min.x + other.size.x) - spec_max(
                self.min.x as int,
                other.min.x as int,
            ),
        )
        &&& fits_i32(
            spec_min(self.min.y + self.size.y, other.min.y + other.size.y) - spec_max(
                self.min.y as int,
                other.min.y as int,
            ),
        )
    }

    /// The part of `self` that lies inside `other`; an empty overlap has zero size.
    pub fn intersect(&self, other: &Rect2) -> (r: Rect2)
        requires
            self.intersect_fits(other),
        ensures
            r.min.x == overlap_min(self.min.x as int, other.min.x as int),
            r.min.y == overlap_min(self.min.y as int, other.min.y as int),
            r.size.x == overlap_len(
                self.min.x as int,
                self.size.x as int,
                other.min.x as int,
                other.size.x as int,
            ),
            r.size.y == overlap_len(
                self.min.y as int,
                self.size.y as int,
                other.min.y as int,
                other.size.y as int,
            ),
    {
        let min_x = if self.min.x >= other.min.x { self.min.x } else { other.min.x };
        let min_y = if self.min.y >= other.min.y { self.min.y } else { other.min.y };
        let a_max_x = self.min.x + self.size.x;
        let b_max_x = other.min.x + other.size.x;
        let a_max_y = self.min.y + self.size.y;
        let b_max_y = other.min.y + other.size.y;
        let max_x = if a_max_x <= b_max_x { a_max_x } else { b_max_x };
        let max_y = if a_max_y <= b_max_y { a_max_y } else { b_max_y };
        let dx = max_x - min_x;
        let dy = max_y - min_y;
        let size_x = if dx >= 0 { dx } else { 0 };
        let size_y = if dy >= 0 { dy } else { 0 };
        Rect2 { min: IVec2 { x: min_x, y: min_y }, size: IVec2 { x: size_x, y: size_y } }
    }

    /// The point lies in the half-open rectangle `[min, min + size)`.
    pub open spec fn contains_point(&self, p: IVec2) -> bool {
        &&& self.min.x <= p.x < self.min.x + self.size.x
        &&& self.min.y <= p.y < self.min.y + self.size.y
    }

    pub fn has_ivec2(&self, p: &IVec2) -> (r: bool)
        requires
            self.max_fits(),
        ensures
            r == self.contains_point(*p),
    {
        self.min.x <= p.x && p.x < self.min.x + self.size.x && self.min.y <= p.y && p.y
            < self.min.y + self.size.y
    }
}

} // verus!
