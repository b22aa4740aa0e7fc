use vstd::prelude::*;
use crate::ui::anchor::{AnchorHorizon, AnchorVertical};
use crate::ui::rect::{fits_i32, spec_max, IVec2, Rect2};

verus! {

/// Where a widget is placed relative to its parent.
#[derive(Copy, Clone, Debug)]
pub struct WidgetPlacementInfo {
    pub pos: IVec2,
    pub h_anchor: Option<AnchorHorizon>,
    pub v_anchor: Option<AnchorVertical>,
    pub size: IVec2,
}

/// Placement component of a widget.
#[derive(Clone, Copy)]
pub struct Region {
    pub pos: IVec2,
    pub v_anchor: AnchorVertical,
    pub h_anchor: AnchorHorizon,
    pub size: IVec2,
    pub visible: bool,
}

/// Start of a widget along one axis, for an anchor given as `start`, `center`,
/// `end` or `fill` (exactly one of the flags holds, or none for `start`).
pub open spec fn axis_start(
    center: bool,
    end: bool,
    fill: bool,
    pos: int,
    size: int,
    parent_min: int,
    parent_size: int,
) -> int {
    if fill {
        parent_min
    } else if end {
        parent_min + parent_size + (pos - size)
    } else if center {
        parent_min + spec_max(parent_size - size, 0) / 2 + pos
    } else {
        parent_min + pos
    }
}

/// Every intermediate value that the computation of `axis_start` makes fits in `i32`.
pub open spec fn axis_start_fits(
    center: bool,
    end: bool,
    fill: bool,
    pos: int,
    size: int,
    parent_min: int,
    parent_size: int,
) -> bool {
    if fill {
        true
    } else if end {
        &&& fits_i32(parent_min + parent_size)
        &&& fits_i32(pos - size)
        &&& fits_i32(parent_min + parent_size + (pos - size))
    } else if center {
        &&& fits_i32(parent_size - size)
        &&& fits_i32(parent_min + spec_max(parent_size - size, 0) / 2)
        &&& fits_i32(parent_min + spec_max(parent_size - size, 0) / 2 + pos)
    } else {
        fits_i32(parent_min + pos)
    }
}

fn fits32(v: i64) -> (b: bool)
    ensures
        b == fits_i32(v as int),
{
    -2147483648i64 <= v && v <= 2147483647i64
}

fn axis_start_fits_check(
    center: bool,
    end: bool,
    fill: bool,
    pos: i64,
    size: i64,
    parent_min: i64,
    parent_size: i64,
) -> (b: bool)
    requires
        fits_i32(pos as int),
        fits_i32(size as int),
        fits_i32(parent_min as int),
        fits_i32(parent_size as int),
    ensures
        b == axis_start_fits(
            center,
            end,
            fill,
            pos as int,
            size as int,
            parent_min as int,
            parent_size as int,
        ),
{
    if fill {
        true
    } else if end {
        fits32(parent_min + parent_size) && fits32(pos - size) && fits32(
            parent_min + parent_size + (pos - size),
        )
    } else if center {
        let d = parent_size - size;
        let remain = if d >= 0 { d } else { 0 };
        fits32(d) && fits32(parent_min + remain / 2) && fits32(parent_min + remain / 2 + pos)
    } else {
        fits32(parent_min + pos)
    }
}

fn axis_start_exec(
    center: bool,
    end: bool,
    fill: bool,
    pos: i64,
    size: i64,
    parent_min: i64,
    parent_size: i64,
) -> (r: i64)
    requires
        fits_i32(pos as int),
        fits_i32(size as int),
        fits_i32(parent_min as int),
        fits_i32(parent_size as int),
        axis_start_fits(center, end, fill, pos as int, size as int, parent_min as int, parent_size as int),
    ensures
        r == axis_start(center, end, fill, pos as int, size as int, parent_min as int, parent_size as int),
{
    if fill {
        parent_min
    } else if end {
        parent_min + parent_size + (pos - size)
    } else if center {
        let d = parent_size - size;
        let remain = if d >= 0 { d } else { 0 };
        parent_min + remain / 2 + pos
    } else {
        parent_min + pos
    }
}

impl Region {
    pub fn new(placement: WidgetPlacementInfo) -> (r: Self)
        ensures
            r.pos == placement.pos,
            r.size == placement.size,
            r.h_anchor == (match placement.h_anchor {
                Some(a) => a,
                None => AnchorHorizon::Left,
            }),
            r.v_anchor == (match placement.v_anchor {
                Some(a) => a,
                None => AnchorVertical::Top,
            }),
            r.visible,
    {
        let h_anchor = match placement.h_anchor {
            Some(a) => a,
            None => AnchorHorizon::default(),
        };
        let v_anchor = match placement.v_anchor {
            Some(a) => a,
            None => AnchorVertical::default(),
        };
        Region { pos: placement.pos, v_anchor, h_anchor, size: placement.size, visible: true }
    }

    pub open spec fn spec_x(&self, parent: Rect2) -> int {
        axis_start(
            self.h_anchor == AnchorHorizon::Center,
            self.h_anchor == AnchorHorizon::Right,
            self.h_anchor == AnchorHorizon::Fill,
            self.pos.x as int,
            self.size.x as int,
            parent.min.x as int,
            parent.size.x as int,
        )
    }

    pub open spec fn spec_y(&self, parent: Rect2) -> int {
        axis_start(
            self.v_anchor == AnchorVertical::Center,
            self.v_anchor == AnchorVertical::Bottom,
            self.v_anchor == AnchorVertical::Fill,
            self.pos.y as int,
            self.size.y as int,
            parent.min.y as int,
            parent.size.y as int,
        )
    }

    pub open spec fn spec_size_x(&self, parent: Rect2) -> int {
        if self.h_anchor == AnchorHorizon::Fill {
            parent.size.x as int
        } else {
            self.size.x as int
        }
    }

    pub open spec fn spec_size_y(&self, parent: Rect2) -> int {
        if self.v_anchor == AnchorVertical::Fill {
            parent.size.y as int
        } else {
            self.size.y as int
        }
    }

    /// The rectangle that the anchors give, before clipping to the parent.
    pub open spec fn anchored_rect(&self, parent: Rect2) -> Rect2 {
        Rect2 {
            min: IVec2 { x: self.spec_x(parent) as i32, y: self.spec_y(parent) as i32 },
            size: IVec2 { x: self.spec_size_x(parent) as i32, y: self.spec_size_y(parent) as i32 },
        }
    }

    /// `get_rect` computes without leaving `i32` on these inputs.
    pub open spec fn get_rect_fits(&self, parent: Rect2) -> bool {
        &&& axis_start_fits(
            self.h_anchor == AnchorHorizon::Center,
            self.h_anchor == AnchorHorizon::Right,
            self.h_anchor == AnchorHorizon::Fill,
            self.pos.x as int,
            self.size.x as int,
            parent.min.x as int,
            parent.size.x as int,
        )
        &&& axis_start_fits(
            self.v_anchor == AnchorVertical::Center,
            self.v_anchor == AnchorVertical::Bottom,
            self.v_anchor == AnchorVertical::Fill,
            self.pos.y as int,
            self.size.y as int,
            parent.min.y as int,
            parent.size.y as int,
        )
        &&& self.anchored_rect(parent).intersect_fits(&parent)
    }

    /// Whether `get_rect` computes without leaving `i32` on these inputs.
    pub fn get_rect_fits_check(&self, parent: &Rect2) -> (b: bool)
        ensures
            b == self.get_rect_fits(*parent),
    {
        let pmin_x = parent.min.x as i64;
        let pmin_y = parent.min.y as i64;
        let psize_x = parent.size.x as i64;
        let psize_y = parent.size.y as i64;
        let hc = match self.h_anchor { AnchorHorizon::Center => true, _ => false };
        let he = match self.h_anchor { AnchorHorizon::Right => true, _ => false };
        let hf = match self.h_anchor { AnchorHorizon::Fill => true, _ => false };
        let vc = match self.v_anchor { AnchorVertical::Center => true, _ => false };
        let ve = match self.v_anchor { AnchorVertical::Bottom => true, _ => false };
        let vf = match self.v_anchor { AnchorVertical::Fill => true, _ => false };
        let fx = axis_start_fits_check(hc, he, hf, self.pos.x as i64, self.size.x as i64, pmin_x, psize_x);
        let fy = axis_start_fits_check(vc, ve, vf, self.pos.y as i64, self.size.y as i64, pmin_y, psize_y);
        if !fx || !fy {
            return false;
        }
        let x = axis_start_exec(hc, he, hf, self.pos.x as i64, self.size.x as i64, pmin_x, psize_x);
        let y = axis_start_exec(vc, ve, vf, self.pos.y as i64, self.size.y as i64, pmin_y, psize_y);
        let sx = if hf { psize_x } else { self.size.x as i64 };
        let sy = if vf { psize_y } else { self.size.y as i64 };
        let ghost r = self.anchored_rect(*parent);
        assert(r.min.x == x && r.min.y == y && r.size.x == sx && r.size.y == sy);
        let a_max_x = x + sx;
        let a_max_y = y + sy;
        let p_max_x = pmin_x + psize_x;
        let p_max_y = pmin_y + psize_y;
        let lo_x = if x >= pmin_x { x } else { pmin_x };
        let lo_y = if y >= pmin_y { y } else { pmin_y };
        let hi_x = if a_max_x <= p_max_x { a_max_x } else { p_max_x };
        let hi_y = if a_max_y <= p_max_y { a_max_y } else { p_max_y };
        fits32(a_max_x) && fits32(a_max_y) && fits32(p_max_x) && fits32(p_max_y) && fits32(hi_x - lo_x)
            && fits32(hi_y - lo_y)
    }

    /// The rectangle of the widget inside `parent_rect`: placed by its anchors,
    /// then clipped to the parent.
    pub fn get_rect(&self, parent_rect: &Rect2) -> (r: Rect2)
        requires
            self.get_rect_fits(*parent_rect),
        ensures
            r == spec_clip(self.anchored_rect(*parent_rect), *parent_rect),
    {
        let x = match self.h_anchor {
            AnchorHorizon::Left => parent_rect.min.x + self.pos.x,
            AnchorHorizon::Right => parent_rect.min.x + parent_rect.size.x + (self.pos.x
                - self.size.x),
            AnchorHorizon::Center => {
                let d = parent_rect.size.x - self.size.x;
                let remain_size = if d >= 0 { d } else { 0 };
                parent_rect.min.x + (remain_size / 2) + self.pos.x
            },
            AnchorHorizon::Fill => parent_rect.min.x,
        };
        let y = match self.v_anchor {
            AnchorVertical::Top => parent_rect.min.y + self.pos.y,
            AnchorVertical::Bottom => parent_rect.min.y + parent_rect.size.y + (self.pos.y
                - self.size.y),
            AnchorVertical::Center => {
                let d = parent_rect.size.y - self.size.y;
                let remain_size = if d >= 0 { d } else { 0 };
                parent_rect.min.y + (remain_size / 2) + self.pos.y
            },
            AnchorVertical::Fill => parent_rect.min.y,
        };
        let size_x = match self.h_anchor {
            AnchorHorizon::Fill => parent_rect.size.x,
            _ => self.size.x,
        };
        let size_y = match self.v_anchor {
            AnchorVertical::Fill => parent_rect.size.y,
            _ => self.size.y,
        };
        let rect = Rect2::new(IVec2::new(x, y), IVec2::new(size_x, size_y));
        rect.intersect(parent_rect)
    }
}

/// Where `get_rect` puts a widget along x: the anchor places its left edge
/// at the parent's left edge plus `pos.x` (Left), at the parent's right edge
/// minus its width plus `pos.x` (Right), in the middle of the room the parent
/// leaves plus `pos.x` (Center), or on the parent's left edge with the
/// parent's width (Fill); the result is then cut to the part inside the
/// parent.
pub proof fn law_get_rect_x(region: Region, parent: Rect2)
    requires
        region.get_rect_fits(parent),
    ensures
        ({
            let r = spec_clip(region.anchored_rect(parent), parent);
            let pmin = parent.min.x as int;
            let psize = parent.size.x as int;
            let x = match region.h_anchor {
                AnchorHorizon::Left => pmin + region.pos.x,
                AnchorHorizon::Right => pmin + psize - region.size.x + region.pos.x,
                AnchorHorizon::Center => pmin + (if psize >= region.size.x {
                    (psize - region.size.x) / 2
                } else {
                    0
                }) + region.pos.x,
                AnchorHorizon::Fill => pmin,
            };
            let w = match region.h_anchor {
                AnchorHorizon::Fill => psize,
                _ => region.size.x as int,
            };
            let lo = if x >= pmin { x } else { pmin };
            let hi = if x + w <= pmin + psize { x + w } else { pmin + psize };
            &&& r.min.x == lo
            &&& r.size.x == (if hi >= lo { hi - lo } else { 0 })
        }),
{
}

/// Where `get_rect` puts a widget along y: as along x, with Top, Bottom,
/// Center and Fill.
pub proof fn law_get_rect_y(region: Region, parent: Rect2)
    requires
        region.get_rect_fits(parent),
    ensures
        ({
            let r = spec_clip(region.anchored_rect(parent), parent);
            let pmin = parent.min.y as int;
            let psize = parent.size.y as int;
            let y = match region.v_anchor {
                AnchorVertical::Top => pmin + region.pos.y,
                AnchorVertical::Bottom => pmin + psize - region.size.y + region.pos.y,
                AnchorVertical::Center => pmin + (if psize >= region.size.y {
                    (psize - region.size.y) / 2
                } else {
                    0
                }) + region.pos.y,
                AnchorVertical::Fill => pmin,
            };
            let h = match region.v_anchor {
                AnchorVertical::Fill => psize,
                _ => region.size.y as int,
            };
            let lo = if y >= pmin { y } else { pmin };
            let hi = if y + h <= pmin + psize { y + h } else { pmin + psize };
            &&& r.min.y == lo
            &&& r.size.y == (if hi >= lo { hi - lo } else { 0 })
        }),
{
}

/// A widget's rectangle lies inside its parent's: it starts inside the
/// parent, its size is never negative, and a non-empty one ends inside it.
pub proof fn law_rect_inside_parent(region: Region, parent: Rect2)
    requires
        region.get_rect_fits(parent),
        parent.size.x >= 0,
        parent.size.y >= 0,
    ensures
        ({
            let r = spec_clip(region.anchored_rect(parent), parent);
            &&& parent.min.x <= r.min.x && parent.min.y <= r.min.y
            &&& r.size.x >= 0 && r.size.y >= 0
            &&& r.min.x + r.size.x <= parent.min.x + parent.size.x || r.size.x == 0
            &&& r.min.y + r.size.y <= parent.min.y + parent.size.y || r.size.y == 0
        }),
{
}

/// A widget anchored `Fill` on both axes covers its whole parent.
pub proof fn law_fill_covers_parent(region: Region, parent: Rect2)
    requires
        region.h_anchor == AnchorHorizon::Fill,
        region.v_anchor == AnchorVertical::Fill,
        region.get_rect_fits(parent),
        parent.size.x >= 0,
        parent.size.y >= 0,
    ensures
        spec_clip(region.anchored_rect(parent), parent) == parent,
{
}

/// `rect` clipped to `parent`, as `Rect2::intersect` computes it.
pub open spec fn spec_clip(rect: Rect2, parent: Rect2) -> Rect2 {
    Rect2 {
        min: IVec2 {
            x: crate::ui::rect::overlap_min(rect.min.x as int, parent.min.x as int) as i32,
            y: crate::ui::rect::overlap_min(rect.min.y as int, parent.min.y as int) as i32,
        },
        size: IVec2 {
            x: crate::ui::rect::overlap_len(
                rect.min.x as int,
                rect.size.x as int,
                parent.min.x as int,
                parent.size.x as int,
            ) as i32,
            y: crate::ui::rect::overlap_len(
                rect.min.y as int,
                rect.size.y as int,
                parent.min.y as int,
                parent.size.y as int,
            ) as i32,
        },
    }
}

} // verus!
