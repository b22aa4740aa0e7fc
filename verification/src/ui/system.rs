use vstd::prelude::*;
use crate::ui::comp::Entity;
use crate::ui::rect::{IVec2, Rect2};
use crate::ui::region::{spec_clip, Region};
use crate::ui::res::{FocusedWidget, NextDepth};

verus! {

/// Whether root `x` comes before root `y` in an order by depth (nearest
/// first when `near_first`, farthest first otherwise), ties broken by the
/// position in the input.
pub open spec fn root_before(depths: Seq<u64>, near_first: bool, x: int, y: int) -> bool {
    if near_first {
        depths[x] > depths[y] || (depths[x] == depths[y] && x < y)
    } else {
        depths[x] < depths[y] || (depths[x] == depths[y] && x < y)
    }
}

/// `order` lists every position of `depths` once, sorted by depth as
/// `root_before` says: a stable sort by depth.
pub open spec fn is_depth_order(depths: Seq<u64>, near_first: bool, order: Seq<usize>) -> bool {
    &&& order.len() == depths.len()
    &&& order.no_duplicates()
    &&& forall|a: int| 0 <= a < order.len() ==> order[a] < depths.len()
    &&& forall|a: int, b: int|
        0 <= a < b < order.len() ==> root_before(depths, near_first, order[a] as int, order[b] as int)
}

/// Depths of the roots.
pub open spec fn root_depths(roots: Seq<(Entity, u64)>) -> Seq<u64> {
    roots.map_values(|e: (Entity, u64)| e.1)
}

/// Positions of `depths` in a stable order by depth.
pub fn depth_order(depths: &Vec<u64>, near_first: bool) -> (order: Vec<usize>)
    ensures
        is_depth_order(depths@, near_first, order@),
{
    let n = depths.len();
    let mut order: Vec<usize> = Vec::new();
    let mut i: usize = 0;
    while i < n
        invariant
            n == depths.len(),
            i <= n,
            order.len() == i,
            order@.no_duplicates(),
            forall|a: int| 0 <= a < order.len() ==> order@[a] < i,
            forall|a: int, b: int|
                0 <= a < b < order.len() ==> root_before(
                    depths@,
                    near_first,
                    order@[a] as int,
                    order@[b] as int,
                ),
        decreases n - i,
    {
        let d = depths[i];
        let mut j: usize = 0;
        while j < order.len()
            invariant
                n == depths.len(),
                i < n,
                d == depths@[i as int],
                j <= order.len(),
                order.len() == i,
                forall|a: int| 0 <= a < order.len() ==> order@[a] < i,
                forall|a: int|
                    0 <= a < j ==> if near_first {
                        depths@[order@[a] as int] >= d
                    } else {
                        depths@[order@[a] as int] <= d
                    },
            ensures
                j <= order.len(),
                forall|a: int|
                    0 <= a < j ==> if near_first {
                        depths@[order@[a] as int] >= d
                    } else {
                        depths@[order@[a] as int] <= d
                    },
                j < order.len() ==> if near_first {
                    depths@[order@[j as int] as int] < d
                } else {
                    depths@[order@[j as int] as int] > d
                },
            decreases order.len() - j,
        {
            let dj = depths[order[j]];
            if near_first {
                if dj < d {
                    break;
                }
            } else {
                if dj > d {
                    break;
                }
            }
            j = j + 1;
        }
        let ghost old_order = order@;
        proof {
            assert forall|a: int| j <= a < old_order.len() implies if near_first {
                depths@[old_order[a] as int] < d
            } else {
                depths@[old_order[a] as int] > d
            } by {
                if a > j {
                    assert(root_before(depths@, near_first, old_order[j as int] as int, old_order[a] as int));
                }
            }
        }
        order.insert(j, i);
        proof {
            assert forall|a: int| 0 <= a < order.len() implies order@[a] < i + 1 by {
                if a < j {
                    assert(order@[a] == old_order[a]);
                } else if a > j {
                    assert(order@[a] == old_order[a - 1]);
                }
            }
            assert forall|a: int, b: int| 0 <= a < b < order.len() implies order@[a] != order@[b] by {
                if a < j && b < j {
                } else if a < j && b == j {
                } else if a < j {
                    assert(order@[b] == old_order[b - 1]);
                } else if a == j {
                    assert(order@[b] == old_order[b - 1]);
                } else {
                    assert(order@[a] == old_order[a - 1]);
                    assert(order@[b] == old_order[b - 1]);
                }
            }
            assert forall|a: int, b: int| 0 <= a < b < order.len() implies root_before(
                depths@,
                near_first,
                order@[a] as int,
                order@[b] as int,
            ) by {
                if a < j && b < j {
                } else if a < j && b == j {
                } else if a < j {
                    assert(order@[b] == old_order[b - 1]);
                } else if a == j {
                    assert(order@[b] == old_order[b - 1]);
                } else {
                    assert(order@[a] == old_order[a - 1]);
                    assert(order@[b] == old_order[b - 1]);
                }
            }
        }
        i = i + 1;
    }
    order
}

/// The root entities ordered from the nearest (highest depth) to the farthest.
pub fn sort_from_near(roots: &Vec<(Entity, u64)>) -> (r: Vec<Entity>)
    ensures
        exists|order: Seq<usize>|
            #[trigger] is_depth_order(root_depths(roots@), true, order) && r@ == order.map_values(
                |k: usize| roots@[k as int].0,
            ),
{
    sort_roots(roots, true)
}

/// The root entities ordered from the farthest (lowest depth) to the nearest.
pub fn sort_from_far(roots: &Vec<(Entity, u64)>) -> (r: Vec<Entity>)
    ensures
        exists|order: Seq<usize>|
            #[trigger] is_depth_order(root_depths(roots@), false, order) && r@
                == order.map_values(|k: usize| roots@[k as int].0),
{
    sort_roots(roots, false)
}

fn sort_roots(roots: &Vec<(Entity, u64)>, near_first: bool) -> (r: Vec<Entity>)
    ensures
        exists|order: Seq<usize>|
            #[trigger] is_depth_order(root_depths(roots@), near_first, order) && r@
                == order.map_values(|k: usize| roots@[k as int].0),
{
    let mut depths: Vec<u64> = Vec::new();
    let mut i: usize = 0;
    while i < roots.len()
        invariant
            i <= roots.len(),
            depths@ == roots@.take(i as int).map_values(|e: (Entity, u64)| e.1),
        decreases roots.len() - i,
    {
        depths.push(roots[i].1);
        proof {
            assert(roots@.take(i + 1).map_values(|e: (Entity, u64)| e.1) =~= roots@.take(
                i as int,
            ).map_values(|e: (Entity, u64)| e.1).push(roots@[i as int].1));
        }
        i = i + 1;
    }
    proof {
        assert(roots@.take(roots.len() as int) =~= roots@);
    }
    let order = depth_order(&depths, near_first);
    let mut r: Vec<Entity> = Vec::new();
    let mut k: usize = 0;
    while k < order.len()
        invariant
            k <= order.len(),
            order.len() == roots.len(),
            forall|a: int| 0 <= a < order.len() ==> order@[a] < roots.len(),
            r@ == order@.take(k as int).map_values(|x: usize| roots@[x as int].0),
        decreases order.len() - k,
    {
        r.push(roots[order[k]].0);
        proof {
            assert(order@.take(k + 1).map_values(|x: usize| roots@[x as int].0) =~= order@.take(
                k as int,
            ).map_values(|x: usize| roots@[x as int].0).push(roots@[order@[k as int] as int].0));
        }
        k = k + 1;
    }
    proof {
        assert(order@.take(order.len() as int) =~= order@);
        assert(depths@ =~= root_depths(roots@));
        assert(is_depth_order(root_depths(roots@), near_first, order@));
    }
    r
}

/// What the input system reads of a widget: its entity, its placement (if
/// any), its children (positions in the same list) and whether it takes focus.
pub struct HitNode {
    pub entity: Entity,
    pub region: Option<Region>,
    pub children: Vec<usize>,
    pub focusable: bool,
}

/// Every child of every widget lies in the list.
pub open spec fn children_in_tree(nodes: Seq<HitNode>) -> bool {
    forall|i: int, k: int|
        0 <= i < nodes.len() && 0 <= k < nodes[i].children@.len() ==> #[trigger] nodes[i].children@[k]
            < nodes.len()
}

/// The rectangle of a widget placed by `region` inside `parent`.
pub open spec fn widget_rect(region: Region, parent: Rect2) -> Rect2 {
    spec_clip(region.anchored_rect(parent), parent)
}

/// The widget under `pos` in the subtree of `idx`, looking at most `depth`
/// levels deep: the deepest widget whose rectangle holds `pos`, looking at
/// children in order and taking the first hit; widgets without a region are
/// never hit, nor are their children. In a hierarchy without cycles no path
/// is longer than the list, so a depth of `nodes.len()` reaches every widget.
pub open spec fn hit(nodes: Seq<HitNode>, idx: int, pos: IVec2, parent: Rect2, depth: nat) -> Option<int>
    decreases depth, nodes[idx].children@.len() + 1,
{
    if depth == 0 || !(0 <= idx < nodes.len()) {
        None
    } else {
        match nodes[idx].region {
            None => None,
            Some(r) => {
                let rect = widget_rect(r, parent);
                if !rect.contains_point(pos) {
                    None
                } else {
                    match children_hit(nodes, idx, 0, pos, rect, depth) {
                        Some(h) => Some(h),
                        None => Some(idx),
                    }
                }
            },
        }
    }
}

/// The first hit among the children of `idx` from the `k`-th on, `idx`
/// being at `depth`.
pub open spec fn children_hit(nodes: Seq<HitNode>, idx: int, k: int, pos: IVec2, rect: Rect2, depth: nat) -> Option<int>
    decreases depth, nodes[idx].children@.len() - k,
{
    if depth == 0 || !(0 <= idx < nodes.len()) || k < 0 || k >= nodes[idx].children@.len() {
        None
    } else {
        let c = nodes[idx].children@[k] as int;
        let h = if c < nodes.len() {
            hit(nodes, c, pos, rect, (depth - 1) as nat)
        } else {
            None
        };
        match h {
            Some(x) => Some(x),
            None => children_hit(nodes, idx, k + 1, pos, rect, depth),
        }
    }
}

/// The rectangles that `hit` computes on its way fit in `i32`.
pub open spec fn hit_fits(nodes: Seq<HitNode>, idx: int, pos: IVec2, parent: Rect2, depth: nat) -> bool
    decreases depth, nodes[idx].children@.len() + 1,
{
    if depth == 0 || !(0 <= idx < nodes.len()) {
        true
    } else {
        match nodes[idx].region {
            None => true,
            Some(r) => {
                &&& r.get_rect_fits(parent)
                &&& {
                    let rect = widget_rect(r, parent);
                    !rect.contains_point(pos) || children_fit(nodes, idx, 0, pos, rect, depth)
                }
            },
        }
    }
}

/// The rectangles that `children_hit` computes on its way fit in `i32`.
pub open spec fn children_fit(nodes: Seq<HitNode>, idx: int, k: int, pos: IVec2, rect: Rect2, depth: nat) -> bool
    decreases depth, nodes[idx].children@.len() - k,
{
    if depth == 0 || !(0 <= idx < nodes.len()) || k < 0 || k >= nodes[idx].children@.len() {
        true
    } else {
        let c = nodes[idx].children@[k] as int;
        if c < nodes.len() {
            &&& hit_fits(nodes, c, pos, rect, (depth - 1) as nat)
            &&& (hit(nodes, c, pos, rect, (depth - 1) as nat) is Some || children_fit(
                nodes,
                idx,
                k + 1,
                pos,
                rect,
                depth,
            ))
        } else {
            children_fit(nodes, idx, k + 1, pos, rect, depth)
        }
    }
}

/// The rectangle of the `i`-th widget of `path`, each widget placed inside
/// the rectangle of the one before it, the first inside `parent`.
pub open spec fn path_rect(nodes: Seq<HitNode>, path: Seq<int>, parent: Rect2, i: int) -> Rect2
    decreases i,
{
    if i <= 0 {
        widget_rect(nodes[path[0]].region->0, parent)
    } else {
        widget_rect(nodes[path[i]].region->0, path_rect(nodes, path, parent, i - 1))
    }
}

/// `path` goes from a widget down to one of its descendants, child by child;
/// every widget on it has a region, and `pos` lies in each one's rectangle,
/// placed inside its parent's rectangle, the first inside `parent`.
pub open spec fn hit_path(nodes: Seq<HitNode>, path: Seq<int>, pos: IVec2, parent: Rect2) -> bool {
    &&& path.len() >= 1
    &&& forall|i: int|
        0 <= i < path.len() ==> {
            &&& 0 <= #[trigger] path[i] < nodes.len()
            &&& nodes[path[i]].region is Some
            &&& path_rect(nodes, path, parent, i).contains_point(pos)
        }
    &&& forall|i: int|
        0 <= i < path.len() - 1 ==> #[trigger] nodes[path[i]].children@.contains(path[i + 1] as usize)
}

proof fn lemma_path_rect_prepend(nodes: Seq<HitNode>, idx: int, p: Seq<int>, parent: Rect2, i: int)
    requires
        0 <= i < p.len(),
    ensures
        path_rect(nodes, seq![idx] + p, parent, i + 1) == path_rect(
            nodes,
            p,
            widget_rect(nodes[idx].region->0, parent),
            i,
        ),
    decreases i,
{
    let q = seq![idx] + p;
    assert(q[i + 1] == p[i]);
    if i > 0 {
        lemma_path_rect_prepend(nodes, idx, p, parent, i - 1);
    } else {
        assert(q[0] == idx);
        assert(path_rect(nodes, q, parent, 0) == widget_rect(nodes[idx].region->0, parent));
        assert(path_rect(nodes, p, widget_rect(nodes[idx].region->0, parent), 0) == widget_rect(
            nodes[p[0]].region->0,
            widget_rect(nodes[idx].region->0, parent),
        ));
    }
}

/// No child of `w` that has a region holds `pos` in its rectangle, placed
/// inside `rect`.
pub open spec fn no_child_holds(nodes: Seq<HitNode>, w: int, pos: IVec2, rect: Rect2) -> bool {
    forall|k: int|
        0 <= k < nodes[w].children@.len() && #[trigger] nodes[w].children@[k] < nodes.len()
            && nodes[nodes[w].children@[k] as int].region is Some ==> !widget_rect(
            nodes[nodes[w].children@[k] as int].region->0,
            rect,
        ).contains_point(pos)
}

/// `path` is a hit path at most `depth` long, and, when it is shorter, no
/// child of its last widget holds `pos`: the last widget is the deepest.
pub open spec fn deepest_hit_path(nodes: Seq<HitNode>, path: Seq<int>, pos: IVec2, parent: Rect2, depth: nat) -> bool {
    &&& hit_path(nodes, path, pos, parent)
    &&& path.len() <= depth
    &&& path.len() < depth ==> no_child_holds(
        nodes,
        path.last(),
        pos,
        path_rect(nodes, path, parent, path.len() - 1),
    )
}

proof fn lemma_children_hit_none(nodes: Seq<HitNode>, idx: int, k: int, pos: IVec2, rect: Rect2, depth: nat)
    requires
        0 <= idx < nodes.len(),
        0 <= k,
        depth >= 2,
        children_hit(nodes, idx, k, pos, rect, depth) is None,
    ensures
        forall|j: int|
            k <= j < nodes[idx].children@.len() && #[trigger] nodes[idx].children@[j] < nodes.len()
                && nodes[nodes[idx].children@[j] as int].region is Some ==> !widget_rect(
                nodes[nodes[idx].children@[j] as int].region->0,
                rect,
            ).contains_point(pos),
    decreases nodes[idx].children@.len() - k,
{
    if k < nodes[idx].children@.len() {
        lemma_children_hit_none(nodes, idx, k + 1, pos, rect, depth);
        let c = nodes[idx].children@[k] as int;
        if c < nodes.len() {
            assert(hit(nodes, c, pos, rect, (depth - 1) as nat) is None);
        }
    }
}

proof fn lemma_hit_path(nodes: Seq<HitNode>, idx: int, pos: IVec2, parent: Rect2, depth: nat)
    ensures
        hit(nodes, idx, pos, parent, depth) matches Some(w) ==> exists|path: Seq<int>|
            #[trigger] deepest_hit_path(nodes, path, pos, parent, depth) && path[0] == idx && path.last()
                == w,
    decreases depth, nodes[idx].children@.len() + 1,
{
    if depth == 0 || !(0 <= idx < nodes.len()) {
    } else {
        match nodes[idx].region {
            None => {},
            Some(r) => {
                let rect = widget_rect(r, parent);
                if rect.contains_point(pos) {
                    lemma_children_hit_path(nodes, idx, 0, pos, rect, depth);
                    match children_hit(nodes, idx, 0, pos, rect, depth) {
                        Some(w) => {
                            let (j, p) = choose|j: int, p: Seq<int>|
                                #![trigger deepest_hit_path(nodes, p, pos, rect, (depth - 1) as nat), nodes[idx].children@[j]]
                                0 <= j < nodes[idx].children@.len() && deepest_hit_path(
                                    nodes,
                                    p,
                                    pos,
                                    rect,
                                    (depth - 1) as nat,
                                ) && p[0] == nodes[idx].children@[j] as int && p.last() == w;
                            let q = seq![idx] + p;
                            assert forall|i: int| 0 < i < q.len() implies path_rect(nodes, q, parent, i)
                                == path_rect(nodes, p, rect, i - 1) by {
                                lemma_path_rect_prepend(nodes, idx, p, parent, i - 1);
                            }
                            assert forall|i: int| 0 <= i < q.len() implies {
                                &&& 0 <= #[trigger] q[i] < nodes.len()
                                &&& nodes[q[i]].region is Some
                                &&& path_rect(nodes, q, parent, i).contains_point(pos)
                            } by {
                                if i > 0 {
                                    assert(q[i] == p[i - 1]);
                                }
                            }
                            assert forall|i: int| 0 <= i < q.len() - 1 implies #[trigger] nodes[q[i]].children@.contains(
                                q[i + 1] as usize,
                            ) by {
                                if i == 0 {
                                    assert(q[0] == idx && q[1] == p[0]);
                                    assert(nodes[idx].children@[j] == q[1] as usize);
                                } else {
                                    assert(q[i] == p[i - 1] && q[i + 1] == p[i]);
                                    assert(nodes[p[i - 1]].children@.contains(p[(i - 1) + 1] as usize));
                                }
                            }
                            assert(hit_path(nodes, q, pos, parent));
                            assert(q.last() == w);
                            assert(path_rect(nodes, q, parent, q.len() - 1) == path_rect(nodes, p, rect, p.len() - 1));
                            assert(deepest_hit_path(nodes, q, pos, parent, depth));
                        },
                        None => {
                            let q = seq![idx];
                            assert(hit_path(nodes, q, pos, parent));
                            if depth >= 2 {
                                lemma_children_hit_none(nodes, idx, 0, pos, rect, depth);
                            }
                            assert(deepest_hit_path(nodes, q, pos, parent, depth));
                        },
                    }
                }
            },
        }
    }
}

proof fn lemma_children_hit_path(nodes: Seq<HitNode>, idx: int, k: int, pos: IVec2, rect: Rect2, depth: nat)
    ensures
        children_hit(nodes, idx, k, pos, rect, depth) matches Some(w) ==> exists|j: int, p: Seq<int>|
            #![trigger deepest_hit_path(nodes, p, pos, rect, (depth - 1) as nat), nodes[idx].children@[j]]
            0 <= j < nodes[idx].children@.len() && deepest_hit_path(nodes, p, pos, rect, (depth - 1) as nat)
                && p[0] == nodes[idx].children@[j] as int && p.last() == w,
    decreases depth, nodes[idx].children@.len() - k,
{
    if depth == 0 || !(0 <= idx < nodes.len()) || k < 0 || k >= nodes[idx].children@.len() {
    } else {
        let c = nodes[idx].children@[k] as int;
        if c < nodes.len() {
            lemma_hit_path(nodes, c, pos, rect, (depth - 1) as nat);
        }
        lemma_children_hit_path(nodes, idx, k + 1, pos, rect, depth);
        let h = if c < nodes.len() {
            hit(nodes, c, pos, rect, (depth - 1) as nat)
        } else {
            None
        };
        if let Some(w) = h {
            let p = choose|p: Seq<int>|
                #[trigger] deepest_hit_path(nodes, p, pos, rect, (depth - 1) as nat) && p[0] == c && p.last() == w;
            assert(deepest_hit_path(nodes, p, pos, rect, (depth - 1) as nat) && p[0]
                == nodes[idx].children@[k] as int && p.last() == w);
        }
    }
}

/// The widget found under `pos` is reached from `idx` child by child, each
/// child placed inside its parent's rectangle (the first inside `parent`),
/// and `pos` lies in every rectangle on the way; when the search went less
/// deep than it could, no child of the widget found holds `pos`.
pub proof fn law_hit_lies_in_nested_rects(nodes: Seq<HitNode>, idx: int, pos: IVec2, parent: Rect2, depth: nat)
    ensures
        hit(nodes, idx, pos, parent, depth) matches Some(w) ==> exists|path: Seq<int>|
            #[trigger] deepest_hit_path(nodes, path, pos, parent, depth) && path[0] == idx && path.last()
                == w,
{
    lemma_hit_path(nodes, idx, pos, parent, depth);
}

proof fn lemma_clip_max_fits(rect: Rect2, parent: Rect2)
    requires
        rect.intersect_fits(&parent),
    ensures
        spec_clip(rect, parent).max_fits(),
{
}

/// The widget under `pos` in the subtree of `idx`, placed inside `parent_rect`.
pub fn get_widget_under_pos(nodes: &Vec<HitNode>, idx: usize, pos: &IVec2, parent_rect: &Rect2) -> (r: Option<usize>)
    requires
        children_in_tree(nodes@),
        idx < nodes.len(),
        hit_fits(nodes@, idx as int, *pos, *parent_rect, nodes.len() as nat),
    ensures
        r is Some <==> hit(nodes@, idx as int, *pos, *parent_rect, nodes.len() as nat) is Some,
        r matches Some(w) ==> hit(nodes@, idx as int, *pos, *parent_rect, nodes.len() as nat) == Some(
            w as int,
        ) && w < nodes.len(),
        r matches Some(w) ==> exists|path: Seq<int>|
            #[trigger] deepest_hit_path(nodes@, path, *pos, *parent_rect, nodes.len() as nat) && path[0]
                == idx && path.last() == w,
{
    proof {
        lemma_hit_path(nodes@, idx as int, *pos, *parent_rect, nodes.len() as nat);
    }
    widget_under_pos(nodes, idx, pos, parent_rect, nodes.len())
}

fn widget_under_pos(nodes: &Vec<HitNode>, idx: usize, pos: &IVec2, parent_rect: &Rect2, depth: usize) -> (r: Option<usize>)
    requires
        children_in_tree(nodes@),
        idx < nodes.len(),
        hit_fits(nodes@, idx as int, *pos, *parent_rect, depth as nat),
    ensures
        r is Some <==> hit(nodes@, idx as int, *pos, *parent_rect, depth as nat) is Some,
        r matches Some(w) ==> hit(nodes@, idx as int, *pos, *parent_rect, depth as nat) == Some(w as int)
            && w < nodes.len(),
    decreases depth,
{
    if depth == 0 {
        return None;
    }
    match &nodes[idx].region {
        None => None,
        Some(region) => {
            let rect = region.get_rect(parent_rect);
            proof {
                lemma_clip_max_fits(region.anchored_rect(*parent_rect), *parent_rect);
            }
            if !rect.has_ivec2(pos) {
                return None;
            }
            let mut k: usize = 0;
            while k < nodes[idx].children.len()
                invariant
                    children_in_tree(nodes@),
                    idx < nodes.len(),
                    depth >= 1,
                    rect == widget_rect(*region, *parent_rect),
                    nodes[idx as int].region == Some(*region),
                    k <= nodes[idx as int].children@.len(),
                    children_hit(nodes@, idx as int, 0, *pos, rect, depth as nat) == children_hit(
                        nodes@,
                        idx as int,
                        k as int,
                        *pos,
                        rect,
                        depth as nat,
                    ),
                    children_fit(nodes@, idx as int, k as int, *pos, rect, depth as nat),
                decreases nodes[idx as int].children@.len() - k,
            {
                let c = nodes[idx].children[k];
                assert(c < nodes.len());
                if let Some(f) = widget_under_pos(nodes, c, pos, &rect, depth - 1) {
                    return Some(f);
                }
                k = k + 1;
            }
            Some(idx)
        },
    }
}

/// Whether every child of every widget lies in the list.
pub fn children_are_in_tree(nodes: &Vec<HitNode>) -> (b: bool)
    ensures
        b == children_in_tree(nodes@),
{
    let mut i: usize = 0;
    while i < nodes.len()
        invariant
            i <= nodes.len(),
            forall|a: int, k: int|
                0 <= a < i && 0 <= k < nodes@[a].children@.len() ==> #[trigger] nodes@[a].children@[k]
                    < nodes.len(),
        decreases nodes.len() - i,
    {
        let mut k: usize = 0;
        while k < nodes[i].children.len()
            invariant
                i < nodes.len(),
                k <= nodes@[i as int].children@.len(),
                forall|a: int, k2: int|
                    0 <= a < i && 0 <= k2 < nodes@[a].children@.len() ==> #[trigger] nodes@[a].children@[k2]
                        < nodes.len(),
                forall|k2: int| 0 <= k2 < k ==> #[trigger] nodes@[i as int].children@[k2] < nodes.len(),
            decreases nodes@[i as int].children@.len() - k,
        {
            if nodes[i].children[k] >= nodes.len() {
                return false;
            }
            k = k + 1;
        }
        i = i + 1;
    }
    true
}

/// Whether `hit` computes without leaving `i32` in the subtree of `idx`.
pub fn hit_fits_check(nodes: &Vec<HitNode>, idx: usize, pos: &IVec2, parent_rect: &Rect2) -> (b: bool)
    requires
        children_in_tree(nodes@),
        idx < nodes.len(),
    ensures
        b == hit_fits(nodes@, idx as int, *pos, *parent_rect, nodes.len() as nat),
{
    fits_under_pos(nodes, idx, pos, parent_rect, nodes.len())
}

fn fits_under_pos(nodes: &Vec<HitNode>, idx: usize, pos: &IVec2, parent_rect: &Rect2, depth: usize) -> (b: bool)
    requires
        children_in_tree(nodes@),
        idx < nodes.len(),
    ensures
        b == hit_fits(nodes@, idx as int, *pos, *parent_rect, depth as nat),
    decreases depth,
{
    if depth == 0 {
        return true;
    }
    match &nodes[idx].region {
        None => true,
        Some(region) => {
            if !region.get_rect_fits_check(parent_rect) {
                return false;
            }
            let rect = region.get_rect(parent_rect);
            proof {
                lemma_clip_max_fits(region.anchored_rect(*parent_rect), *parent_rect);
            }
            if !rect.has_ivec2(pos) {
                return true;
            }
            let mut k: usize = 0;
            while k < nodes[idx].children.len()
                invariant
                    children_in_tree(nodes@),
                    idx < nodes.len(),
                    depth >= 1,
                    rect == widget_rect(*region, *parent_rect),
                    nodes[idx as int].region == Some(*region),
                    k <= nodes[idx as int].children@.len(),
                    region.get_rect_fits(*parent_rect),
                    rect.contains_point(*pos),
                    children_fit(nodes@, idx as int, 0, *pos, rect, depth as nat) == children_fit(
                        nodes@,
                        idx as int,
                        k as int,
                        *pos,
                        rect,
                        depth as nat,
                    ),
                decreases nodes[idx as int].children@.len() - k,
            {
                let c = nodes[idx].children[k];
                assert(c < nodes.len());
                if !fits_under_pos(nodes, c, pos, &rect, depth - 1) {
                    return false;
                }
                if widget_under_pos(nodes, c, pos, &rect, depth - 1).is_some() {
                    return true;
                }
                k = k + 1;
            }
            true
        },
    }
}

/// Whether `process_mouse_click` computes without leaving `i32` for this click.
pub fn click_fits(nodes: &Vec<HitNode>, roots: &Vec<usize>, pos: &IVec2, screen_width: u32, screen_height: u32) -> (b: bool)
    requires
        children_in_tree(nodes@),
        forall|k: int| 0 <= k < roots.len() ==> #[trigger] roots@[k] < nodes.len(),
    ensures
        b == roots_fit(nodes@, roots@, 0, *pos, screen_rect(screen_width, screen_height)),
{
    let root_rect = Rect2::new(IVec2::new(0, 0), IVec2::new(screen_width as i32, screen_height as i32));
    let mut k: usize = 0;
    while k < roots.len()
        invariant
            children_in_tree(nodes@),
            forall|j: int| 0 <= j < roots.len() ==> #[trigger] roots@[j] < nodes.len(),
            root_rect == screen_rect(screen_width, screen_height),
            k <= roots.len(),
            roots_fit(nodes@, roots@, 0, *pos, root_rect) == roots_fit(nodes@, roots@, k as int, *pos, root_rect),
        decreases roots.len() - k,
    {
        let root = roots[k];
        if !hit_fits_check(nodes, root, pos, &root_rect) {
            return false;
        }
        if get_widget_under_pos(nodes, root, pos, &root_rect).is_some() {
            return true;
        }
        k = k + 1;
    }
    true
}

/// The rectangle of the screen.
pub open spec fn screen_rect(width: u32, height: u32) -> Rect2 {
    Rect2 { min: IVec2 { x: 0, y: 0 }, size: IVec2 { x: width as i32, y: height as i32 } }
}

/// The first root, from the `k`-th on, with a widget under `pos`: the root's
/// position in `roots` and the widget.
pub open spec fn first_root_hit(nodes: Seq<HitNode>, roots: Seq<usize>, k: int, pos: IVec2, rect: Rect2) -> Option<(int, int)>
    decreases roots.len() - k,
{
    if k < 0 || k >= roots.len() {
        None
    } else {
        match hit(nodes, roots[k] as int, pos, rect, nodes.len()) {
            Some(w) => Some((k, w)),
            None => first_root_hit(nodes, roots, k + 1, pos, rect),
        }
    }
}

/// The rectangles computed while looking for the first root hit, from the
/// `k`-th root on, fit in `i32`.
pub open spec fn roots_fit(nodes: Seq<HitNode>, roots: Seq<usize>, k: int, pos: IVec2, rect: Rect2) -> bool
    decreases roots.len() - k,
{
    if k < 0 || k >= roots.len() {
        true
    } else {
        &&& hit_fits(nodes, roots[k] as int, pos, rect, nodes.len())
        &&& (hit(nodes, roots[k] as int, pos, rect, nodes.len()) is Some || roots_fit(
            nodes,
            roots,
            k + 1,
            pos,
            rect,
        ))
    }
}

/// What a click at `pos` gives: with `first_root_hit` finding root `k` and
/// widget `w`, the outcome names them and the depth `depth` (the next one),
/// which is used up; the focus goes to `w` if it can take it, else nowhere.
/// With no hit there is no outcome, no depth is used and the focus is cleared.
pub open spec fn click_result(
    nodes: Seq<HitNode>,
    roots: Seq<usize>,
    pos: IVec2,
    screen_width: u32,
    screen_height: u32,
    depth: u64,
    depth_after: u64,
    focus_after: Option<Entity>,
    r: Option<ClickOutcome>,
) -> bool {
    match first_root_hit(nodes, roots, 0, pos, screen_rect(screen_width, screen_height)) {
        Some((k, w)) => {
            &&& r == Some(ClickOutcome { root: k as usize, widget: w as usize, depth })
            &&& depth_after == depth + 1
            &&& focus_after == if nodes[w].focusable {
                Some(nodes[w].entity)
            } else {
                None
            }
        },
        None => {
            &&& r is None
            &&& depth_after == depth
            &&& focus_after is None
        },
    }
}

/// Why `try_process_mouse_click` did not process a click.
#[derive(Copy, Clone, Debug, PartialEq, Eq, Structural)]
pub enum ClickRefused {
    /// A child of a widget is not in the list of widgets.
    ChildNotInTree,
    /// A root is not in the list of widgets.
    RootNotInTree,
    /// A rectangle on the way leaves `i32`.
    OutOfRange,
    /// No depth is left to raise a root to.
    DepthsUsedUp,
}

/// Whether every root lies in the list of `n` widgets.
fn roots_in_tree(roots: &Vec<usize>, n: usize) -> (b: bool)
    ensures
        b == forall|k: int| 0 <= k < roots.len() ==> #[trigger] roots@[k] < n,
{
    let mut k: usize = 0;
    while k < roots.len()
        invariant
            k <= roots.len(),
            forall|j: int| 0 <= j < k ==> #[trigger] roots@[j] < n,
        decreases roots.len() - k,
    {
        if roots[k] >= n {
            return false;
        }
        k = k + 1;
    }
    true
}

/// `process_mouse_click` on any input: the conditions it needs are tested
/// first, and the first that fails is reported with nothing changed.
pub fn try_process_mouse_click(
    nodes: &Vec<HitNode>,
    roots: &Vec<usize>,
    pos: &IVec2,
    screen_width: u32,
    screen_height: u32,
    next_depth: &mut NextDepth,
    focused_widget: &mut FocusedWidget,
) -> (r: Result<Option<ClickOutcome>, ClickRefused>)
    ensures
        !children_in_tree(nodes@) ==> r == Err::<Option<ClickOutcome>, ClickRefused>(ClickRefused::ChildNotInTree),
        children_in_tree(nodes@) && !(forall|k: int| 0 <= k < roots.len() ==> #[trigger] roots@[k] < nodes.len())
            ==> r == Err::<Option<ClickOutcome>, ClickRefused>(ClickRefused::RootNotInTree),
        children_in_tree(nodes@) && (forall|k: int| 0 <= k < roots.len() ==> #[trigger] roots@[k] < nodes.len())
            && !roots_fit(nodes@, roots@, 0, *pos, screen_rect(screen_width, screen_height)) ==> r
            == Err::<Option<ClickOutcome>, ClickRefused>(ClickRefused::OutOfRange),
        children_in_tree(nodes@) && (forall|k: int| 0 <= k < roots.len() ==> #[trigger] roots@[k] < nodes.len())
            && roots_fit(nodes@, roots@, 0, *pos, screen_rect(screen_width, screen_height))
            && old(next_depth).peek() == u64::MAX ==> r == Err::<Option<ClickOutcome>, ClickRefused>(
            ClickRefused::DepthsUsedUp,
        ),
        r is Err ==> final(next_depth).peek() == old(next_depth).peek() && final(focused_widget).focused()
            == old(focused_widget).focused(),
        r matches Ok(o) ==> click_result(
            nodes@,
            roots@,
            *pos,
            screen_width,
            screen_height,
            old(next_depth).peek(),
            final(next_depth).peek(),
            final(focused_widget).focused(),
            o,
        ),
{
    if !children_are_in_tree(nodes) {
        return Err(ClickRefused::ChildNotInTree);
    }
    if !roots_in_tree(roots, nodes.len()) {
        return Err(ClickRefused::RootNotInTree);
    }
    if !click_fits(nodes, roots, pos, screen_width, screen_height) {
        return Err(ClickRefused::OutOfRange);
    }
    if next_depth.peek_next() == u64::MAX {
        return Err(ClickRefused::DepthsUsedUp);
    }
    Ok(process_mouse_click(nodes, roots, pos, screen_width, screen_height, next_depth, focused_widget))
}

/// A mouse click that hit a widget: the position of its root in the root
/// list, the widget, and the depth its root was brought to.
#[derive(Copy, Clone, Debug, PartialEq, Eq, Structural)]
pub struct ClickOutcome {
    pub root: usize,
    pub widget: usize,
    pub depth: u64,
}

/// A mouse click at `pos`: the roots are tried nearest first; the first widget
/// under `pos` takes the focus if it can, and its root goes to the front. A
/// click that focuses nothing clears the focus.
pub fn process_mouse_click(
    nodes: &Vec<HitNode>,
    roots: &Vec<usize>,
    pos: &IVec2,
    screen_width: u32,
    screen_height: u32,
    next_depth: &mut NextDepth,
    focused_widget: &mut FocusedWidget,
) -> (r: Option<ClickOutcome>)
    requires
        children_in_tree(nodes@),
        forall|k: int| 0 <= k < roots.len() ==> #[trigger] roots@[k] < nodes.len(),
        old(next_depth).peek() < u64::MAX,
        roots_fit(nodes@, roots@, 0, *pos, screen_rect(screen_width, screen_height)),
    ensures
        click_result(
            nodes@,
            roots@,
            *pos,
            screen_width,
            screen_height,
            old(next_depth).peek(),
            final(next_depth).peek(),
            final(focused_widget).focused(),
            r,
        ),
{
    let root_rect = Rect2::new(IVec2::new(0, 0), IVec2::new(screen_width as i32, screen_height as i32));
    let mut focused = false;
    let mut result: Option<ClickOutcome> = None;
    let mut k: usize = 0;
    while k < roots.len()
        invariant_except_break
            next_depth.peek() == old(next_depth).peek(),
            result is None,
            !focused,
        invariant
            children_in_tree(nodes@),
            forall|j: int| 0 <= j < roots.len() ==> #[trigger] roots@[j] < nodes.len(),
            root_rect == screen_rect(screen_width, screen_height),
            k <= roots.len(),
            first_root_hit(nodes@, roots@, 0, *pos, root_rect) == first_root_hit(
                nodes@,
                roots@,
                k as int,
                *pos,
                root_rect,
            ),
            roots_fit(nodes@, roots@, k as int, *pos, root_rect),
            old(next_depth).peek() < u64::MAX,
        ensures
            result is None ==> first_root_hit(nodes@, roots@, 0, *pos, root_rect) is None && next_depth.peek() == old(next_depth).peek() && !focused,
            result matches Some(o) ==> {
                &&& first_root_hit(nodes@, roots@, 0, *pos, root_rect) == Some((o.root as int, o.widget as int))
                &&& o.depth == old(next_depth).peek()
                &&& next_depth.peek() == old(next_depth).peek() + 1
                &&& focused == nodes@[o.widget as int].focusable
                &&& focused ==> focused_widget.focused() == Some(nodes@[o.widget as int].entity)
            },
        decreases roots.len() - k,
    {
        let root = roots[k];
        if let Some(widget) = get_widget_under_pos(nodes, root, pos, &root_rect) {
            assert(first_root_hit(nodes@, roots@, k as int, *pos, root_rect) == Some((k as int, widget as int)));
            if nodes[widget].focusable {
                focused_widget.set(nodes[widget].entity);
                focused = true;
            }
            let top_depth = next_depth.get_next();
            result = Some(ClickOutcome { root: k, widget, depth: top_depth });
            break;
        }
        k = k + 1;
    }
    if !focused {
        focused_widget.clear();
    }
    result
}

} // verus!
