use voxrs::ui::anchor::{AnchorHorizon, AnchorVertical};
use voxrs::ui::rect::{IVec2, Rect2};
use voxrs::ui::region::{Region, WidgetPlacementInfo};

fn v(x: i32, y: i32) -> IVec2 {
    IVec2::new(x, y)
}

#[test]
fn get_rect_test() {
    let parent = Rect2::new(v(10, 20), v(200, 100));

    let region = Region::new(WidgetPlacementInfo {
        pos: v(20, 30),
        h_anchor: Some(AnchorHorizon::Left),
        v_anchor: Some(AnchorVertical::Top),
        size: v(10, 20),
    });

    let rect = region.get_rect(&parent);
    assert_eq!(rect, Rect2::new(v(30, 50), v(10, 20)));

    // Right Anchor
    let region = Region::new(WidgetPlacementInfo {
        pos: v(-10, 10),
        h_anchor: Some(AnchorHorizon::Right),
        v_anchor: None,
        size: v(10, 20),
    });

    let rect = region.get_rect(&parent);
    assert_eq!(rect, Rect2::new(v(190, 30), v(10, 20)));

    // Bottom Anchor
    let region = Region::new(WidgetPlacementInfo {
        pos: v(10, -10),
        h_anchor: None,
        v_anchor: Some(AnchorVertical::Bottom),
        size: v(10, 20),
    });

    let rect = region.get_rect(&parent);
    assert_eq!(rect, Rect2::new(v(20, 90), v(10, 20)));

    // V-Center Anchor
    let region = Region::new(WidgetPlacementInfo {
        pos: v(10, 10),
        h_anchor: None,
        v_anchor: Some(AnchorVertical::Center),
        size: v(80, 80),
    });

    let rect = region.get_rect(&parent);
    assert_eq!(rect, Rect2::new(v(20, 40), v(80, 80)));
}

#[test]
fn get_rect_clips_to_parent() {
    let parent = Rect2::new(v(0, 0), v(100, 100));
    let region = Region::new(WidgetPlacementInfo {
        pos: v(90, -5),
        h_anchor: None,
        v_anchor: None,
        size: v(30, 30),
    });
    assert_eq!(region.get_rect(&parent), Rect2::new(v(90, 0), v(10, 25)));

    let outside = Region::new(WidgetPlacementInfo {
        pos: v(200, 200),
        h_anchor: None,
        v_anchor: None,
        size: v(10, 10),
    });
    let r = outside.get_rect(&parent);
    assert_eq!(r.size, v(0, 0));
}

#[test]
fn fill_anchor_covers_parent() {
    let parent = Rect2::new(v(5, 7), v(50, 60));
    let region = Region::new(WidgetPlacementInfo {
        pos: v(3, 3),
        h_anchor: Some(AnchorHorizon::Fill),
        v_anchor: Some(AnchorVertical::Fill),
        size: v(1, 1),
    });
    assert_eq!(region.get_rect(&parent), parent);
}

#[test]
fn center_anchor_on_small_parent() {
    let parent = Rect2::new(v(0, 0), v(10, 10));
    let region = Region::new(WidgetPlacementInfo {
        pos: v(1, 0),
        h_anchor: Some(AnchorHorizon::Center),
        v_anchor: None,
        size: v(30, 5),
    });
    // no room left: the widget starts at the parent's start plus its offset
    assert_eq!(region.get_rect(&parent), Rect2::new(v(1, 0), v(9, 5)));
}

#[test]
fn has_ivec2_is_half_open() {
    let r = Rect2::new(v(0, 0), v(10, 10));
    assert!(r.has_ivec2(&v(0, 0)));
    assert!(r.has_ivec2(&v(9, 9)));
    assert!(!r.has_ivec2(&v(10, 5)));
    assert!(!r.has_ivec2(&v(-1, 5)));
}
