use voxrs::ui::anchor::{AnchorHorizon, AnchorVertical};
use voxrs::ui::builder::WidgetBuilder;
use voxrs::ui::comp::{Depth, Entity, Hierarchy, InteractionHandler, Root};
use voxrs::ui::id::{WidgetEvent, WidgetId, WidgetNodeId};
use voxrs::ui::input::{Interaction, KeyCode, KeyboardInput, WidgetInput};
use voxrs::ui::rect::IVec2;
use voxrs::ui::region::{Region, WidgetPlacementInfo};
use voxrs::ui::res::{FocusedWidget, InputQueue, NextDepth, OutputQueue, WidgetRoots};
use voxrs::ui::system::{
    click_fits, get_widget_under_pos, hit_fits_check, process_mouse_click, sort_from_far, sort_from_near,
    children_are_in_tree, try_process_mouse_click, ClickOutcome, ClickRefused, HitNode,
};
use voxrs::ui::console::Console;
use voxrs::ui::rect::Rect2;
use voxrs::ui::terminal::{TerminalInfo, TerminalWidget};
use voxrs::ui::widget::{
    process_input_char, process_keyboard_input, EditableTextWidget, PanelWidget, Widget,
};

fn placement(x: i32, y: i32, w: i32, h: i32) -> WidgetPlacementInfo {
    WidgetPlacementInfo {
        pos: IVec2::new(x, y),
        h_anchor: Some(AnchorHorizon::Left),
        v_anchor: Some(AnchorVertical::Top),
        size: IVec2::new(w, h),
    }
}

#[test]
fn editable_text_typing() {
    let mut w = Widget::EditableText(EditableTextWidget { font_size: 10, contents: String::new() });
    process_input_char(&mut w, 'h');
    process_input_char(&mut w, '\n');
    process_input_char(&mut w, 'i');
    let back = KeyboardInput::new(KeyCode::Back);
    let ret = KeyboardInput::new(KeyCode::Return);
    assert!(process_keyboard_input(&mut w, &back).is_none());
    process_input_char(&mut w, 'o');
    match process_keyboard_input(&mut w, &ret) {
        Some(Interaction::TextEdited(s)) => assert_eq!(s, "ho"),
        _ => panic!("expected edited text"),
    }
}

#[test]
fn terminal_keys() {
    let info = TerminalInfo { placement: placement(0, 0, 10, 10), font_size: 12, contents: vec!["x".to_string()] };
    let mut w = Widget::Terminal(TerminalWidget::new(&info));
    for c in "ls".chars() {
        process_input_char(&mut w, c);
    }
    match process_keyboard_input(&mut w, &KeyboardInput::new(KeyCode::Return)) {
        Some(Interaction::TerminalInput(s)) => assert_eq!(s, "ls"),
        _ => panic!("expected terminal input"),
    }
    assert!(process_keyboard_input(&mut w, &KeyboardInput::new(KeyCode::Up)).is_none());
    match &w {
        Widget::Terminal(t) => {
            assert_eq!(t.input, "ls");
            assert_eq!(t.contents, vec!["x".to_string(), "ls".to_string()]);
        }
        _ => panic!("terminal expected"),
    }
    process_keyboard_input(&mut w, &KeyboardInput::new(KeyCode::Back));
    match &w {
        Widget::Terminal(t) => assert_eq!(t.input, "l"),
        _ => panic!("terminal expected"),
    }
}

#[test]
fn panel_ignores_keys() {
    let mut w = Widget::Panel(PanelWidget::new());
    process_input_char(&mut w, 'a');
    assert!(process_keyboard_input(&mut w, &KeyboardInput::new(KeyCode::Return)).is_none());
}

#[test]
fn keyboard_input_kinds() {
    assert!(KeyboardInput::new(KeyCode::Return).is_return());
    assert!(!KeyboardInput::new(KeyCode::Return).is_back());
    assert!(KeyboardInput::new(KeyCode::Back).is_back());
    assert!(KeyboardInput::new(KeyCode::Up).is_up());
    assert!(KeyboardInput::new(KeyCode::Down).is_down());
    assert!(!KeyboardInput::new(KeyCode::Other).is_down());
}

#[test]
fn roots_sorted_by_depth() {
    let roots = vec![(Entity(1), 5u64), (Entity(2), 9), (Entity(3), 1), (Entity(4), 5)];
    assert_eq!(sort_from_near(&roots), vec![Entity(2), Entity(1), Entity(4), Entity(3)]);
    assert_eq!(sort_from_far(&roots), vec![Entity(3), Entity(1), Entity(4), Entity(2)]);
    assert_eq!(sort_from_near(&Vec::new()), Vec::<Entity>::new());
}

fn tree() -> Vec<HitNode> {
    vec![
        HitNode { entity: Entity(10), region: Some(Region::new(placement(0, 0, 100, 100))), children: vec![1, 2], focusable: false },
        HitNode { entity: Entity(11), region: Some(Region::new(placement(10, 10, 20, 20))), children: vec![], focusable: true },
        HitNode { entity: Entity(12), region: Some(Region::new(placement(50, 50, 20, 20))), children: vec![], focusable: false },
        HitNode { entity: Entity(13), region: Some(Region::new(placement(200, 200, 50, 50))), children: vec![], focusable: false },
    ]
}

#[test]
fn hit_test_finds_deepest_widget() {
    let nodes = tree();
    let screen = Rect2::new(IVec2::new(0, 0), IVec2::new(800, 600));
    assert_eq!(get_widget_under_pos(&nodes, 0, &IVec2::new(15, 15), &screen), Some(1));
    assert_eq!(get_widget_under_pos(&nodes, 0, &IVec2::new(55, 60), &screen), Some(2));
    assert_eq!(get_widget_under_pos(&nodes, 0, &IVec2::new(90, 5), &screen), Some(0));
    assert_eq!(get_widget_under_pos(&nodes, 0, &IVec2::new(150, 5), &screen), None);
}

#[test]
fn mouse_click_focuses_and_raises() {
    let nodes = tree();
    let roots = vec![3, 0];
    let mut next_depth = NextDepth::default();
    let mut focused = FocusedWidget::default();

    let r = process_mouse_click(&nodes, &roots, &IVec2::new(15, 15), 800, 600, &mut next_depth, &mut focused);
    assert_eq!(r, Some(ClickOutcome { root: 1, widget: 1, depth: 0 }));
    assert_eq!(focused.get(), Some(Entity(11)));

    let r = process_mouse_click(&nodes, &roots, &IVec2::new(55, 55), 800, 600, &mut next_depth, &mut focused);
    assert_eq!(r, Some(ClickOutcome { root: 1, widget: 2, depth: 1 }));
    assert!(!focused.has_focus());

    let r = process_mouse_click(&nodes, &roots, &IVec2::new(210, 210), 800, 600, &mut next_depth, &mut focused);
    assert_eq!(r, Some(ClickOutcome { root: 0, widget: 3, depth: 2 }));

    focused.set(Entity(11));
    let r = process_mouse_click(&nodes, &roots, &IVec2::new(700, 500), 800, 600, &mut next_depth, &mut focused);
    assert_eq!(r, None);
    assert_eq!(focused.get(), None);
    assert_eq!(next_depth.get_next(), 3);
}

#[test]
fn builder_tracks_parents() {
    let mut b = WidgetBuilder::new();
    assert_eq!(b.add_widget(Entity(1)), None);
    b.begin_child();
    assert_eq!(b.get_parent(), Some(Entity(1)));
    assert_eq!(b.add_widget(Entity(2)), Some(Entity(1)));
    let mut q = None;
    b.query_id(&mut q);
    assert_eq!(q, Some(Entity(2)));
    b.end_child();
    assert_eq!(b.get_parent(), None);
    assert_eq!(b.add_widget(Entity(3)), None);
}

#[test]
fn queues_keep_order() {
    let mut inputs = InputQueue::default();
    inputs.add(WidgetInput::Character('a'));
    inputs.add(WidgetInput::MouseClick { pos: IVec2::new(1, 2) });
    assert_eq!(inputs.as_slice().len(), 2);
    assert_eq!(inputs.iter().count(), 2);
    assert_eq!(inputs.pop(), Some(WidgetInput::Character('a')));
    assert_eq!(inputs.pop(), Some(WidgetInput::MouseClick { pos: IVec2::new(1, 2) }));
    assert_eq!(inputs.pop(), None);
    inputs.add(WidgetInput::Character('b'));
    inputs.clear();
    assert!(inputs.pop().is_none());

    let mut outputs: OutputQueue<u32> = OutputQueue::default();
    outputs.add(1);
    outputs.add(2);
    assert_eq!(outputs.iter().copied().collect::<Vec<_>>(), vec![1, 2]);
    outputs.clear();
    assert_eq!(outputs.as_slice().len(), 0);
    outputs.add(3);
    outputs.add(4);
    assert_eq!(outputs.into_iter().collect::<Vec<_>>(), vec![3, 4]);
}

#[test]
fn interaction_handler_queues_messages() {
    let handler = InteractionHandler::new(|e: Entity, i: Interaction| match i {
        Interaction::Clicked => Some(e.0 * 2),
        _ => None,
    });
    let mut out = OutputQueue::default();
    handler.process(Entity(4), Interaction::Clicked, &mut out);
    handler.process(Entity(4), Interaction::TextEdited("x".to_string()), &mut out);
    assert_eq!(out.as_slice(), &[8]);
}

#[test]
fn components_and_resources() {
    let mut root = Root::new(3);
    assert_eq!(root.get_depth(), 3);
    root.set_depth(9);
    assert_eq!(root.get_depth(), 9);
    let _ = Depth::new(2);
    let h = Hierarchy::new(Some(Entity(1)));
    assert_eq!(h.parent, Some(Entity(1)));
    assert!(h.children.is_empty());

    let mut nd = NextDepth::default();
    assert_eq!(nd.get_next(), 0);
    assert_eq!(nd.get_next(), 1);

    let mut roots = WidgetRoots::new();
    roots.add_to_root(Entity(1));
    roots.add_to_root(Entity(2));
    roots.add_to_root(Entity(1));
    roots.remove_from_root(Entity(1));
    assert_eq!(roots.roots, vec![Entity(2), Entity(1)]);

    let mut id = WidgetId::new(1);
    id.advance(2);
    assert_eq!(id, WidgetId::new(3));
    assert_eq!(WidgetNodeId::default(), WidgetNodeId::new(0));
    assert_eq!(WidgetEvent::ButtonClicked(WidgetNodeId::new(2)), WidgetEvent::ButtonClicked(WidgetNodeId(2)));
}

#[test]
fn children_must_be_in_the_list() {
    assert!(children_are_in_tree(&tree()));
    let mut out_of_list = tree();
    out_of_list[2].children.push(9);
    assert!(!children_are_in_tree(&out_of_list));
}

#[test]
fn hit_test_accepts_any_order_of_widgets() {
    // the panel comes after its children in the list
    let nodes = vec![
        HitNode { entity: Entity(11), region: Some(Region::new(placement(10, 10, 20, 20))), children: vec![], focusable: true },
        HitNode { entity: Entity(12), region: Some(Region::new(placement(50, 50, 20, 20))), children: vec![], focusable: false },
        HitNode { entity: Entity(10), region: Some(Region::new(placement(0, 0, 100, 100))), children: vec![0, 1], focusable: false },
    ];
    assert!(children_are_in_tree(&nodes));
    let screen = Rect2::new(IVec2::new(0, 0), IVec2::new(800, 600));
    assert_eq!(get_widget_under_pos(&nodes, 2, &IVec2::new(15, 15), &screen), Some(0));
    assert_eq!(get_widget_under_pos(&nodes, 2, &IVec2::new(55, 60), &screen), Some(1));
    assert_eq!(get_widget_under_pos(&nodes, 2, &IVec2::new(90, 5), &screen), Some(2));
    let mut next_depth = NextDepth::default();
    let mut focused = FocusedWidget::default();
    let r = try_process_mouse_click(&nodes, &vec![2], &IVec2::new(15, 15), 800, 600, &mut next_depth, &mut focused);
    assert_eq!(r, Ok(Some(ClickOutcome { root: 0, widget: 0, depth: 0 })));
    assert_eq!(focused.get(), Some(Entity(11)));
}

#[test]
fn hit_computation_range_is_checked() {
    let nodes = tree();
    let screen = Rect2::new(IVec2::new(0, 0), IVec2::new(800, 600));
    assert!(hit_fits_check(&nodes, 0, &IVec2::new(15, 15), &screen));
    assert!(click_fits(&nodes, &vec![3, 0], &IVec2::new(15, 15), 800, 600));

    let far = vec![HitNode {
        entity: Entity(1),
        region: Some(Region::new(placement(i32::MAX, 0, 10, 10))),
        children: vec![],
        focusable: false,
    }];
    let region = far[0].region.unwrap();
    assert!(!region.get_rect_fits_check(&screen));
    assert!(!hit_fits_check(&far, 0, &IVec2::new(0, 0), &screen));
    assert!(!click_fits(&far, &vec![0], &IVec2::new(0, 0), 800, 600));
}

#[test]
fn console_builder() {
    let _console = Console::build().pos(IVec2::new(5, 5)).size(IVec2::new(50, 20)).build();
}

#[test]
fn checked_click_reports_what_it_cannot_process() {
    let nodes = tree();
    let mut next_depth = NextDepth::default();
    let mut focused = FocusedWidget::default();
    let pos = IVec2::new(15, 15);

    let r = try_process_mouse_click(&nodes, &vec![3, 0], &pos, 800, 600, &mut next_depth, &mut focused);
    assert_eq!(r, Ok(Some(ClickOutcome { root: 1, widget: 1, depth: 0 })));
    assert_eq!(focused.get(), Some(Entity(11)));

    let mut bad = tree();
    bad[1].children.push(9);
    let r = try_process_mouse_click(&bad, &vec![0], &pos, 800, 600, &mut next_depth, &mut focused);
    assert_eq!(r, Err(ClickRefused::ChildNotInTree));

    let r = try_process_mouse_click(&nodes, &vec![7], &pos, 800, 600, &mut next_depth, &mut focused);
    assert_eq!(r, Err(ClickRefused::RootNotInTree));

    let far = vec![HitNode {
        entity: Entity(1),
        region: Some(Region::new(placement(i32::MAX, 0, 10, 10))),
        children: vec![],
        focusable: false,
    }];
    let r = try_process_mouse_click(&far, &vec![0], &pos, 800, 600, &mut next_depth, &mut focused);
    assert_eq!(r, Err(ClickRefused::OutOfRange));
    // refused clicks change nothing
    assert_eq!(focused.get(), Some(Entity(11)));
    assert_eq!(next_depth.get_next(), 1);
}
