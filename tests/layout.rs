use sabiniwm::focused_vec::NonEmptyFocusedVec;
use sabiniwm::geometry::{Border, Rect, Rgba, Thickness, WindowProps};
use sabiniwm::layout::{
    LayoutFull, LayoutMessage, LayoutMessageSelect, LayoutMessageToggle, LayoutNode,
    LayoutNodeBorder, LayoutNodeMargin, LayoutNodeSelect, LayoutNodeToggle, LayoutTall,
    LayoutTreeBuilder,
};
use sabiniwm::window::WindowId;

fn plain(geometry: Rect) -> WindowProps {
    let black = Rgba { r: 0, g: 0, b: 0, a: 0xff };
    WindowProps {
        geometry,
        border: Border { dim: Thickness::uniform(0), active_rgba: black, inactive_rgba: black },
    }
}

fn tall_only() -> LayoutTreeBuilder {
    LayoutTreeBuilder::new(vec![LayoutNode::Tall(LayoutTall {})], 0)
}

#[test]
fn tall_single_window_gets_full_rect() {
    let tree = tall_only().build().unwrap();
    let rect = Rect::new(0, 0, 100, 100);
    let q = tree.layout(tree.root_id(), rect, &vec![WindowId(1)], 0);
    assert_eq!(q, vec![(WindowId(1), plain(rect))]);
}

#[test]
fn tall_three_windows_split_left_and_right() {
    let tree = tall_only().build().unwrap();
    let rect = Rect::new(0, 0, 100, 100);
    let (a, b, c) = (WindowId(1), WindowId(2), WindowId(3));
    let q = tree.layout(tree.root_id(), rect, &vec![a, b, c], 0);
    assert_eq!(
        q,
        vec![
            (a, plain(Rect::new(0, 0, 50, 100))),
            (b, plain(Rect::new(50, 0, 50, 50))),
            (c, plain(Rect::new(50, 50, 50, 50))),
        ]
    );
}

#[test]
fn tall_no_window_emits_nothing() {
    let tree = tall_only().build().unwrap();
    let q = tree.layout(tree.root_id(), Rect::new(0, 0, 100, 100), &vec![], 0);
    assert!(q.is_empty());
}

#[test]
fn tall_uneven_strips_cover_the_right_half() {
    let tree = tall_only().build().unwrap();
    let rect = Rect::new(10, 20, 101, 100);
    let ids = vec![WindowId(1), WindowId(2), WindowId(3), WindowId(4)];
    let q = tree.layout(tree.root_id(), rect, &ids, 0);
    assert_eq!(q[0].1.geometry, Rect::new(10, 20, 50, 100));
    assert_eq!(q[1].1.geometry, Rect::new(60, 20, 51, 33));
    assert_eq!(q[2].1.geometry, Rect::new(60, 53, 51, 33));
    assert_eq!(q[3].1.geometry, Rect::new(60, 86, 51, 34));
}

#[test]
fn full_shows_only_the_focused_window() {
    let tree = LayoutTreeBuilder::new(vec![LayoutNode::Full(LayoutFull {})], 0).build().unwrap();
    let rect = Rect::new(0, 0, 80, 60);
    let q = tree.layout(0, rect, &vec![WindowId(1), WindowId(2)], 1);
    assert_eq!(q, vec![(WindowId(2), plain(rect))]);
    let q = tree.layout(0, rect, &vec![], 0);
    assert!(q.is_empty());
}

fn select_tree() -> LayoutTreeBuilder {
    let nodes = vec![
        LayoutNode::Tall(LayoutTall {}),
        LayoutNode::Full(LayoutFull {}),
        LayoutNode::Select(LayoutNodeSelect::new(NonEmptyFocusedVec::new(vec![0, 1], 0))),
        LayoutNode::Margin(LayoutNodeMargin::new(2, Thickness::uniform(8))),
    ];
    LayoutTreeBuilder::new(nodes, 3)
}

#[test]
fn margin_shrinks_every_rect() {
    let tree = select_tree().build().unwrap();
    let rect = Rect::new(0, 0, 100, 100);
    let q = tree.layout(tree.root_id(), rect, &vec![WindowId(1), WindowId(2)], 0);
    assert_eq!(q[0].1.geometry, Rect::new(8, 8, 34, 84));
    assert_eq!(q[1].1.geometry, Rect::new(58, 8, 34, 84));
}

#[test]
fn select_message_switches_the_child() {
    let mut tree = select_tree().build().unwrap();
    let rect = Rect::new(0, 0, 100, 100);
    let handled = tree.handle_message(tree.root_id(), &LayoutMessage::Select(LayoutMessageSelect::Next));
    assert!(handled);
    let q = tree.layout(tree.root_id(), rect, &vec![WindowId(1), WindowId(2)], 1);
    assert_eq!(q, vec![(WindowId(2), plain(Rect::new(8, 8, 84, 84)))]);
    // Prev wraps back to the first child.
    assert!(tree.handle_message(tree.root_id(), &LayoutMessage::Select(LayoutMessageSelect::Prev)));
    let q = tree.layout(tree.root_id(), rect, &vec![WindowId(1), WindowId(2)], 1);
    assert_eq!(q.len(), 2);
}

#[test]
fn unrecognized_message_passes() {
    let mut tree = select_tree().build().unwrap();
    assert!(!tree.handle_message(tree.root_id(), &LayoutMessage::Toggle(LayoutMessageToggle)));
    let mut leaf = tall_only().build().unwrap();
    assert!(!leaf.handle_message(0, &LayoutMessage::Select(LayoutMessageSelect::Next)));
}

#[test]
fn toggle_and_border_decorate() {
    let border = Border {
        dim: Thickness::uniform(2),
        active_rgba: Rgba::from_rgba(0x556b2fff),
        inactive_rgba: Rgba::from_rgba(0x00000000),
    };
    let nodes = vec![
        LayoutNode::Tall(LayoutTall {}),
        LayoutNode::Border(LayoutNodeBorder::new(0, border)),
        LayoutNode::Full(LayoutFull {}),
        LayoutNode::Toggle(LayoutNodeToggle::new(1, 2)),
    ];
    let mut tree = LayoutTreeBuilder::new(nodes, 3).build().unwrap();
    let rect = Rect::new(0, 0, 100, 100);
    let q = tree.layout(3, rect, &vec![WindowId(7)], 0);
    assert_eq!(q, vec![(WindowId(7), WindowProps { geometry: Rect::new(2, 2, 96, 96), border })]);
    assert!(tree.handle_message(3, &LayoutMessage::Toggle(LayoutMessageToggle)));
    let q = tree.layout(3, rect, &vec![WindowId(7)], 0);
    assert_eq!(q, vec![(WindowId(7), plain(rect))]);
}

#[test]
fn malformed_templates_are_refused() {
    // A node referring to itself or to a later node could form a cycle.
    let cyclic = LayoutTreeBuilder::new(vec![LayoutNode::Margin(LayoutNodeMargin::new(0, Thickness::uniform(1)))], 0);
    assert!(cyclic.build().is_none());
    let forward = LayoutTreeBuilder::new(
        vec![LayoutNode::Margin(LayoutNodeMargin::new(1, Thickness::uniform(1))), LayoutNode::Tall(LayoutTall {})],
        1,
    );
    assert!(forward.build().is_none());
    let no_root = LayoutTreeBuilder::new(vec![LayoutNode::Tall(LayoutTall {})], 1);
    assert!(no_root.build().is_none());
}

#[test]
fn downcast_ref_reads_the_payload() {
    let m = LayoutMessage::Select(LayoutMessageSelect::Prev);
    assert_eq!(m.downcast_ref::<LayoutMessageSelect>(), Some(&LayoutMessageSelect::Prev));
    assert!(m.downcast_ref::<LayoutMessageToggle>().is_none());
}
