use sabiniwm::config::{get_xkb_config, make_layout_tree_builder, make_workspace_tags, ConfigDelegateUnstableDefault};
use sabiniwm::geometry::{Border, Rect, Rgba, Thickness, WindowProps};
use sabiniwm::layout::{LayoutNode, LayoutTall, LayoutTreeBuilder};
use sabiniwm::stackset::{StackSet, WindowFocusType, WorkspaceTag};
use sabiniwm::view::OutputView;
use sabiniwm::window::WindowId;

fn tags(n: usize) -> Vec<WorkspaceTag> {
    (0..n).map(|i| WorkspaceTag(format!("{}", i))).collect()
}

fn builder() -> LayoutTreeBuilder {
    LayoutTreeBuilder::new(vec![LayoutNode::Tall(LayoutTall {})], 0)
}

fn all_ids(ss: &StackSet) -> Vec<WindowId> {
    let mut v = vec![];
    for ws in ss.workspaces().as_vec() {
        v.extend(ws.stack.as_vec().iter().copied());
    }
    v.extend(ss.float_windows.iter().map(|f| f.id));
    v.sort_by_key(|w| w.0);
    v
}

#[test]
fn new_needs_tags_and_a_valid_template() {
    assert!(StackSet::new(vec![], &builder()).is_none());
    let bad = LayoutTreeBuilder::new(vec![LayoutNode::Tall(LayoutTall {})], 3);
    assert!(StackSet::new(tags(2), &bad).is_none());
    let ss = StackSet::new(tags(3), &builder()).unwrap();
    assert_eq!(ss.workspaces().len(), 3);
    assert_eq!(ss.workspaces().as_vec()[2].tag, WorkspaceTag("2".to_string()));
    assert_eq!(ss.window_focus_type, WindowFocusType::Stack);
}

#[test]
fn every_window_sits_in_exactly_one_place() {
    let mut ss = StackSet::new(tags(2), &builder()).unwrap();
    let ids: Vec<WindowId> = (0..5).map(WindowId).collect();
    for &id in &ids[..3] {
        ss.register_window(id);
    }
    ss.workspace_focus(1);
    for &id in &ids[3..] {
        ss.register_window(id);
    }
    ss.make_window_float(ids[1], Rect::new(1, 2, 3, 4));
    ss.make_window_float(ids[4], Rect::new(5, 6, 7, 8));
    ss.set_focus(ids[1]);
    assert_eq!(ss.focused_window(), Some(ids[1]));
    assert_eq!(all_ids(&ss), ids);
    ss.sink_focused_float();
    assert_eq!(all_ids(&ss), ids);
    ss.delete_window(ids[0]);
    ss.delete_window(ids[4]);
    ss.delete_window(WindowId(99));
    assert_eq!(all_ids(&ss), vec![ids[1], ids[2], ids[3]]);
    assert_eq!(ss.window_focus_type, WindowFocusType::Stack);
}

#[test]
fn delete_clamps_the_focus() {
    let mut ss = StackSet::new(tags(1), &builder()).unwrap();
    for i in 0..3 {
        ss.register_window(WindowId(i));
    }
    ss.set_focus(WindowId(2));
    assert_eq!(ss.workspaces().focus().stack.focused_index(), 2);
    ss.delete_window(WindowId(2));
    assert_eq!(ss.workspaces().focus().stack.focused_index(), 1);
    assert_eq!(ss.focused_window(), Some(WindowId(1)));
    ss.delete_window(WindowId(0));
    ss.delete_window(WindowId(1));
    assert_eq!(ss.workspaces().focus().stack.focused_index(), 0);
    assert_eq!(ss.focused_window(), None);
}

#[test]
fn set_focus_moves_float_to_the_back() {
    let mut ss = StackSet::new(tags(1), &builder()).unwrap();
    for i in 0..3 {
        ss.register_window(WindowId(i));
    }
    ss.make_window_float(WindowId(0), Rect::new(0, 0, 10, 10));
    ss.make_window_float(WindowId(1), Rect::new(0, 0, 20, 20));
    ss.set_focus(WindowId(0));
    let order: Vec<WindowId> = ss.float_windows.iter().map(|f| f.id).collect();
    assert_eq!(order, vec![WindowId(1), WindowId(0)]);
    assert_eq!(ss.window_focus_type, WindowFocusType::Float);
    ss.set_focus(WindowId(2));
    assert_eq!(ss.window_focus_type, WindowFocusType::Stack);
    assert_eq!(ss.focused_window(), Some(WindowId(2)));
    // Floating a floating window again gives it the new geometry.
    ss.float_window_with_rect(WindowId(1), Rect::new(9, 9, 9, 9));
    assert_eq!(ss.float_windows[1].geometry, Rect::new(9, 9, 9, 9));
    assert_eq!(ss.focused_window(), Some(WindowId(1)));
}

#[test]
fn deleting_the_last_float_returns_focus_to_the_stack() {
    let mut ss = StackSet::new(tags(1), &builder()).unwrap();
    ss.register_window(WindowId(0));
    ss.make_window_float(WindowId(0), Rect::new(0, 0, 10, 10));
    assert_eq!(ss.window_focus_type, WindowFocusType::Float);
    ss.delete_window(WindowId(0));
    assert_eq!(ss.window_focus_type, WindowFocusType::Stack);
    assert_eq!(ss.focused_window(), None);
}

#[test]
fn view_layout_appends_floating_windows() {
    let border = Border {
        dim: Thickness::uniform(2),
        active_rgba: Rgba::from_rgb(0x556b2f),
        inactive_rgba: Rgba::from_rgb(0x202020),
    };
    let mut view = OutputView::new(tags(1), &builder(), Rect::new(0, 0, 100, 100), border).unwrap();
    let a = view.register_window().unwrap();
    let b = view.register_window().unwrap();
    view.make_window_float(b);
    view.set_float_geometry(b, Rect::new(10, 10, 30, 30));
    let q = view.layout();
    assert_eq!(q.len(), 2);
    assert_eq!(q[0].0, a);
    assert_eq!(q[0].1.geometry, Rect::new(0, 0, 100, 100));
    assert_eq!(q[1], (b, WindowProps { geometry: Rect::new(10, 10, 30, 30), border }));
    assert_eq!(view.geometry_of(b), Some(Rect::new(10, 10, 30, 30)));
    assert_eq!(view.geometry_of(WindowId(77)), None);
}

#[test]
fn view_resize_and_bad_rect() {
    let black = Rgba::from_rgba(0xff);
    let border = Border { dim: Thickness::uniform(0), active_rgba: black, inactive_rgba: black };
    assert!(OutputView::new(tags(1), &builder(), Rect::new(0, 0, -1, 10), border).is_none());
    let mut view = OutputView::new(tags(1), &builder(), Rect::new(5, 5, 10, 10), border).unwrap();
    view.resize_output(640, 480);
    assert_eq!(view.rect(), Rect::new(0, 0, 640, 480));
}

#[test]
fn registered_ids_are_fresh() {
    let black = Rgba::from_rgba(0xff);
    let border = Border { dim: Thickness::uniform(0), active_rgba: black, inactive_rgba: black };
    let mut view = OutputView::new(tags(2), &builder(), Rect::new(0, 0, 10, 10), border).unwrap();
    let a = view.register_window().unwrap();
    let b = view.register_window().unwrap();
    assert_ne!(a, b);
    view.stackset().focused_window();
}

#[test]
fn refresh_prunes_dead_windows_and_refocuses() {
    let black = Rgba::from_rgba(0xff);
    let border = Border { dim: Thickness::uniform(0), active_rgba: black, inactive_rgba: black };
    let mut view = OutputView::new(tags(1), &builder(), Rect::new(0, 0, 10, 10), border).unwrap();
    let ids: Vec<WindowId> = (0..5).map(|_| view.register_window().unwrap()).collect();
    view.set_focus(ids[2]);
    assert!(!view.refresh(&vec![WindowId(100)]));
    // The focused window and its successor die: focus moves to the next survivor.
    assert!(view.refresh(&vec![ids[2], ids[3]]));
    let ws = view.stackset().workspaces().focus();
    assert_eq!(ws.stack.as_vec(), &vec![ids[0], ids[1], ids[4]]);
    assert_eq!(view.focused_window(), Some(ids[4]));
    // No survivor at or after the focus: the last one before it.
    assert!(view.refresh(&vec![ids[4]]));
    assert_eq!(view.focused_window(), Some(ids[1]));
    assert!(view.refresh(&vec![ids[0], ids[1]]));
    assert_eq!(view.focused_window(), None);
    assert_eq!(view.stackset().workspaces().focus().stack.focused_index(), 0);
}

#[test]
fn refresh_drops_dead_floats() {
    let black = Rgba::from_rgba(0xff);
    let border = Border { dim: Thickness::uniform(0), active_rgba: black, inactive_rgba: black };
    let mut view = OutputView::new(tags(1), &builder(), Rect::new(0, 0, 10, 10), border).unwrap();
    let a = view.register_window().unwrap();
    let b = view.register_window().unwrap();
    view.make_window_float(b);
    assert_eq!(view.stackset().window_focus_type, WindowFocusType::Float);
    assert!(view.refresh(&vec![b]));
    assert_eq!(view.stackset().window_focus_type, WindowFocusType::Stack);
    assert!(view.stackset().float_windows.is_empty());
    assert_eq!(view.focused_window(), Some(a));
}

#[test]
fn workspace_focus_next_window() {
    let mut ss = StackSet::new(tags(1), &builder()).unwrap();
    for i in 0..3 {
        ss.register_window(WindowId(i));
    }
    let ws = ss.workspaces.focus_mut();
    ws.focus_next_window(-1);
    assert_eq!(ws.stack().focused_index(), 2);
    ws.focus_next_window(4);
    assert_eq!(ws.stack().focused_index(), 0);
}

#[test]
fn default_configuration() {
    let cfg = ConfigDelegateUnstableDefault;
    assert!(cfg.focus_follows_mouse());
    let x = get_xkb_config();
    assert_eq!((x.repeat_delay, x.repeat_rate), (200, 60));
    assert_eq!(cfg.get_xkb_config(), x);
    let tags = make_workspace_tags();
    assert_eq!(tags.len(), 10);
    assert_eq!(tags[7], WorkspaceTag("7".to_string()));
    assert_eq!(cfg.make_workspace_tags(), tags);
    let tree = make_layout_tree_builder().build().unwrap();
    assert_eq!(tree.root_id(), 6);
    let rect = Rect::new(0, 0, 100, 100);
    let q = tree.layout(tree.root_id(), rect, &vec![WindowId(1), WindowId(2)], 0);
    // Tall inside an 8 pixel margin and a 2 pixel border.
    assert_eq!(q[0].1.geometry, Rect::new(10, 10, 30, 80));
    assert_eq!(q[1].1.geometry, Rect::new(60, 10, 30, 80));
    assert_eq!(q[0].1.border.active_rgba, Rgba { r: 0x55, g: 0x6b, b: 0x2f, a: 0xff });
    let view = OutputView::new(tags, &cfg.make_layout_tree_builder(), rect, q[0].1.border);
    assert!(view.is_some());
}

#[test]
fn shift_window_to_tagged_workspace() {
    let mut ss = StackSet::new(tags(3), &builder()).unwrap();
    ss.register_window(WindowId(0));
    ss.register_window(WindowId(1));
    assert!(ss.shift_window_to_tag(WindowId(0), &WorkspaceTag("2".to_string())));
    assert_eq!(ss.workspaces().as_vec()[0].stack.as_vec(), &vec![WindowId(1)]);
    assert_eq!(ss.workspaces().as_vec()[2].stack.as_vec(), &vec![WindowId(0)]);
    assert_eq!(ss.workspaces().focused_index(), 0);
    assert!(!ss.shift_window_to_tag(WindowId(1), &WorkspaceTag("x".to_string())));
    assert_eq!(ss.workspaces().as_vec()[0].stack.as_vec(), &vec![WindowId(1)]);
    // A floating window is shifted too.
    ss.make_window_float(WindowId(1), Rect::new(0, 0, 5, 5));
    assert!(ss.shift_window_to_tag(WindowId(1), &WorkspaceTag("2".to_string())));
    assert!(ss.float_windows.is_empty());
    assert_eq!(ss.workspaces().as_vec()[2].stack.as_vec(), &vec![WindowId(0), WindowId(1)]);
    assert_eq!(ss.window_focus_type, WindowFocusType::Stack);
}

#[test]
fn floating_an_unknown_window_does_nothing() {
    let mut ss = StackSet::new(tags(1), &builder()).unwrap();
    ss.register_window(WindowId(0));
    ss.make_window_float(WindowId(5), Rect::new(0, 0, 1, 1));
    ss.float_window_with_rect(WindowId(6), Rect::new(0, 0, 1, 1));
    assert!(ss.float_windows.is_empty());
    assert_eq!(ss.window_focus_type, WindowFocusType::Stack);
    assert_eq!(all_ids(&ss), vec![WindowId(0)]);
}
