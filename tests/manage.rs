use sabiniwm::geometry::{Border, Rect, Rgba, Thickness};
use sabiniwm::layout::{LayoutNode, LayoutTall, LayoutTreeBuilder};
use sabiniwm::manage::{center_rect, manage_placement, run_manage_hook, Placement};
use sabiniwm::stackset::{WindowFocusType, WorkspaceTag};
use sabiniwm::view::OutputView;

fn some(s: &str) -> Option<String> {
    Some(s.to_string())
}

fn tag(s: &str) -> Placement {
    Placement::ShiftTo(WorkspaceTag(s.to_string()))
}

#[test]
fn placement_rules() {
    assert_eq!(manage_placement(&some("Alacritty"), &some("on_workspace_3"), None), vec![tag("3")]);
    assert_eq!(manage_placement(&some("Alacritty"), &some("on_workspace_12"), Some(false)), vec![tag("12")]);
    assert_eq!(manage_placement(&some("Alacritty"), &some("on_workspace_"), None), vec![]);
    assert_eq!(manage_placement(&some("Alacritty"), &some("on_workspace_3x"), None), vec![]);
    assert_eq!(manage_placement(&some("Alacritty"), &some("xon_workspace_3"), None), vec![]);
    assert_eq!(manage_placement(&some("Alacritty"), &None, None), vec![]);
    assert_eq!(manage_placement(&some("emacs"), &some("x"), None), vec![tag("2")]);
    assert_eq!(manage_placement(&some("org.mozilla.firefox"), &None, Some(true)), vec![tag("4"), Placement::CenterFloat]);
    assert_eq!(manage_placement(&None, &None, Some(true)), vec![Placement::CenterFloat]);
    assert_eq!(manage_placement(&some("org.gnome.Nautilus"), &some("New Folder"), None), vec![Placement::CenterFloat]);
    assert_eq!(manage_placement(&some("org.gnome.Nautilus"), &some("Files"), None), vec![]);
}

#[test]
fn centred_rect() {
    assert_eq!(center_rect(Rect::new(0, 0, 100, 50), 20, 10), Rect::new(40, 20, 20, 10));
    assert_eq!(center_rect(Rect::new(10, 10, 101, 51), 21, 11), Rect::new(50, 30, 21, 11));
}

fn view() -> OutputView {
    let black = Rgba::from_rgba(0xff);
    let border = Border { dim: Thickness::uniform(0), active_rgba: black, inactive_rgba: black };
    let tags = (0..5).map(|i| WorkspaceTag(format!("{}", i))).collect();
    let builder = LayoutTreeBuilder::new(vec![LayoutNode::Tall(LayoutTall {})], 0);
    OutputView::new(tags, &builder, Rect::new(0, 0, 100, 100), border).unwrap()
}

#[test]
fn manage_hook_shifts_and_floats() {
    let mut v = view();
    let a = v.register_window().unwrap();
    let b = v.register_window().unwrap();
    let applied = run_manage_hook(&mut v, b, &some("emacs"), &None, None, 60, 60);
    assert_eq!(applied, vec![tag("2")]);
    assert_eq!(v.stackset().workspaces().as_vec()[0].stack.as_vec(), &vec![a]);
    assert_eq!(v.stackset().workspaces().as_vec()[2].stack.as_vec(), &vec![b]);
    let c = v.register_window().unwrap();
    run_manage_hook(&mut v, c, &None, &None, Some(true), 60, 40);
    assert_eq!(v.stackset().window_focus_type, WindowFocusType::Float);
    assert_eq!(v.stackset().float_windows[0].geometry, Rect::new(20, 30, 60, 40));
    assert_eq!(v.focused_window(), Some(c));
    let d = v.register_window().unwrap();
    assert!(run_manage_hook(&mut v, d, &some("xterm"), &None, None, 0, 0).is_empty());
    assert_eq!(v.focused_window(), Some(d));
}
