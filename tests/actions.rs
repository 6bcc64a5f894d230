use sabiniwm::action::{
    Action, ActionMoveFocus, ActionQuitSabiniwm, ActionSequential, ActionWindowFloat,
    ActionWindowKill, ActionWindowMoveToWorkspace, ActionWindowSink, ActionWindowSwap,
    ActionWithSavedFocus, ActionWorkspaceFocus, ActionWorkspaceFocusNonEmpty, Effect,
};
use sabiniwm::geometry::{Border, Rect, Rgba, Thickness};
use sabiniwm::layout::{LayoutMessage, LayoutMessageSelect, LayoutNode, LayoutTall, LayoutTreeBuilder};
use sabiniwm::stackset::{WindowFocusType, WorkspaceTag};
use sabiniwm::view::OutputView;
use sabiniwm::window::WindowId;

fn float_border() -> Border {
    Border {
        dim: Thickness::uniform(2),
        active_rgba: Rgba::from_rgba(0x556b2fff),
        inactive_rgba: Rgba::from_rgba(0x202020ff),
    }
}

fn view_with_tags(tags: &[&str]) -> OutputView {
    let tags = tags.iter().map(|t| WorkspaceTag(t.to_string())).collect();
    let builder = LayoutTreeBuilder::new(vec![LayoutNode::Tall(LayoutTall {})], 0);
    OutputView::new(tags, &builder, Rect::new(0, 0, 100, 100), float_border()).unwrap()
}

fn run(view: &mut OutputView, action: &Action) -> Vec<Effect> {
    let mut effects = vec![];
    action.exec(view, &mut effects);
    effects
}

fn focused_stack(view: &OutputView) -> Vec<WindowId> {
    view.stackset().workspaces().focus().stack.as_vec().clone()
}

#[test]
fn workspace_focus_next_wraps() {
    let mut view = view_with_tags(&["1", "2", "3"]);
    assert_eq!(view.stackset().workspaces().focused_index(), 0);
    let next = Action::WorkspaceFocus(ActionWorkspaceFocus::Next);
    run(&mut view, &next);
    assert_eq!(view.stackset().workspaces().focused_index(), 1);
    run(&mut view, &next);
    assert_eq!(view.stackset().workspaces().focused_index(), 2);
    run(&mut view, &next);
    assert_eq!(view.stackset().workspaces().focused_index(), 0);
    run(&mut view, &Action::WorkspaceFocus(ActionWorkspaceFocus::Prev));
    assert_eq!(view.stackset().workspaces().focused_index(), 2);
}

#[test]
fn workspace_focus_with_tag() {
    let mut view = view_with_tags(&["1", "2", "3"]);
    assert!(ActionWorkspaceFocus::WithTag(WorkspaceTag("3".to_string())).exec(&mut view));
    assert_eq!(view.stackset().workspaces().focused_index(), 2);
    assert!(!ActionWorkspaceFocus::WithTag(WorkspaceTag("9".to_string())).exec(&mut view));
    assert_eq!(view.stackset().workspaces().focused_index(), 2);
}

#[test]
fn window_swap_keeps_focus_on_the_same_window() {
    let mut view = view_with_tags(&["1"]);
    let a = view.register_window().unwrap();
    let b = view.register_window().unwrap();
    let c = view.register_window().unwrap();
    assert_eq!(focused_stack(&view), vec![a, b, c]);
    assert_eq!(view.focused_window(), Some(a));
    run(&mut view, &Action::WindowSwap(ActionWindowSwap::Next));
    assert_eq!(focused_stack(&view), vec![b, a, c]);
    assert_eq!(view.stackset().workspaces().focus().stack.focused_index(), 1);
    assert_eq!(view.focused_window(), Some(a));
    run(&mut view, &Action::WindowSwap(ActionWindowSwap::Prev));
    assert_eq!(focused_stack(&view), vec![a, b, c]);
    assert_eq!(view.focused_window(), Some(a));
}

#[test]
fn move_focus_wraps_both_ways() {
    let mut view = view_with_tags(&["1"]);
    let a = view.register_window().unwrap();
    let _b = view.register_window().unwrap();
    let c = view.register_window().unwrap();
    run(&mut view, &Action::MoveFocus(ActionMoveFocus::Prev));
    assert_eq!(view.focused_window(), Some(c));
    run(&mut view, &Action::MoveFocus(ActionMoveFocus::Next));
    assert_eq!(view.focused_window(), Some(a));
}

#[test]
fn move_focus_on_empty_stack_does_nothing() {
    let mut view = view_with_tags(&["1"]);
    run(&mut view, &Action::MoveFocus(ActionMoveFocus::Next));
    assert_eq!(view.focused_window(), None);
    run(&mut view, &Action::WindowSwap(ActionWindowSwap::Next));
    assert!(focused_stack(&view).is_empty());
}

#[test]
fn workspace_focus_non_empty_skips_empty_workspaces() {
    let mut view = view_with_tags(&["1", "2", "3", "4"]);
    run(&mut view, &Action::WorkspaceFocus(ActionWorkspaceFocus::WithTag(WorkspaceTag("3".to_string()))));
    let a = view.register_window().unwrap();
    run(&mut view, &Action::WorkspaceFocus(ActionWorkspaceFocus::WithTag(WorkspaceTag("1".to_string()))));
    run(&mut view, &Action::WorkspaceFocusNonEmpty(ActionWorkspaceFocusNonEmpty::Next));
    assert_eq!(view.stackset().workspaces().focused_index(), 2);
    assert_eq!(view.focused_window(), Some(a));
    // Only workspace "3" holds a window: nothing else to go to.
    run(&mut view, &Action::WorkspaceFocusNonEmpty(ActionWorkspaceFocusNonEmpty::Prev));
    assert_eq!(view.stackset().workspaces().focused_index(), 2);
}

#[test]
fn move_window_to_workspace_with_saved_focus() {
    let mut view = view_with_tags(&["1", "2", "3"]);
    let a = view.register_window().unwrap();
    let b = view.register_window().unwrap();
    let action = Action::WithSavedFocus(ActionWithSavedFocus(Box::new(Action::WindowMoveToWorkspace(
        ActionWindowMoveToWorkspace::WithTag(WorkspaceTag("3".to_string())),
    ))));
    run(&mut view, &action);
    assert_eq!(view.stackset().workspaces().focused_index(), 0);
    assert_eq!(focused_stack(&view), vec![b]);
    assert_eq!(view.stackset().workspaces().as_vec()[2].stack.as_vec(), &vec![a]);
}

#[test]
fn move_window_to_next_workspace_follows_it() {
    let mut view = view_with_tags(&["1", "2"]);
    let a = view.register_window().unwrap();
    run(&mut view, &Action::WindowMoveToWorkspace(ActionWindowMoveToWorkspace::Next));
    assert_eq!(view.stackset().workspaces().focused_index(), 1);
    assert_eq!(focused_stack(&view), vec![a]);
    assert_eq!(view.focused_window(), Some(a));
}

#[test]
fn float_then_sink_round_trip() {
    let mut view = view_with_tags(&["1"]);
    let a = view.register_window().unwrap();
    let b = view.register_window().unwrap();
    view.layout();
    view.set_focus(b);
    run(&mut view, &Action::WindowFloat(ActionWindowFloat {}));
    assert_eq!(view.stackset().window_focus_type, WindowFocusType::Float);
    assert_eq!(view.focused_window(), Some(b));
    assert_eq!(focused_stack(&view), vec![a]);
    assert_eq!(view.stackset().float_windows.len(), 1);
    assert_eq!(view.stackset().float_windows[0].geometry, Rect::new(50, 0, 50, 100));
    run(&mut view, &Action::WindowSink(ActionWindowSink {}));
    assert_eq!(view.stackset().window_focus_type, WindowFocusType::Stack);
    assert_eq!(focused_stack(&view), vec![b, a]);
    assert_eq!(view.focused_window(), Some(b));
    assert!(view.stackset().float_windows.is_empty());
    // Sinking again does nothing: the stack holds the focus.
    run(&mut view, &Action::WindowSink(ActionWindowSink {}));
    assert_eq!(focused_stack(&view), vec![b, a]);
}

#[test]
fn external_effects_are_requested() {
    let mut view = view_with_tags(&["1"]);
    assert_eq!(run(&mut view, &Action::QuitSabiniwm(ActionQuitSabiniwm)), vec![Effect::Quit]);
    assert_eq!(run(&mut view, &Action::WindowKill(ActionWindowKill {})), vec![]);
    let a = view.register_window().unwrap();
    assert_eq!(run(&mut view, &Action::WindowKill(ActionWindowKill {})), vec![Effect::Kill(a)]);
    let seq = Action::Sequential(ActionSequential(vec![
        Action::Spawn("alacritty".to_string()),
        Action::ChangeVt(sabiniwm::action::ActionChangeVt(2)),
    ]));
    assert_eq!(
        run(&mut view, &seq),
        vec![Effect::Spawn("alacritty".to_string()), Effect::ChangeVt(2)]
    );
}

#[test]
fn sequential_runs_in_order() {
    let mut view = view_with_tags(&["1", "2", "3"]);
    let seq = Action::Sequential(ActionSequential(vec![
        Action::WorkspaceFocus(ActionWorkspaceFocus::Next),
        Action::WorkspaceFocus(ActionWorkspaceFocus::Next),
        Action::WorkspaceFocus(ActionWorkspaceFocus::Prev),
    ]));
    run(&mut view, &seq);
    assert_eq!(view.stackset().workspaces().focused_index(), 1);
}

#[test]
fn layout_message_action_reaches_the_tree() {
    let tags = vec![WorkspaceTag("1".to_string())];
    let nodes = vec![
        LayoutNode::Tall(LayoutTall {}),
        LayoutNode::Full(sabiniwm::layout::LayoutFull {}),
        LayoutNode::Select(sabiniwm::layout::LayoutNodeSelect::new(
            sabiniwm::focused_vec::NonEmptyFocusedVec::new(vec![0, 1], 0),
        )),
    ];
    let builder = LayoutTreeBuilder::new(nodes, 2);
    let mut view = OutputView::new(tags, &builder, Rect::new(0, 0, 100, 100), float_border()).unwrap();
    view.register_window().unwrap();
    view.register_window().unwrap();
    assert_eq!(view.layout().len(), 2);
    run(&mut view, &Action::Layout(LayoutMessage::Select(LayoutMessageSelect::Next)));
    assert_eq!(view.layout().len(), 1);
}

#[test]
fn move_window_to_tagged_workspace_inserts_at_its_focus() {
    let mut view = view_with_tags(&["1", "2"]);
    let a = view.register_window().unwrap();
    let b = view.register_window().unwrap();
    run(&mut view, &Action::WorkspaceFocus(ActionWorkspaceFocus::Next));
    let c = view.register_window().unwrap();
    let d = view.register_window().unwrap();
    view.set_focus(d);
    view.set_focus(a);
    // Workspace "1" focused on `a`, workspace "2" focused on `d` (index 1).
    assert!(ActionWindowMoveToWorkspace::WithTag(WorkspaceTag("2".to_string())).exec(&mut view));
    assert_eq!(view.stackset().workspaces().focused_index(), 1);
    assert_eq!(focused_stack(&view), vec![c, a, d]);
    assert_eq!(view.focused_window(), Some(a));
    assert_eq!(view.stackset().workspaces().as_vec()[0].stack.as_vec(), &vec![b]);
    assert!(!ActionWindowMoveToWorkspace::WithTag(WorkspaceTag("9".to_string())).exec(&mut view));
    assert_eq!(focused_stack(&view), vec![c, a, d]);
}
