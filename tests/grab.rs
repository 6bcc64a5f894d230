use sabiniwm::focus_decider::SubpixelPoint;
use sabiniwm::geometry::{Border, Rect, Rgba, Thickness};
use sabiniwm::grab::{grab_window_for_move, GrabState, WindowMoveGrab};
use sabiniwm::layout::{LayoutNode, LayoutTall, LayoutTreeBuilder};
use sabiniwm::stackset::WorkspaceTag;
use sabiniwm::view::OutputView;

#[test]
fn moved_window_keeps_its_offset_to_the_pointer() {
    let black = Rgba::from_rgba(0xff);
    let border = Border { dim: Thickness::uniform(0), active_rgba: black, inactive_rgba: black };
    let builder = LayoutTreeBuilder::new(vec![LayoutNode::Tall(LayoutTall {})], 0);
    let mut view = OutputView::new(vec![WorkspaceTag("1".to_string())], &builder, Rect::new(0, 0, 200, 200), border).unwrap();
    let a = view.register_window().unwrap();
    view.make_window_float(a);
    view.set_float_geometry(a, Rect::new(10, 20, 30, 40));
    // Grabbed at pixel (15.5, 25.5): 5.5 and 5.5 pixels inside the window.
    let g = WindowMoveGrab::start(a, 272, SubpixelPoint { x: 15 * 256 + 128, y: 25 * 256 + 128 }, 10, 20);
    let state = GrabState::Idle.begin(g);
    assert_eq!(state, GrabState::Moving(g));
    g.motion(&mut view, SubpixelPoint { x: 115 * 256 + 128, y: 35 * 256 + 128 });
    assert_eq!(view.stackset().float_windows[0].geometry, Rect::new(110, 30, 30, 40));
    // Half a pixel rounds away from zero.
    g.motion(&mut view, SubpixelPoint { x: 16 * 256, y: 25 * 256 + 128 });
    assert_eq!(view.stackset().float_windows[0].geometry, Rect::new(11, 20, 30, 40));
    g.motion(&mut view, SubpixelPoint { x: 0, y: 0 });
    assert_eq!(view.stackset().float_windows[0].geometry, Rect::new(-6, -6, 30, 40));
    // A second grab does not replace the first.
    let other = WindowMoveGrab::start(a, 273, SubpixelPoint { x: 0, y: 0 }, 0, 0);
    assert_eq!(state.begin(other), state);
    assert_eq!(state.on_button(273, false), state);
    assert_eq!(state.on_button(272, true), state);
    assert_eq!(state.on_button(272, false), GrabState::Idle);
}

#[test]
fn grabbing_a_tiled_window_floats_it_in_place() {
    let black = Rgba::from_rgba(0xff);
    let border = Border { dim: Thickness::uniform(0), active_rgba: black, inactive_rgba: black };
    let builder = LayoutTreeBuilder::new(vec![LayoutNode::Tall(LayoutTall {})], 0);
    let mut view = OutputView::new(vec![WorkspaceTag("1".to_string())], &builder, Rect::new(0, 0, 200, 100), border).unwrap();
    let a = view.register_window().unwrap();
    let b = view.register_window().unwrap();
    view.layout();
    let p = SubpixelPoint { x: 110 * 256, y: 10 * 256 };
    let state = grab_window_for_move(GrabState::Idle, &mut view, b, 272, p);
    let g = WindowMoveGrab { window_id: b, button: 272, grabbed_x: 10 * 256, grabbed_y: 10 * 256 };
    assert_eq!(state, GrabState::Moving(g));
    assert_eq!(view.stackset().float_windows[0].geometry, Rect::new(100, 0, 100, 100));
    assert_eq!(view.focused_window(), Some(b));
    // A second grab, or a grab of an unknown window, changes nothing.
    assert_eq!(grab_window_for_move(state, &mut view, a, 272, p), state);
    assert_eq!(grab_window_for_move(GrabState::Idle, &mut view, sabiniwm::window::WindowId(99), 272, p), GrabState::Idle);
    assert_eq!(view.stackset().float_windows.len(), 1);
}
