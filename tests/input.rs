use sabiniwm::action::{Action, ActionChangeVt, ActionQuitSabiniwm};
use sabiniwm::focus_decider::{FocusUpdateDecider, PointerEventKind, SubpixelPoint, Timing};
use sabiniwm::keymap::{parse_keys, Key, KeyDecision, KeySeqMatcher, Keymap, KeymapEntry, ModMask, MASK_CONTROL, MASK_MOD5};
use sabiniwm::window::WindowId;

fn hyper(c: char) -> Key {
    Key::new(ModMask(MASK_MOD5), c as u32)
}

fn keymap() -> Keymap<Action> {
    Keymap::new(vec![
        (vec![hyper('b'), hyper('q')], Action::QuitSabiniwm(ActionQuitSabiniwm)),
        (vec![hyper('b'), hyper('2')], Action::ChangeVt(ActionChangeVt(2))),
        (vec![hyper('j')], Action::Spawn("alacritty".to_string())),
    ])
}

#[test]
fn chord_completes_on_second_key() {
    let km = keymap();
    let mut m = KeySeqMatcher::new();
    assert!(matches!(m.on_press(&km, hyper('b')), KeyDecision::Intercept));
    assert_eq!(m.pending(), &vec![hyper('b')]);
    assert!(matches!(m.on_release::<()>(), KeyDecision::Intercept));
    match m.on_press(&km, hyper('q')) {
        KeyDecision::Run(Action::QuitSabiniwm(_)) => {}
        other => panic!("unexpected {:?}", other),
    }
    assert!(m.pending().is_empty());
    assert!(matches!(m.on_release::<()>(), KeyDecision::Forward));
}

#[test]
fn unbound_first_key_is_forwarded() {
    let km = keymap();
    let mut m = KeySeqMatcher::new();
    assert!(matches!(m.on_press(&km, Key::new(ModMask(0), 'x' as u32)), KeyDecision::Forward));
    assert!(m.pending().is_empty());
}

#[test]
fn aborted_chord_is_swallowed() {
    let km = keymap();
    let mut m = KeySeqMatcher::new();
    assert!(matches!(m.on_press(&km, hyper('b')), KeyDecision::Intercept));
    assert!(matches!(m.on_press(&km, Key::new(ModMask(MASK_CONTROL), 'x' as u32)), KeyDecision::Intercept));
    assert!(m.pending().is_empty());
}

#[test]
fn single_key_binding_runs_at_once() {
    let km = keymap();
    let mut m = KeySeqMatcher::new();
    match m.on_press(&km, hyper('j')) {
        KeyDecision::Run(Action::Spawn(cmd)) => assert_eq!(cmd, "alacritty"),
        other => panic!("unexpected {:?}", other),
    }
}

#[test]
fn keymap_lookup_results() {
    let km = keymap();
    assert_eq!(km.len(), 3);
    assert!(matches!(km.get(&vec![hyper('b')]), KeymapEntry::Incomplete));
    assert!(matches!(km.get(&vec![hyper('b'), hyper('2')]), KeymapEntry::Complete(Action::ChangeVt(ActionChangeVt(2)))));
    assert!(matches!(km.get(&vec![hyper('q')]), KeymapEntry::Unbound));
    assert!(matches!(km.get(&vec![hyper('b'), hyper('q'), hyper('q')]), KeymapEntry::Unbound));
}

fn px(x: i32, y: i32) -> SubpixelPoint {
    SubpixelPoint { x: x * 256, y: y * 256 }
}

fn motion(d: &mut FocusUpdateDecider, pos: SubpixelPoint, under: Option<WindowId>) -> bool {
    d.should_update_focus(true, false, Timing::AfterProcessEvent, PointerEventKind::Motion, pos, under)
}

#[test]
fn small_motion_over_same_window_is_ignored() {
    let a = Some(WindowId(1));
    let b = Some(WindowId(2));
    let mut d = FocusUpdateDecider::new();
    assert!(motion(&mut d, px(100, 100), a));
    assert!(!motion(&mut d, px(105, 100), a));
    assert!(motion(&mut d, px(110, 100), b));
}

#[test]
fn large_motion_over_same_window_recomputes() {
    let a = Some(WindowId(1));
    let mut d = FocusUpdateDecider::new();
    assert!(motion(&mut d, px(100, 100), a));
    // The last position is the centre of pixel (100, 100): 16.5 pixels away.
    assert!(!motion(&mut d, px(116, 100), a));
    assert!(motion(&mut d, px(117, 100), a));
}

#[test]
fn button_press_recomputes_unless_grabbed() {
    let mut d = FocusUpdateDecider::new();
    let p = px(1, 1);
    assert!(d.should_update_focus(true, false, Timing::BeforeProcessEvent, PointerEventKind::ButtonPressed, p, None));
    assert!(!d.should_update_focus(true, true, Timing::BeforeProcessEvent, PointerEventKind::ButtonPressed, p, None));
    assert!(!d.should_update_focus(true, false, Timing::AfterProcessEvent, PointerEventKind::ButtonPressed, p, None));
    assert!(!d.should_update_focus(true, false, Timing::BeforeProcessEvent, PointerEventKind::Motion, p, Some(WindowId(3))));
}

#[test]
fn motion_is_ignored_without_focus_follows_mouse() {
    let mut d = FocusUpdateDecider::new();
    assert!(!d.should_update_focus(false, false, Timing::AfterProcessEvent, PointerEventKind::Motion, px(50, 50), Some(WindowId(1))));
}

#[test]
fn negative_coordinates_snap_to_pixel_centres() {
    let a = Some(WindowId(1));
    let mut d = FocusUpdateDecider::new();
    assert!(motion(&mut d, SubpixelPoint { x: -10, y: 0 }, a));
    // Centre of pixel -1 is -128 sub-pixels; 4096 sub-pixels to the right is not yet far.
    assert!(!motion(&mut d, SubpixelPoint { x: -128 + 4096, y: 128 }, a));
    assert!(motion(&mut d, SubpixelPoint { x: -128 + 4097, y: 128 }, a));
}

#[test]
fn click_leaves_the_decider_unchanged() {
    let a = Some(WindowId(1));
    let mut d = FocusUpdateDecider::new();
    assert!(motion(&mut d, px(40, 40), a));
    assert!(d.should_update_focus(true, false, Timing::BeforeProcessEvent, PointerEventKind::ButtonPressed, px(90, 90), Some(WindowId(2))));
    // Still remembers window 1 at (40, 40): a small move over it is ignored.
    assert!(!motion(&mut d, px(42, 41), a));
}

#[test]
fn default_keymap_quits_on_ctrl_x_ctrl_q() {
    let km = sabiniwm::config::make_keymap();
    let ctrl = |c: char| Key::new(ModMask(MASK_CONTROL), c as u32);
    let mut m = KeySeqMatcher::new();
    assert!(matches!(m.on_press(&km, ctrl('x')), KeyDecision::Intercept));
    assert!(matches!(m.on_press(&km, ctrl('q')), KeyDecision::Run(Action::QuitSabiniwm(_))));
    assert!(matches!(m.on_press(&km, ctrl('x')), KeyDecision::Intercept));
    match m.on_press(&km, ctrl('t')) {
        KeyDecision::Run(Action::Spawn(cmd)) => assert_eq!(cmd, "alacritty"),
        other => panic!("unexpected {:?}", other),
    }
    let cfg = sabiniwm::config::ConfigDelegateUnstableDefault;
    assert_eq!(cfg.make_keymap().len(), 2);
}

fn kbd(s: &str) -> Option<Vec<Key>> {
    let meta = vec![('H', MASK_MOD5), ('C', MASK_CONTROL)];
    parse_keys(&s.chars().collect(), &meta)
}

#[test]
fn key_sequences_are_parsed() {
    assert_eq!(kbd("H-b H-q"), Some(vec![hyper('b'), hyper('q')]));
    assert_eq!(kbd("C-H-x"), Some(vec![Key::new(ModMask(MASK_CONTROL | MASK_MOD5), 'x' as u32)]));
    assert_eq!(kbd("q"), Some(vec![Key::new(ModMask(0), 'q' as u32)]));
    assert_eq!(kbd("H--"), Some(vec![hyper('-')]));
    assert_eq!(kbd(""), None);
    assert_eq!(kbd("H-"), None);
    assert_eq!(kbd("X-b"), None);
    assert_eq!(kbd("H-b  H-q"), None);
    assert_eq!(kbd("H-b "), None);
    assert_eq!(kbd("Hb"), None);
}

#[test]
fn parsed_binding_drives_the_matcher() {
    let km = Keymap::new(vec![(kbd("H-b H-q").unwrap(), Action::QuitSabiniwm(ActionQuitSabiniwm))]);
    let mut m = KeySeqMatcher::new();
    assert!(matches!(m.on_press(&km, kbd("H-b").unwrap()[0]), KeyDecision::Intercept));
    assert!(matches!(m.on_press(&km, kbd("H-q").unwrap()[0]), KeyDecision::Run(Action::QuitSabiniwm(_))));
    assert!(m.pending().is_empty());
}
