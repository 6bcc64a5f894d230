use sabiniwm::focused_vec::{mod_plus_index, FocusedVec, NonEmptyFocusedVec};
use sabiniwm::geometry::{shrink, Rect, Rgba, Thickness};

#[test]
fn mod_plus_wraps_both_ways() {
    assert_eq!(mod_plus_index(0, 1, 3), 1);
    assert_eq!(mod_plus_index(2, 1, 3), 0);
    assert_eq!(mod_plus_index(0, -1, 3), 2);
    assert_eq!(mod_plus_index(1, -7, 3), 0);
    assert_eq!(mod_plus_index(1, isize::MIN, 3), (1 + 3 - (isize::MIN as i128).unsigned_abs() % 3) as usize % 3);
    assert_eq!(mod_plus_index(0, isize::MAX, 5), (isize::MAX % 5) as usize);
}

#[test]
fn mod_plus_round_trip_and_bijection() {
    for n in 1..7usize {
        for k in -10isize..10 {
            let mut seen = vec![false; n];
            for f in 0..n {
                let g = mod_plus_index(f, k, n);
                assert!(g < n);
                assert_eq!(mod_plus_index(g, -k, n), f);
                assert!(!seen[g]);
                seen[g] = true;
            }
        }
    }
}

#[test]
fn focused_vec_basics() {
    let mut v = FocusedVec::new(vec![10, 20, 30], 1);
    assert_eq!(v.len(), 3);
    assert!(!v.is_empty());
    assert_eq!(v.focus(), Some(&20));
    assert_eq!(v.mod_plus_focused_index(2), 0);
    v.set_focused_index(2);
    *v.focus_mut().unwrap() = 33;
    assert_eq!(v.as_vec(), &vec![10, 20, 33]);
    assert_eq!(v.remove(2), 33);
    assert_eq!(v.focused_index(), 1);
    v.insert(0, 5);
    assert_eq!(v.as_vec(), &vec![5, 10, 20]);
    v.swap_and_focus(1, 2);
    assert_eq!(v.as_vec(), &vec![5, 20, 10]);
    assert_eq!(v.focused_index(), 2);
    v.push(1);
    *v.focused_index_mut() = 3;
    assert_eq!(v.focus(), Some(&1));
    let e: FocusedVec<u8> = FocusedVec::empty();
    assert!(e.is_empty());
    assert_eq!(e.focus(), None);
}

#[test]
fn non_empty_focused_vec_basics() {
    let mut v = NonEmptyFocusedVec::new(vec!['a', 'b'], 1);
    assert_eq!(*v.focus(), 'b');
    v.push('c');
    assert_eq!(v.len(), 3);
    assert_eq!(v.mod_plus_focused_index(-2), 2);
    *v.focus_mut() = 'B';
    *v.get_mut(0) = 'A';
    assert_eq!(v.as_vec(), &vec!['A', 'B', 'c']);
    *v.focused_index_mut() = 2;
    assert_eq!(v.focused_index(), 2);
    v.set_focused_index(0);
    assert_eq!(*v.focus(), 'A');
}

#[test]
fn colours_and_shrinking() {
    assert_eq!(Rgba::from_rgba(0x556b2fff), Rgba { r: 0x55, g: 0x6b, b: 0x2f, a: 0xff });
    assert_eq!(Rgba::from_rgb(0x202020), Rgba { r: 0x20, g: 0x20, b: 0x20, a: 0xff });
    let r = Rect::new(0, 0, 100, 50);
    assert_eq!(shrink(r, &Thickness::uniform(8)), Rect::new(8, 8, 84, 34));
    assert_eq!(shrink(r, &Thickness::symmetric(1, 2)), Rect::new(2, 1, 96, 48));
    assert_eq!(shrink(r, &Thickness::from_edges(1, 2, 3, 4)), Rect::new(4, 1, 94, 46));
    // A margin wider than the rectangle leaves an empty one inside it.
    assert_eq!(shrink(r, &Thickness::uniform(80)), Rect::new(80, 50, 0, 0));
}

#[test]
fn thickness_conversions() {
    assert_eq!(Thickness::from(3u32), Thickness { top: 3, right: 3, bottom: 3, left: 3 });
    assert_eq!(Thickness::from((1u32, 2u32)), Thickness { top: 1, right: 2, bottom: 1, left: 2 });
    assert_eq!(
        Thickness::from((1u32, 2u32, 3u32, 4u32)),
        Thickness { top: 1, right: 2, bottom: 3, left: 4 }
    );
}
