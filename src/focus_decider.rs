use vstd::prelude::*;
use crate::window::WindowId;

verus! {

/// Sub-pixel steps per logical pixel in pointer coordinates.
pub const SUBPIXELS: i64 = 256;

/// How far, in logical pixels, the pointer must move over the same window
/// before focus follows it again.
pub const DISTANCE_THRESHOLD: i64 = 16;

/// A pointer position in 1/256 logical pixels.
#[derive(Debug, Clone, Copy, PartialEq, Eq, Structural)]
pub struct SubpixelPoint {
    pub x: i32,
    pub y: i32,
}

/// When, relative to the normal handling of an input event, the decider is
/// asked.
#[derive(Debug, Clone, Copy, PartialEq, Eq, Structural)]
pub enum Timing {
    BeforeProcessEvent,
    AfterProcessEvent,
}

/// The kinds of input event the decider tells apart.
#[derive(Debug, Clone, Copy, PartialEq, Eq, Structural)]
pub enum PointerEventKind {
    ButtonPressed,
    ButtonReleased,
    Motion,
    Other,
}

/// The centre of the pixel that holds coordinate `v` (in sub-pixels).
pub open spec fn pixel_center(v: int) -> int {
    (v / SUBPIXELS as int) * SUBPIXELS as int + SUBPIXELS as int / 2
}

/// Whether `p` lies farther than the threshold from `(lx, ly)`.
pub open spec fn moved_far(lx: int, ly: int, p: SubpixelPoint) -> bool {
    let dx = p.x - lx;
    let dy = p.y - ly;
    dx * dx + dy * dy > (DISTANCE_THRESHOLD * SUBPIXELS) * (DISTANCE_THRESHOLD * SUBPIXELS)
}

/// Decides when focus should be recomputed from the pointer, so that a
/// jittery pointing device near a window edge does not make focus flap.
#[derive(Debug)]
pub struct FocusUpdateDecider {
    last_window_id: Option<WindowId>,
    last_x: i64,
    last_y: i64,
}

impl FocusUpdateDecider {
    pub closed spec fn last_window(&self) -> Option<WindowId> {
        self.last_window_id
    }

    /// Where the pointer was at the last recompute, in sub-pixels.
    pub closed spec fn last_pos(&self) -> (int, int) {
        (self.last_x as int, self.last_y as int)
    }

    pub open spec fn wf(&self) -> bool {
        &&& i32::MIN <= self.last_pos().0 <= i32::MAX as int + SUBPIXELS
        &&& i32::MIN <= self.last_pos().1 <= i32::MAX as int + SUBPIXELS
    }

    pub fn new() -> (r: Self)
        ensures
            r.last_window() is None,
            r.last_pos() == (0int, 0int),
            r.wf(),
    {
        FocusUpdateDecider { last_window_id: None, last_x: 0, last_y: 0 }
    }

    /// Records a recompute: the window under the pointer and the centre of
    /// the pixel under it.
    fn remember(&mut self, under: Option<WindowId>, pos: SubpixelPoint)
        ensures
            final(self).last_window() == under,
            final(self).last_pos() == (pixel_center(pos.x as int), pixel_center(pos.y as int)),
            final(self).wf(),
    {
        self.last_window_id = under;
        self.last_x = center_of_pixel(pos.x);
        self.last_y = center_of_pixel(pos.y);
    }

    /// Whether focus should be recomputed for this event. A button press
    /// asks for it before dispatch unless a grab holds the pointer. Pointer
    /// motion asks for it after dispatch, when focus follows the pointer,
    /// if the window under the pointer changed or the pointer moved farther
    /// than the threshold; the decider then remembers the window under the
    /// pointer and the centre of the pixel under it. Before dispatch the
    /// decider's state never changes.
    pub fn should_update_focus(
        &mut self,
        focus_follows_mouse: bool,
        pointer_grabbed: bool,
        timing: Timing,
        event: PointerEventKind,
        pos: SubpixelPoint,
        under: Option<WindowId>,
    ) -> (r: bool)
        requires
            old(self).wf(),
        ensures
            final(self).wf(),
            ({
                let (lx, ly) = old(self).last_pos();
                match (timing, event) {
                    (Timing::BeforeProcessEvent, PointerEventKind::ButtonPressed) => r == !pointer_grabbed,
                    (Timing::AfterProcessEvent, PointerEventKind::Motion) => r == (focus_follows_mouse
                        && (old(self).last_window() != under || moved_far(lx, ly, pos))),
                    _ => !r,
                }
            }),
            timing == Timing::AfterProcessEvent && r ==> final(self).last_window() == under
                && final(self).last_pos() == (pixel_center(pos.x as int), pixel_center(pos.y as int)),
            timing == Timing::BeforeProcessEvent || !r ==> *final(self) == *old(self),
    {
        match (timing, event) {
            (Timing::BeforeProcessEvent, PointerEventKind::ButtonPressed) => !pointer_grabbed,
            (Timing::AfterProcessEvent, PointerEventKind::Motion) => {
                if !focus_follows_mouse {
                    return false;
                }
                let dx = pos.x as i128 - self.last_x as i128;
                let dy = pos.y as i128 - self.last_y as i128;
                let t = (DISTANCE_THRESHOLD * SUBPIXELS) as i128;
                assert(0 <= dx * dx <= 0x3_0000_0000 * 0x3_0000_0000) by (nonlinear_arith)
                    requires
                        -0x3_0000_0000 <= dx <= 0x3_0000_0000,
                ;
                assert(0 <= dy * dy <= 0x3_0000_0000 * 0x3_0000_0000) by (nonlinear_arith)
                    requires
                        -0x3_0000_0000 <= dy <= 0x3_0000_0000,
                ;
                let far = dx * dx + dy * dy > t * t;
                let ret = self.last_window_id != under || far;
                if ret {
                    self.remember(under, pos);
                }
                ret
            },
            _ => false,
        }
    }
}

fn center_of_pixel(v: i32) -> (r: i64)
    ensures
        r == pixel_center(v as int),
        i32::MIN <= r <= i32::MAX as int + SUBPIXELS,
{
    let q = if v >= 0 {
        v as i64 / SUBPIXELS
    } else {
        -((-(v as i64) + SUBPIXELS - 1) / SUBPIXELS)
    };
    proof {
        let vi = v as int;
        let s = SUBPIXELS as int;
        if v >= 0 {
            assert(q == vi / s);
        } else {
            let m = (-vi + s - 1) / s;
            assert(m * s <= -vi + s - 1 < m * s + s) by (nonlinear_arith)
                requires
                    m == (-vi + s - 1) / s,
                    s == 256,
                    -vi + s - 1 >= 0,
            ;
            assert((-m) * s <= vi < (-m) * s + s) by (nonlinear_arith)
                requires
                    m * s <= -vi + s - 1 < m * s + s,
            ;
            vstd::arithmetic::div_mod::lemma_fundamental_div_mod(vi, s);
            assert(vi / s == -m) by (nonlinear_arith)
                requires
                    (-m) * s <= vi < (-m) * s + s,
                    vi == s * (vi / s) + vi % s,
                    0 <= vi % s < s,
                    s == 256,
            ;
        }
        assert(q * s <= vi) by (nonlinear_arith)
            requires
                q == vi / s,
                s == 256,
        ;
        assert(vi < q * s + s) by (nonlinear_arith)
            requires
                q == vi / s,
                s == 256,
        ;
    }
    q * SUBPIXELS + SUBPIXELS / 2
}

} // verus!
