use vstd::prelude::*;
use crate::focus_decider::{SubpixelPoint, SUBPIXELS};
use crate::geometry::Rect;
use crate::stackset::{floated, FloatWindow};
use crate::view::{layout_geometry, OutputView};
use crate::window::WindowId;

verus! {

/// `v` sub-pixels in whole pixels, rounded half away from zero.
pub open spec fn round_to_pixel(v: int) -> int {
    if v >= 0 {
        (v + SUBPIXELS as int / 2) / SUBPIXELS as int
    } else {
        -((-v + SUBPIXELS as int / 2) / SUBPIXELS as int)
    }
}

/// `v` forced into the range of `i32`.
pub open spec fn clamp_i32(v: int) -> i32 {
    if v < i32::MIN {
        i32::MIN
    } else if v > i32::MAX {
        i32::MAX
    } else {
        v as i32
    }
}

/// An interactive move of a floating window: the window follows the
/// pointer, keeping the offset it had when the grab started, until the
/// grabbing button is released.
#[derive(Debug, Clone, Copy, PartialEq, Eq, Structural)]
pub struct WindowMoveGrab {
    pub window_id: WindowId,
    /// The button whose release ends the grab.
    pub button: u32,
    /// Pointer position relative to the window's top-left corner, in
    /// sub-pixels.
    pub grabbed_x: i64,
    pub grabbed_y: i64,
}

/// Whether a pointer grab is in progress.
#[derive(Debug, Clone, Copy, PartialEq, Eq, Structural)]
pub enum GrabState {
    Idle,
    Moving(WindowMoveGrab),
}

impl WindowMoveGrab {
    /// The offset is one that `start` can produce.
    pub open spec fn wf(&self) -> bool {
        &&& i32::MIN as int * SUBPIXELS * 2 <= self.grabbed_x <= i32::MAX as int * SUBPIXELS * 2
        &&& i32::MIN as int * SUBPIXELS * 2 <= self.grabbed_y <= i32::MAX as int * SUBPIXELS * 2
    }

    /// Starts moving `window_id`, whose top-left corner is at `(x, y)`,
    /// grabbed with `button` at `pointer`.
    pub fn start(window_id: WindowId, button: u32, pointer: SubpixelPoint, x: i32, y: i32) -> (g: Self)
        ensures
            g.window_id == window_id,
            g.button == button,
            g.grabbed_x == pointer.x - x * SUBPIXELS,
            g.grabbed_y == pointer.y - y * SUBPIXELS,
            g.wf(),
    {
        WindowMoveGrab {
            window_id,
            button,
            grabbed_x: pointer.x as i64 - x as i64 * SUBPIXELS,
            grabbed_y: pointer.y as i64 - y as i64 * SUBPIXELS,
        }
    }

    /// Where the window's top-left corner goes for a pointer at `p`.
    pub open spec fn target(&self, p: SubpixelPoint) -> (i32, i32) {
        (
            clamp_i32(round_to_pixel(p.x - self.grabbed_x)),
            clamp_i32(round_to_pixel(p.y - self.grabbed_y)),
        )
    }

    /// Moves the grabbed window, if it still floats, so that it keeps its
    /// offset to the pointer; its size is kept.
    pub fn motion(&self, view: &mut OutputView, pointer: SubpixelPoint)
        requires
            old(view).wf(),
            self.wf(),
        ensures
            final(view).wf(),
            final(view).stackset_spec().windows() == old(view).stackset_spec().windows(),
            final(view).stackset_spec().workspaces == old(view).stackset_spec().workspaces,
            ({
                let fs = old(view).stackset_spec().float_windows@;
                let ids = old(view).stackset_spec().floats();
                let k = ids.index_of(self.window_id);
                let (x, y) = self.target(pointer);
                &&& ids.contains(self.window_id) ==> final(view).stackset_spec().float_windows@
                    == fs.update(
                    k,
                    FloatWindow {
                        id: self.window_id,
                        geometry: Rect { x, y, w: fs[k].geometry.w, h: fs[k].geometry.h },
                    },
                )
                &&& !ids.contains(self.window_id) ==> final(view).stackset_spec().float_windows@ == fs
            }),
    {
        let k = match view.stackset().find_in_floats(self.window_id) {
            Some(k) => k,
            None => {
                return ;
            },
        };
        proof {
            let ids = view.stackset_spec().floats();
            assert(ids[k as int] == self.window_id);
            assert(ids.index_of(self.window_id) == k);
        }
        let old_geometry = view.stackset().float_windows[k].geometry;
        let x = round_clamp(pointer.x as i64 - self.grabbed_x);
        let y = round_clamp(pointer.y as i64 - self.grabbed_y);
        view.set_float_geometry(self.window_id, Rect { x, y, w: old_geometry.w, h: old_geometry.h });
    }

    /// Whether a button event ends the grab: the grabbing button is released.
    pub fn releases(&self, button: u32, pressed: bool) -> (r: bool)
        ensures
            r == (button == self.button && !pressed),
    {
        button == self.button && !pressed
    }
}

impl GrabState {
    /// Starts `g` unless a grab is already in progress.
    pub fn begin(self, g: WindowMoveGrab) -> (r: GrabState)
        ensures
            r == if self == GrabState::Idle {
                GrabState::Moving(g)
            } else {
                self
            },
    {
        match self {
            GrabState::Idle => GrabState::Moving(g),
            GrabState::Moving(_) => self,
        }
    }

    /// A button event: the grab ends when its button is released.
    pub fn on_button(self, button: u32, pressed: bool) -> (r: GrabState)
        ensures
            r == match self {
                GrabState::Moving(g) => if button == g.button && !pressed {
                    GrabState::Idle
                } else {
                    self
                },
                GrabState::Idle => GrabState::Idle,
            },
    {
        match self {
            GrabState::Moving(g) => {
                if g.releases(button, pressed) {
                    GrabState::Idle
                } else {
                    self
                }
            },
            GrabState::Idle => GrabState::Idle,
        }
    }
}

/// Starts moving `window_id`, grabbed with `button` at `pointer`: the
/// window floats where the last layout pass put it and the grab keeps the
/// pointer's offset to its corner. Nothing happens while another grab is in
/// progress or when the window is unknown.
pub fn grab_window_for_move(
    state: GrabState,
    view: &mut OutputView,
    window_id: WindowId,
    button: u32,
    pointer: SubpixelPoint,
) -> (r: GrabState)
    requires
        old(view).wf(),
    ensures
        final(view).wf(),
        ({
            let ss = old(view).stackset_spec();
            let g = layout_geometry(old(view), window_id);
            if state == GrabState::Idle && ss.windows().contains(window_id) {
                &&& r == GrabState::Moving(
                    WindowMoveGrab {
                        window_id,
                        button,
                        grabbed_x: (pointer.x - g.x * SUBPIXELS) as i64,
                        grabbed_y: (pointer.y - g.y * SUBPIXELS) as i64,
                    },
                )
                &&& floated(&ss, &final(view).stackset_spec(), window_id, g)
            } else {
                &&& r == state
                &&& final(view).stackset_spec() == ss
            }
        }),
        final(view).rect_spec() == old(view).rect_spec(),
        final(view).next_id() == old(view).next_id(),
{
    if state != GrabState::Idle || !view.stackset().contains_window(window_id) {
        return state;
    }
    let g = match view.geometry_of(window_id) {
        Some(g) => g,
        None => view.rect(),
    };
    view.make_window_float(window_id);
    GrabState::Moving(WindowMoveGrab::start(window_id, button, pointer, g.x, g.y))
}

fn round_clamp(v: i64) -> (r: i32)
    requires
        i32::MIN as int * SUBPIXELS * 4 <= v <= i32::MAX as int * SUBPIXELS * 4,
    ensures
        r == clamp_i32(round_to_pixel(v as int)),
{
    let p = if v >= 0 {
        (v + SUBPIXELS / 2) / SUBPIXELS
    } else {
        -((-v + SUBPIXELS / 2) / SUBPIXELS)
    };
    if p < i32::MIN as i64 {
        i32::MIN
    } else if p > i32::MAX as i64 {
        i32::MAX
    } else {
        p as i32
    }
}

} // verus!
