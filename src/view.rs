use vstd::prelude::*;
use crate::geometry::{Border, Rect, WindowProps};
use crate::layout::{layout_spec, LayoutMessage, LayoutTreeBuilder, handle_spec, template_ok};
use crate::stackset::{floated, focus_set, pruned, same_tags, FloatWindow, StackSet, WindowFocusType, WorkspaceTag};
use crate::window::{IdArena, WindowId};

verus! {

/// What one output shows: the stack set, the output's rectangle, the
/// border of floating windows, and where the last layout pass put each
/// window.
#[derive(Debug)]
pub struct OutputView {
    stackset: StackSet,
    rect: Rect,
    border_for_float_window: Border,
    arena: IdArena,
    last_layout: Vec<(WindowId, WindowProps)>,
}

/// The floating windows, framed by `b`, in order.
pub open spec fn float_entries(fs: Seq<FloatWindow>, b: Border) -> Seq<(WindowId, WindowProps)> {
    fs.map_values(|f: FloatWindow| (f.id, WindowProps { geometry: f.geometry, border: b }))
}

/// The full assignment for stack set `ss` on `rect`: the focused
/// workspace's layout tree on its stack, then the floating windows.
pub open spec fn view_layout_spec(ss: StackSet, rect: Rect, b: Border) -> Seq<(WindowId, WindowProps)> {
    let ws = ss.workspaces@[ss.workspaces.index() as int];
    layout_spec(ws.layout_tree.nodes(), ws.layout_tree.root() as int, rect, ws.stack@, ws.stack.index())
        + float_entries(ss.float_windows@, b)
}

/// `b` is `a` after `msg` went down the focused workspace's layout tree,
/// with result `handled`: only that tree's nodes changed.
pub open spec fn layout_message_handled(a: &OutputView, b: &OutputView, msg: LayoutMessage, handled: bool) -> bool {
    let ss = a.stackset_spec();
    let f = ss.workspaces.index() as int;
    let t = ss.workspaces@[f].layout_tree;
    let nss = b.stackset_spec();
    &&& (nss.workspaces@[f].layout_tree.nodes(), handled) == handle_spec(t.nodes(), t.root() as int, msg)
    &&& nss.workspaces@[f].layout_tree.root() == t.root()
    &&& nss.workspaces@[f].stack == ss.workspaces@[f].stack
    &&& nss.workspaces@[f].tag == ss.workspaces@[f].tag
    &&& nss.workspaces@.len() == ss.workspaces@.len()
    &&& nss.workspaces.index() == ss.workspaces.index()
    &&& forall|k: int|
        0 <= k < ss.workspaces@.len() && k != f ==> #[trigger] nss.workspaces@[k] == ss.workspaces@[k]
    &&& nss.float_windows == ss.float_windows
    &&& nss.window_focus_type == ss.window_focus_type
    &&& nss.windows() == ss.windows()
    &&& b.rect_spec() == a.rect_spec()
    &&& b.float_border() == a.float_border()
    &&& b.next_id() == a.next_id()
}

/// Where the last layout pass of `v` put `id`, or the whole output if it
/// did not lay it out.
pub open spec fn layout_geometry(v: &OutputView, id: WindowId) -> Rect {
    match last_geometry(v.last_layout_spec(), id) {
        Some(g) => g,
        None => v.rect_spec(),
    }
}

/// Where the last entry for `id` in `q` put it, if anywhere.
pub open spec fn last_geometry(q: Seq<(WindowId, WindowProps)>, id: WindowId) -> Option<Rect>
    decreases q.len(),
{
    if q.len() == 0 {
        None
    } else if q.last().0 == id {
        Some(q.last().1.geometry)
    } else {
        last_geometry(q.drop_last(), id)
    }
}

impl OutputView {
    pub closed spec fn stackset_spec(&self) -> StackSet {
        self.stackset
    }

    pub closed spec fn rect_spec(&self) -> Rect {
        self.rect
    }

    pub closed spec fn float_border(&self) -> Border {
        self.border_for_float_window
    }

    /// The identifier the next registered window gets.
    pub closed spec fn next_id(&self) -> u64 {
        self.arena.next_id()
    }

    /// The assignment the last layout pass produced.
    pub closed spec fn last_layout_spec(&self) -> Seq<(WindowId, WindowProps)> {
        self.last_layout@
    }

    /// The stack set is well formed, the output rectangle is valid, and
    /// every window was numbered before the next identifier.
    pub open spec fn wf(&self) -> bool {
        &&& self.stackset_spec().wf()
        &&& self.rect_spec().wf()
        &&& forall|id: WindowId| #[trigger]
            self.stackset_spec().windows().contains(id) ==> id.0 < self.next_id()
    }

    /// A view with one workspace per tag, each laid out by a tree built from
    /// `builder`. `None` when there is no tag, the template is malformed or
    /// the rectangle is not valid.
    pub fn new(
        tags: Vec<WorkspaceTag>,
        builder: &LayoutTreeBuilder,
        rect: Rect,
        border_for_float_window: Border,
    ) -> (r: Option<OutputView>)
        ensures
            r is Some <==> tags@.len() > 0 && template_ok(builder.nodes(), builder.root())
                && rect.wf(),
            r matches Some(v) ==> {
                &&& v.wf()
                &&& v.stackset_spec().windows() == Set::<WindowId>::empty()
                &&& v.stackset_spec().workspaces@.len() == tags@.len()
                &&& v.stackset_spec().workspaces.index() == 0
                &&& v.rect_spec() == rect
                &&& v.float_border() == border_for_float_window
                &&& v.next_id() == 0
            },
    {
        if !(rect.w >= 0 && rect.h >= 0 && rect.x as i64 + rect.w as i64 <= i32::MAX as i64
            && rect.y as i64 + rect.h as i64 <= i32::MAX as i64) {
            return None;
        }
        match StackSet::new(tags, builder) {
            Some(stackset) => Some(
                OutputView {
                    stackset,
                    rect,
                    border_for_float_window,
                    arena: IdArena::new(),
                    last_layout: Vec::new(),
                },
            ),
            None => None,
        }
    }

    pub fn stackset(&self) -> (r: &StackSet)
        ensures
            *r == self.stackset_spec(),
    {
        &self.stackset
    }

    pub fn rect(&self) -> (r: Rect)
        ensures
            r == self.rect_spec(),
    {
        self.rect
    }

    /// Mutable access to the stack set for operations that keep its set of
    /// windows.
    pub(crate) fn stackset_mut(&mut self) -> (r: &mut StackSet)
        ensures
            *r == old(self).stackset_spec(),
            final(self).stackset_spec() == *final(r),
            final(self).rect_spec() == old(self).rect_spec(),
            final(self).float_border() == old(self).float_border(),
            final(self).next_id() == old(self).next_id(),
            final(self).last_layout_spec() == old(self).last_layout_spec(),
    {
        &mut self.stackset
    }

    /// Lays out the focused workspace and the floating windows, remembers
    /// the result and returns it.
    pub fn layout(&mut self) -> (q: Vec<(WindowId, WindowProps)>)
        requires
            old(self).wf(),
        ensures
            q@ == view_layout_spec(old(self).stackset_spec(), old(self).rect_spec(), old(self).float_border()),
            final(self).last_layout_spec() == q@,
            final(self).stackset_spec() == old(self).stackset_spec(),
            final(self).rect_spec() == old(self).rect_spec(),
            final(self).float_border() == old(self).float_border(),
            final(self).next_id() == old(self).next_id(),
            final(self).wf(),
    {
        let ws = self.stackset.workspaces.focus();
        proof {
            let f = self.stackset.workspaces.index() as int;
            assert(self.stackset.workspaces@[f].layout_tree.wf());
        }
        let tree = &ws.layout_tree;
        let mut q = tree.layout(tree.root_id(), self.rect, ws.stack.as_vec(), ws.stack.focused_index());
        let ghost q0 = q@;
        let mut k: usize = 0;
        while k < self.stackset.float_windows.len()
            invariant
                k <= self.stackset.float_windows@.len(),
                q@ == q0 + float_entries(self.stackset.float_windows@, self.border_for_float_window).subrange(0, k as int),
            decreases self.stackset.float_windows@.len() - k,
        {
            let fw = self.stackset.float_windows[k];
            q.push((fw.id, WindowProps { geometry: fw.geometry, border: self.border_for_float_window }));
            assert(float_entries(self.stackset.float_windows@, self.border_for_float_window).subrange(0, k as int + 1)
                =~= float_entries(self.stackset.float_windows@, self.border_for_float_window).subrange(0, k as int).push(
                (fw.id, WindowProps { geometry: fw.geometry, border: self.border_for_float_window })));
            k = k + 1;
        }
        assert(float_entries(self.stackset.float_windows@, self.border_for_float_window).subrange(
            0, self.stackset.float_windows@.len() as int) =~= float_entries(self.stackset.float_windows@, self.border_for_float_window));
        self.last_layout = copy_layout(&q);
        q
    }

    /// Sends `msg` down the focused workspace's layout tree.
    pub fn handle_layout_message(&mut self, msg: &LayoutMessage) -> (handled: bool)
        requires
            old(self).wf(),
        ensures
            final(self).wf(),
            layout_message_handled(old(self), final(self), *msg, handled),
    {
        let ghost a = self.stackset;
        let f = self.stackset.workspaces.focused_index();
        proof {
            assert(a.workspaces@[f as int].layout_tree.wf());
        }
        let ws = self.stackset.workspaces.get_mut(f);
        let root = ws.layout_tree.root_id();
        let handled = ws.layout_tree.handle_message(root, msg);
        proof {
            let b = self.stackset;
            assert(b.stacks() =~= a.stacks());
            assert forall|k: int| 0 <= k < b.workspaces@.len() implies (#[trigger] b.workspaces@[k]).stack.wf()
                && b.workspaces@[k].layout_tree.wf() by {
                if k != f {
                    assert(b.workspaces@[k] == a.workspaces@[k]);
                }
            }
            assert(b.windows() =~= a.windows());
        }
        handled
    }

    /// Changes the output's size; the origin moves to (0, 0).
    pub fn resize_output(&mut self, w: i32, h: i32)
        requires
            old(self).wf(),
            w >= 0,
            h >= 0,
        ensures
            final(self).wf(),
            final(self).rect_spec() == (Rect { x: 0, y: 0, w, h }),
            final(self).stackset_spec() == old(self).stackset_spec(),
            final(self).float_border() == old(self).float_border(),
            final(self).next_id() == old(self).next_id(),
    {
        self.rect = Rect::from_size(w, h);
    }

    /// Registers a new window on the focused workspace and returns its
    /// fresh identifier; `None` once identifiers are exhausted.
    pub fn register_window(&mut self) -> (r: Option<WindowId>)
        requires
            old(self).wf(),
        ensures
            final(self).wf(),
            old(self).next_id() < u64::MAX <==> r is Some,
            r matches Some(id) ==> {
                let ss = old(self).stackset_spec();
                let f = ss.workspaces.index() as int;
                &&& id == WindowId(old(self).next_id())
                &&& !ss.windows().contains(id)
                &&& final(self).stackset_spec().windows() == ss.windows().insert(id)
                &&& final(self).stackset_spec().same_but_stack(&ss, f)
                &&& final(self).stackset_spec().stacks()[f] == ss.stacks()[f].push(id)
                &&& final(self).stackset_spec().workspaces@[f].stack.index() == ss.workspaces@[f].stack.index()
                &&& final(self).stackset_spec().float_windows@ == ss.float_windows@
                &&& final(self).stackset_spec().window_focus_type == ss.window_focus_type
            },
            r is None ==> final(self).stackset_spec() == old(self).stackset_spec(),
            r is Some ==> final(self).next_id() == old(self).next_id() + 1,
            r is None ==> final(self).next_id() == old(self).next_id(),
            final(self).rect_spec() == old(self).rect_spec(),
            final(self).float_border() == old(self).float_border(),
    {
        let id = match self.arena.fresh() {
            Some(id) => id,
            None => {
                return None;
            },
        };
        proof {
            if self.stackset.windows().contains(id) {
                assert(id.0 < old(self).next_id());
            }
        }
        self.stackset.register_window(id);
        Some(id)
    }

    /// Forgets the windows in `dead` (those whose surfaces are gone), and
    /// says whether any of them was known.
    pub fn refresh(&mut self, dead: &Vec<WindowId>) -> (changed: bool)
        requires
            old(self).wf(),
        ensures
            final(self).wf(),
            changed == exists|i: int|
                0 <= i < dead@.len() && old(self).stackset_spec().windows().contains(#[trigger] dead@[i]),
            pruned(&old(self).stackset_spec(), &final(self).stackset_spec(), dead@),
            final(self).rect_spec() == old(self).rect_spec(),
            final(self).float_border() == old(self).float_border(),
            final(self).next_id() == old(self).next_id(),
    {
        let mut i: usize = 0;
        let mut changed = false;
        while i < dead.len()
            invariant
                *self == *old(self),
                old(self).wf(),
                i <= dead@.len(),
                changed == exists|j: int|
                    0 <= j < i && old(self).stackset_spec().windows().contains(#[trigger] dead@[j]),
            decreases dead@.len() - i,
        {
            if self.stackset.contains_window(dead[i]) {
                changed = true;
            }
            i = i + 1;
        }
        self.stackset.remove_windows(dead);
        changed
    }

    pub fn set_focus(&mut self, window_id: WindowId)
        requires
            old(self).wf(),
        ensures
            final(self).wf(),
            final(self).stackset_spec().windows() == old(self).stackset_spec().windows(),
            old(self).stackset_spec().windows().contains(window_id) ==> final(self).stackset_spec().focused_window_spec() == Some(window_id),
            !old(self).stackset_spec().windows().contains(window_id) ==> final(self).stackset_spec() == old(self).stackset_spec(),
            focus_set(&old(self).stackset_spec(), &final(self).stackset_spec(), window_id),
            final(self).rect_spec() == old(self).rect_spec(),
            final(self).next_id() == old(self).next_id(),
    {
        self.stackset.set_focus(window_id);
    }

    pub fn focused_window(&self) -> (r: Option<WindowId>)
        requires
            self.wf(),
        ensures
            r == self.stackset_spec().focused_window_spec(),
    {
        self.stackset.focused_window()
    }

    /// Where the last layout pass put `id`, if it did.
    pub fn geometry_of(&self, id: WindowId) -> (r: Option<Rect>)
        ensures
            r == last_geometry(self.last_layout_spec(), id),
    {
        let mut k: usize = self.last_layout.len();
        assert(self.last_layout@.subrange(0, k as int) =~= self.last_layout@);
        while k > 0
            invariant
                k <= self.last_layout@.len(),
                last_geometry(self.last_layout@, id) == last_geometry(self.last_layout@.subrange(0, k as int), id),
            decreases k,
        {
            let ghost s = self.last_layout@.subrange(0, k as int);
            assert(s.drop_last() =~= self.last_layout@.subrange(0, k as int - 1));
            if self.last_layout[k - 1].0 == id {
                return Some(self.last_layout[k - 1].1.geometry);
            }
            k = k - 1;
        }
        assert(self.last_layout@.subrange(0, 0) =~= Seq::<(WindowId, WindowProps)>::empty());
        None
    }

    /// Makes `window_id` float where the last layout pass put it (or over
    /// the whole output if it was not laid out), as the most recently
    /// focused floating window, and focuses it.
    pub fn make_window_float(&mut self, window_id: WindowId)
        requires
            old(self).wf(),
        ensures
            final(self).wf(),
            old(self).stackset_spec().windows().contains(window_id) ==> floated(
                &old(self).stackset_spec(),
                &final(self).stackset_spec(),
                window_id,
                layout_geometry(old(self), window_id),
            ),
            !old(self).stackset_spec().windows().contains(window_id) ==> final(self).stackset_spec()
                == old(self).stackset_spec(),
            final(self).rect_spec() == old(self).rect_spec(),
            final(self).float_border() == old(self).float_border(),
            final(self).next_id() == old(self).next_id(),
            final(self).last_layout_spec() == old(self).last_layout_spec(),
    {
        let geometry = match self.geometry_of(window_id) {
            Some(g) => g,
            None => self.rect,
        };
        self.stackset.make_window_float(window_id, geometry);
    }

    /// Moves the floating window `window_id` to `geometry`. Nothing happens
    /// if it does not float.
    pub fn set_float_geometry(&mut self, window_id: WindowId, geometry: Rect)
        requires
            old(self).wf(),
        ensures
            final(self).wf(),
            ({
                let fs = old(self).stackset_spec().float_windows@;
                let ids = old(self).stackset_spec().floats();
                &&& ids.contains(window_id) ==> final(self).stackset_spec().float_windows@ == fs.update(
                    ids.index_of(window_id),
                    FloatWindow { id: window_id, geometry },
                )
                &&& !ids.contains(window_id) ==> final(self).stackset_spec().float_windows@ == fs
            }),
            final(self).stackset_spec().workspaces == old(self).stackset_spec().workspaces,
            final(self).stackset_spec().window_focus_type == old(self).stackset_spec().window_focus_type,
            final(self).stackset_spec().windows() == old(self).stackset_spec().windows(),
            final(self).rect_spec() == old(self).rect_spec(),
            final(self).next_id() == old(self).next_id(),
    {
        let ghost a = self.stackset;
        let n = self.stackset.float_windows.len();
        let mut k: usize = n;
        while k > 0
            invariant
                *self == *old(self),
                old(self).wf(),
                self.stackset == a,
                a.wf(),
                k <= n,
                n == a.float_windows@.len(),
                forall|m: int| k <= m < n ==> a.floats()[m] != window_id,
            decreases k,
        {
            if self.stackset.float_windows[k - 1].id == window_id {
                self.stackset.float_windows.set(k - 1, FloatWindow { id: window_id, geometry });
                proof {
                    assert(a.floats()[k - 1] == window_id);
                    assert(a.floats().index_of(window_id) == k - 1);
                    assert(self.stackset.floats() =~= a.floats());
                    assert(self.stackset.stacks() == a.stacks());
                    assert(self.stackset.windows() =~= a.windows());
                    assert(self.stackset.float_windows@.len() == n);
                    assert(self.stackset.wf());
                    assert(self.rect == old(self).rect);
                    assert(self.arena == old(self).arena);
                    assert(self.rect_spec().wf());
                    assert(self.next_id() == old(self).next_id());
                    assert(self.stackset_spec().windows() == old(self).stackset_spec().windows());
                }
                return;
            }
            k = k - 1;
        }
    }
}

fn copy_layout(q: &Vec<(WindowId, WindowProps)>) -> (r: Vec<(WindowId, WindowProps)>)
    ensures
        r@ == q@,
{
    let mut r: Vec<(WindowId, WindowProps)> = Vec::new();
    let mut i: usize = 0;
    while i < q.len()
        invariant
            i <= q@.len(),
            r@ == q@.subrange(0, i as int),
        decreases q@.len() - i,
    {
        r.push(q[i]);
        i = i + 1;
    }
    assert(r@ =~= q@);
    r
}

} // verus!
