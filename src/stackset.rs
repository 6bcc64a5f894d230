use vstd::prelude::*;
use vstd::seq_lib::lemma_no_dup_in_concat;
use crate::focused_vec::{clamp_focus, mod_plus, FocusedVec, NonEmptyFocusedVec};
use crate::geometry::Rect;
use vstd::arithmetic::div_mod::{lemma_mod_add_multiples_vanish, lemma_mod_pos_bound};
use crate::layout::{template_ok, LayoutTree, LayoutTreeBuilder};
use crate::window::WindowId;

verus! {

/// Label of a workspace, unique among workspaces.
#[derive(Debug, Clone, PartialEq, Eq)]
pub struct WorkspaceTag(pub String);

/// A workspace: its tag, its stack of tiled windows and its own layout tree.
#[derive(Debug)]
pub struct Workspace {
    pub tag: WorkspaceTag,
    pub stack: FocusedVec<WindowId>,
    pub layout_tree: LayoutTree,
}

/// A window placed by explicit geometry rather than by a layout.
#[derive(Debug, Clone, Copy, PartialEq, Eq, Structural)]
pub struct FloatWindow {
    pub id: WindowId,
    pub geometry: Rect,
}

/// Which container holds the input focus.
#[derive(Debug, Clone, Copy, PartialEq, Eq, Structural)]
pub enum WindowFocusType {
    /// The focused window of the focused workspace's stack, if any.
    Stack,
    /// The last floating window.
    Float,
}

/// All workspaces, the floating windows (least recently focused first) and
/// the kind of window that holds the focus.
#[derive(Debug)]
pub struct StackSet {
    pub workspaces: NonEmptyFocusedVec<Workspace>,
    pub float_windows: Vec<FloatWindow>,
    pub window_focus_type: WindowFocusType,
}

impl Workspace {
    pub fn stack(&self) -> (r: &FocusedVec<WindowId>)
        ensures
            *r == self.stack,
    {
        &self.stack
    }

    /// Moves this workspace's focus `count` places, wrapping around.
    /// Nothing happens on an empty stack.
    pub fn focus_next_window(&mut self, count: isize)
        requires
            old(self).stack.wf(),
        ensures
            final(self).stack@ == old(self).stack@,
            final(self).stack.wf(),
            final(self).stack.index() == if old(self).stack@.len() == 0 {
                old(self).stack.index()
            } else {
                mod_plus(old(self).stack.index() as int, count as int, old(self).stack@.len() as int) as nat
            },
            final(self).tag == old(self).tag,
            final(self).layout_tree == old(self).layout_tree,
    {
        if !self.stack.is_empty() {
            let i = self.stack.mod_plus_focused_index(count);
            self.stack.set_focused_index(i);
        }
    }
}

/// The identifiers of a list of floating windows, in order.
pub open spec fn ids_of(fs: Seq<FloatWindow>) -> Seq<WindowId> {
    fs.map_values(|f: FloatWindow| f.id)
}

/// `s` without its occurrence of `id`, if it has one.
pub open spec fn without(s: Seq<WindowId>, id: WindowId) -> Seq<WindowId> {
    if s.contains(id) {
        s.remove(s.index_of(id))
    } else {
        s
    }
}

/// `fs` without the floating window `id`, if it holds it.
pub open spec fn floats_without(fs: Seq<FloatWindow>, id: WindowId) -> Seq<FloatWindow> {
    if ids_of(fs).contains(id) {
        fs.remove(ids_of(fs).index_of(id))
    } else {
        fs
    }
}

/// After removing `id` from the floating windows, a `Float` focus with
/// nothing left to focus falls back to the stack.
pub open spec fn focus_type_after(t: WindowFocusType, fs: Seq<FloatWindow>) -> WindowFocusType {
    if fs.len() == 0 {
        WindowFocusType::Stack
    } else {
        t
    }
}

impl StackSet {
    /// The stacks' contents, workspace by workspace.
    pub open spec fn stacks(&self) -> Seq<Seq<WindowId>> {
        self.workspaces@.map_values(|w: Workspace| w.stack@)
    }

    /// The floating windows' identifiers, least recently focused first.
    pub open spec fn floats(&self) -> Seq<WindowId> {
        ids_of(self.float_windows@)
    }

    pub open spec fn in_some_stack(&self, id: WindowId) -> bool {
        exists|i: int| 0 <= i < self.stacks().len() && #[trigger] self.stacks()[i].contains(id)
    }

    /// The workspace whose stack holds `id`.
    pub open spec fn stack_of(&self, id: WindowId) -> int {
        choose|i: int| 0 <= i < self.stacks().len() && #[trigger] self.stacks()[i].contains(id)
    }

    /// The stacks' contents, workspace by workspace, followed by the
    /// floating windows.
    pub open spec fn all_windows(&self) -> Seq<WindowId> {
        self.stacks().flatten() + self.floats()
    }

    /// Every window the stack set holds.
    pub open spec fn windows(&self) -> Set<WindowId> {
        Set::new(|id: WindowId| self.in_some_stack(id) || self.floats().contains(id))
    }

    /// Each window sits in exactly one place, every focus index is valid,
    /// every layout tree is well formed, and a `Float` focus has a floating
    /// window to focus.
    pub open spec fn wf(&self) -> bool {
        &&& self.workspaces.wf()
        &&& forall|i: int|
            0 <= i < self.workspaces@.len() ==> (#[trigger] self.workspaces@[i]).stack.wf()
                && self.workspaces@[i].layout_tree.wf()
        &&& forall|i: int|
            0 <= i < self.stacks().len() ==> (#[trigger] self.stacks()[i]).no_duplicates()
        &&& self.floats().no_duplicates()
        &&& forall|i: int, j: int, id: WindowId|
            0 <= i < self.stacks().len() && 0 <= j < self.stacks().len() && i != j
                && #[trigger] self.stacks()[i].contains(id) ==> !#[trigger] self.stacks()[j].contains(
                id,
            )
        &&& forall|i: int, id: WindowId|
            0 <= i < self.stacks().len() && #[trigger] self.stacks()[i].contains(id)
                ==> !self.floats().contains(id)
        &&& self.window_focus_type == WindowFocusType::Float ==> self.float_windows@.len() > 0
    }

    /// `self` and `o` agree on every workspace but `i`, whose tag and layout
    /// tree they share too, and on the workspace focus.
    pub open spec fn same_but_stack(&self, o: &StackSet, i: int) -> bool {
        &&& self.workspaces@.len() == o.workspaces@.len()
        &&& self.workspaces.index() == o.workspaces.index()
        &&& 0 <= i < self.workspaces@.len()
        &&& forall|k: int|
            0 <= k < self.workspaces@.len() && k != i ==> #[trigger] self.workspaces@[k]
                == o.workspaces@[k]
        &&& self.workspaces@[i].tag == o.workspaces@[i].tag
        &&& self.workspaces@[i].layout_tree == o.workspaces@[i].layout_tree
    }

    /// The focused window: the stack's focused window or the last floating one.
    pub open spec fn focused_window_spec(&self) -> Option<WindowId> {
        match self.window_focus_type {
            WindowFocusType::Stack => self.workspaces@[self.workspaces.index() as int].stack.focused(),
            WindowFocusType::Float => {
                if self.float_windows@.len() > 0 {
                    Some(self.floats().last())
                } else {
                    None
                }
            },
        }
    }
}

/// Replacing one workspace's stack keeps the stack set well formed when
/// the new stack only holds windows of the old stack or windows held
/// nowhere before.
proof fn lemma_stack_change(a: &StackSet, b: &StackSet, i: int)
    requires
        a.wf(),
        b.same_but_stack(a, i),
        b.float_windows@ == a.float_windows@,
        b.window_focus_type == a.window_focus_type,
        b.workspaces@[i].stack.wf(),
        b.stacks()[i].no_duplicates(),
        forall|x: WindowId|
            #[trigger] b.stacks()[i].contains(x) ==> a.stacks()[i].contains(x) || !a.windows().contains(
                x,
            ),
    ensures
        b.wf(),
        forall|x: WindowId|
            #[trigger] b.windows().contains(x) <==> (a.windows().contains(x) && !(a.stacks()[i].contains(
                x,
            ) && !b.stacks()[i].contains(x))) || b.stacks()[i].contains(x),
{
    assert(b.stacks().len() == a.stacks().len());
    assert forall|k: int| 0 <= k < b.stacks().len() && k != i implies #[trigger] b.stacks()[k]
        == a.stacks()[k] by {
        assert(b.workspaces@[k] == a.workspaces@[k]);
    }
    assert forall|k: int| 0 <= k < b.workspaces@.len() implies (#[trigger] b.workspaces@[k]).stack.wf()
        && b.workspaces@[k].layout_tree.wf() by {
        if k != i {
            assert(b.workspaces@[k] == a.workspaces@[k]);
        }
    }
    assert forall|k: int| 0 <= k < b.stacks().len() implies (#[trigger] b.stacks()[k]).no_duplicates() by {
        if k != i {
            assert(b.stacks()[k] == a.stacks()[k]);
        }
    }
    assert forall|k: int, j: int, id: WindowId|
        0 <= k < b.stacks().len() && 0 <= j < b.stacks().len() && k != j
            && #[trigger] b.stacks()[k].contains(id) implies !#[trigger] b.stacks()[j].contains(id) by {
        if k == i {
            assert(b.stacks()[j] == a.stacks()[j]);
            if !a.stacks()[i].contains(id) {
                assert(!a.windows().contains(id));
                assert(!a.in_some_stack(id));
            }
        } else if j == i {
            assert(b.stacks()[k] == a.stacks()[k]);
            if b.stacks()[j].contains(id) {
                if !a.stacks()[i].contains(id) {
                    assert(!a.windows().contains(id));
                    assert(!a.in_some_stack(id));
                    assert(a.stacks()[k].contains(id));
                }
            }
        } else {
            assert(b.stacks()[k] == a.stacks()[k]);
            assert(b.stacks()[j] == a.stacks()[j]);
        }
    }
    assert forall|k: int, id: WindowId|
        0 <= k < b.stacks().len() && #[trigger] b.stacks()[k].contains(id) implies !b.floats().contains(
        id) by {
        if k == i {
            if !a.stacks()[i].contains(id) {
                assert(!a.windows().contains(id));
            }
        } else {
            assert(b.stacks()[k] == a.stacks()[k]);
        }
    }
    assert forall|x: WindowId|
        #[trigger] b.windows().contains(x) <==> (a.windows().contains(x) && !(a.stacks()[i].contains(
            x,
        ) && !b.stacks()[i].contains(x))) || b.stacks()[i].contains(x) by {
        if b.in_some_stack(x) {
            let k = choose|k: int| 0 <= k < b.stacks().len() && #[trigger] b.stacks()[k].contains(x);
            if k != i {
                assert(b.stacks()[k] == a.stacks()[k]);
                assert(a.in_some_stack(x));
            }
        }
        if a.in_some_stack(x) {
            let k = choose|k: int| 0 <= k < a.stacks().len() && #[trigger] a.stacks()[k].contains(x);
            if k != i {
                assert(b.stacks()[k] == a.stacks()[k]);
                assert(b.in_some_stack(x));
            }
        }
        if b.stacks()[i].contains(x) {
            assert(b.in_some_stack(x));
        }
    }
}

/// Replacing the floating windows keeps the stack set well formed when the
/// new list only holds windows of the old list or windows held nowhere
/// before.
proof fn lemma_floats_change(a: &StackSet, b: &StackSet)
    requires
        a.wf(),
        b.workspaces == a.workspaces,
        b.floats().no_duplicates(),
        b.window_focus_type == WindowFocusType::Float ==> b.float_windows@.len() > 0,
        forall|x: WindowId|
            #[trigger] b.floats().contains(x) ==> a.floats().contains(x) || !a.windows().contains(x),
    ensures
        b.wf(),
        forall|x: WindowId|
            #[trigger] b.windows().contains(x) <==> a.in_some_stack(x) || b.floats().contains(x),
{
    assert(b.stacks() == a.stacks());
    assert forall|k: int, id: WindowId|
        0 <= k < b.stacks().len() && #[trigger] b.stacks()[k].contains(id) implies !b.floats().contains(
        id) by {
        assert(a.in_some_stack(id));
    }
}

/// `without` removes exactly `id` from a sequence without duplicates.
proof fn lemma_without(s: Seq<WindowId>, id: WindowId, j: int)
    requires
        s.no_duplicates(),
        0 <= j < s.len(),
        s[j] == id,
    ensures
        without(s, id) == s.remove(j),
        without(s, id).no_duplicates(),
        forall|x: WindowId| #[trigger] without(s, id).contains(x) <==> s.contains(x) && x != id,
{
    assert(s.contains(id));
    assert(s.index_of(id) == j);
    let t = s.remove(j);
    assert forall|x: WindowId| #[trigger] t.contains(x) <==> s.contains(x) && x != id by {
        if t.contains(x) {
            let k = choose|k: int| 0 <= k < t.len() && t[k] == x;
            if k < j {
                assert(s[k] == x);
            } else {
                assert(s[k + 1] == x);
            }
        }
        if s.contains(x) && x != id {
            let k = choose|k: int| 0 <= k < s.len() && s[k] == x;
            if k < j {
                assert(t[k] == x);
            } else {
                assert(k != j);
                assert(t[k - 1] == x);
            }
        }
    }
}

/// `b` is `a` after its focused workspace's focused window moved to the
/// focus position of workspace `t`'s stack, and workspace `t` got the
/// focus; with an empty focused stack nothing changes.
pub open spec fn moved_focused_window(a: &StackSet, b: &StackSet, t: int) -> bool {
    &&& b.wf()
    &&& b.windows() == a.windows()
    &&& b.float_windows@ == a.float_windows@
    &&& b.window_focus_type == a.window_focus_type
    &&& ({
        let f = a.workspaces.index() as int;
        let n = a.workspaces@.len() as int;
        let s = a.stacks()[f];
        if s.len() == 0 {
            *b == *a
        } else {
            let id = s[a.workspaces@[f].stack.index() as int];
            let p = |k: int|
                if k == f {
                    clamp_focus(a.workspaces@[f].stack.index(), (s.len() - 1) as nat)
                } else {
                    a.workspaces@[k].stack.index()
                };
            &&& b.workspaces@.len() == n
            &&& b.workspaces.index() == t
            &&& forall|k: int|
                0 <= k < n ==> {
                    &&& (#[trigger] b.workspaces@[k]).tag == a.workspaces@[k].tag
                    &&& b.workspaces@[k].layout_tree == a.workspaces@[k].layout_tree
                    &&& b.stacks()[k] == if k == t {
                        without(a.stacks()[k], id).insert(p(k) as int, id)
                    } else {
                        without(a.stacks()[k], id)
                    }
                    &&& b.workspaces@[k].stack.index() == p(k)
                }
        }
    })
}

/// The slot `d` steps away from `f` in direction `dir` on a ring of `n`.
pub open spec fn ring_at(f: int, dir: int, d: int, n: int) -> int {
    mod_plus(f, dir * d, n)
}

/// `b` is what `set_focus(id)` makes of `a`.
pub open spec fn focus_set(a: &StackSet, b: &StackSet, window_id: WindowId) -> bool {
    &&& b.wf()
    &&& b.windows() == a.windows()
    &&& a.windows().contains(window_id) ==> b.focused_window_spec() == Some(window_id)
    &&& a.floats().contains(window_id) ==> {
        let k = a.floats().index_of(window_id);
        &&& b.float_windows@ == a.float_windows@.remove(k).push(a.float_windows@[k])
        &&& b.workspaces == a.workspaces
        &&& b.window_focus_type == WindowFocusType::Float
    }
    &&& a.in_some_stack(window_id) ==> {
        let i = a.stack_of(window_id);
        &&& b.stacks() == a.stacks()
        &&& b.workspaces.index() == i
        &&& b.workspaces@[i].stack.index() == a.stacks()[i].index_of(window_id)
        &&& forall|k: int|
            0 <= k < a.workspaces@.len() && k != i ==> #[trigger] b.workspaces@[k] == a.workspaces@[k]
        &&& b.workspaces@[i].tag == a.workspaces@[i].tag
        &&& b.workspaces@[i].layout_tree == a.workspaces@[i].layout_tree
        &&& b.float_windows@ == a.float_windows@
        &&& b.window_focus_type == WindowFocusType::Stack
    }
    &&& !a.windows().contains(window_id) ==> *b == *a
    &&& same_tags(a, b)
}

/// `b` is what `shift_window_to_tag(id, tag)` makes of `a`: the window
/// leaves wherever it was and goes to the back of the stack of the first
/// workspace tagged `tag`; every other window keeps its place. Nothing
/// changes when no workspace has the tag.
pub open spec fn shifted(a: &StackSet, b: &StackSet, id: WindowId, tag: Seq<char>) -> bool {
    let n = a.workspaces@.len() as int;
    if exists|k: int| 0 <= k < n && (#[trigger] a.workspaces@[k]).tag.0@ == tag {
        exists|k: int|
            {
                &&& 0 <= k < n
                &&& (#[trigger] a.workspaces@[k]).tag.0@ == tag
                &&& forall|j: int| 0 <= j < k ==> (#[trigger] a.workspaces@[j]).tag.0@ != tag
                &&& b.wf()
                &&& b.windows() == a.windows()
                &&& b.workspaces@.len() == n
                &&& b.workspaces.index() == a.workspaces.index()
                &&& forall|j: int|
                    0 <= j < n ==> {
                        &&& (#[trigger] b.workspaces@[j]).tag == a.workspaces@[j].tag
                        &&& b.workspaces@[j].layout_tree == a.workspaces@[j].layout_tree
                        &&& b.stacks()[j] == if j == k {
                            without(a.stacks()[j], id).push(id)
                        } else {
                            without(a.stacks()[j], id)
                        }
                        &&& b.workspaces@[j].stack.index() == if a.stacks()[j].contains(id) {
                            clamp_focus(a.workspaces@[j].stack.index(), without(a.stacks()[j], id).len())
                        } else {
                            a.workspaces@[j].stack.index()
                        }
                    }
                &&& b.float_windows@ == floats_without(a.float_windows@, id)
                &&& b.window_focus_type == if a.in_some_stack(id) {
                    a.window_focus_type
                } else {
                    focus_type_after(a.window_focus_type, b.float_windows@)
                }
            }
    } else {
        *b == *a
    }
}

/// `a` and `b` have the same workspaces, by tag.
pub open spec fn same_tags(a: &StackSet, b: &StackSet) -> bool {
    &&& b.workspaces@.len() == a.workspaces@.len()
    &&& forall|k: int| 0 <= k < a.workspaces@.len() ==> (#[trigger] b.workspaces@[k]).tag == a.workspaces@[k].tag
}

/// `b` is what `make_window_float(id, geometry)` makes of `a`.
pub open spec fn floated(a: &StackSet, b: &StackSet, window_id: WindowId, geometry: Rect) -> bool {
    &&& b.wf()
    &&& b.windows() == a.windows()
    &&& b.window_focus_type == WindowFocusType::Float
    &&& b.focused_window_spec() == Some(window_id)
    &&& b.floats() == without(a.floats(), window_id).push(window_id)
    &&& b.float_windows@ == floats_without(a.float_windows@, window_id).push(
        FloatWindow { id: window_id, geometry },
    )
    &&& a.in_some_stack(window_id) ==> removed_from_stacks(a, b, window_id)
    &&& !a.in_some_stack(window_id) ==> b.workspaces == a.workspaces
    &&& same_tags(a, b)
}

/// `b` is what `sink_focused_float` makes of `a`, returning `r`.
pub open spec fn sunk(a: &StackSet, b: &StackSet, r: Option<WindowId>) -> bool {
    &&& b.wf()
    &&& b.windows() == a.windows()
    &&& a.window_focus_type == WindowFocusType::Stack ==> r is None && *b == *a
    &&& a.window_focus_type == WindowFocusType::Float ==> {
        let f = a.workspaces.index() as int;
        let id = a.floats().last();
        &&& r == Some(id)
        &&& b.float_windows@ == a.float_windows@.drop_last()
        &&& b.same_but_stack(a, f)
        &&& b.stacks()[f] == a.stacks()[f].insert(0, id)
        &&& b.workspaces@[f].stack.index() == 0
        &&& b.window_focus_type == WindowFocusType::Stack
        &&& b.focused_window_spec() == Some(id)
    }
}

/// Floating a tiled window and then sinking the focused floating window
/// puts that same window back into a stack, at the front of the stack of
/// the workspace that was focused all along; it holds the focus after each
/// step and no window is lost or added.
pub proof fn lemma_float_then_sink(
    s0: StackSet,
    s1: StackSet,
    s2: StackSet,
    id: WindowId,
    geometry: Rect,
    r: Option<WindowId>,
)
    requires
        s0.wf(),
        s0.in_some_stack(id),
        floated(&s0, &s1, id, geometry),
        sunk(&s1, &s2, r),
    ensures
        s1.windows().contains(id),
        s1.focused_window_spec() == Some(id),
        r == Some(id),
        s2.wf(),
        s2.in_some_stack(id),
        s2.workspaces.index() == s0.workspaces.index(),
        s2.stacks()[s2.workspaces.index() as int][0] == id,
        s2.focused_window_spec() == Some(id),
        s2.windows() == s0.windows(),
{
    assert(s1.floats().last() == id);
    assert(s1.windows().contains(id));
    let f = s1.workspaces.index() as int;
    assert(s2.stacks()[f][0] == id);
    assert(s2.stacks()[f].contains(id));
    assert(s2.in_some_stack(id));
}

/// Concatenating sequences that are each free of duplicates and pairwise
/// disjoint gives a sequence free of duplicates holding exactly their
/// elements.
proof fn lemma_flatten_unique(ss: Seq<Seq<WindowId>>)
    requires
        forall|i: int| 0 <= i < ss.len() ==> (#[trigger] ss[i]).no_duplicates(),
        forall|i: int, j: int, x: WindowId|
            0 <= i < ss.len() && 0 <= j < ss.len() && i != j && #[trigger] ss[i].contains(x)
                ==> !#[trigger] ss[j].contains(x),
    ensures
        ss.flatten().no_duplicates(),
        forall|x: WindowId|
            #[trigger] ss.flatten().contains(x) <==> exists|i: int|
                0 <= i < ss.len() && #[trigger] ss[i].contains(x),
    decreases ss.len(),
{
    if ss.len() > 0 {
        let t = ss.drop_first();
        assert forall|i: int| 0 <= i < t.len() implies (#[trigger] t[i]).no_duplicates() by {
            assert(t[i] == ss[i + 1]);
        }
        assert forall|i: int, j: int, x: WindowId|
            0 <= i < t.len() && 0 <= j < t.len() && i != j && #[trigger] t[i].contains(x)
                implies !#[trigger] t[j].contains(x) by {
            assert(t[i] == ss[i + 1] && t[j] == ss[j + 1]);
        }
        lemma_flatten_unique(t);
        let a = ss[0];
        let b = t.flatten();
        assert(ss.flatten() == a + b);
        assert forall|p: int, q: int| 0 <= p < a.len() && 0 <= q < b.len() implies a[p] != b[q] by {
            assert(b.contains(b[q]));
            let i = choose|i: int| 0 <= i < t.len() && #[trigger] t[i].contains(b[q]);
            assert(t[i] == ss[i + 1]);
            assert(a.contains(a[p]));
        }
        lemma_no_dup_in_concat(a, b);
        assert forall|x: WindowId|
            #[trigger] ss.flatten().contains(x) <==> exists|i: int|
                0 <= i < ss.len() && #[trigger] ss[i].contains(x) by {
            if (a + b).contains(x) {
                let p = choose|p: int| 0 <= p < (a + b).len() && (a + b)[p] == x;
                if p < a.len() {
                    assert(a[p] == x);
                    assert(ss[0].contains(x));
                } else {
                    assert(b[p - a.len()] == x);
                    assert(b.contains(x));
                    let i = choose|i: int| 0 <= i < t.len() && #[trigger] t[i].contains(x);
                    assert(t[i] == ss[i + 1]);
                    assert(ss[i + 1].contains(x));
                }
            }
            if exists|i: int| 0 <= i < ss.len() && #[trigger] ss[i].contains(x) {
                let i = choose|i: int| 0 <= i < ss.len() && #[trigger] ss[i].contains(x);
                if i == 0 {
                    let p = choose|p: int| 0 <= p < a.len() && a[p] == x;
                    assert((a + b)[p] == x);
                } else {
                    assert(t[i - 1] == ss[i]);
                    assert(t[i - 1].contains(x));
                    assert(b.contains(x));
                    let p = choose|p: int| 0 <= p < b.len() && b[p] == x;
                    assert((a + b)[a.len() + p] == x);
                }
            }
        }
    }
}

/// In a well-formed stack set every window appears exactly once among the
/// stacks and the floating windows taken together: their concatenation has
/// no duplicates and holds exactly the stack set's windows.
pub proof fn lemma_each_window_once(ss: StackSet)
    requires
        ss.wf(),
    ensures
        ss.all_windows().no_duplicates(),
        ss.all_windows().to_set() == ss.windows(),
{
    let st = ss.stacks();
    lemma_flatten_unique(st);
    let a = st.flatten();
    let b = ss.floats();
    assert forall|p: int, q: int| 0 <= p < a.len() && 0 <= q < b.len() implies a[p] != b[q] by {
        assert(a.contains(a[p]));
        let i = choose|i: int| 0 <= i < st.len() && #[trigger] st[i].contains(a[p]);
        assert(b.contains(b[q]));
    }
    lemma_no_dup_in_concat(a, b);
    assert forall|x: WindowId| ss.all_windows().to_set().contains(x) == ss.windows().contains(x) by {
        if (a + b).contains(x) {
            let p = choose|p: int| 0 <= p < (a + b).len() && (a + b)[p] == x;
            if p < a.len() {
                assert(a[p] == x);
                assert(a.contains(x));
                let i = choose|i: int| 0 <= i < st.len() && #[trigger] st[i].contains(x);
                assert(ss.in_some_stack(x));
            } else {
                assert(b[p - a.len()] == x);
            }
        }
        if ss.in_some_stack(x) {
            let i = ss.stack_of(x);
            assert(st[i].contains(x));
            assert(a.contains(x));
            let p = choose|p: int| 0 <= p < a.len() && a[p] == x;
            assert((a + b)[p] == x);
        }
        if b.contains(x) {
            let p = choose|p: int| 0 <= p < b.len() && b[p] == x;
            assert((a + b)[a.len() + p] == x);
        }
    }
    assert(ss.all_windows().to_set() =~= ss.windows());
}

/// In a well-formed stack set the workspace focus is a valid index, and
/// every stack's focus is a valid index, or 0 when the stack is empty.
pub proof fn lemma_focus_in_bounds(ss: StackSet)
    requires
        ss.wf(),
    ensures
        ss.workspaces.index() < ss.workspaces@.len(),
        forall|i: int|
            0 <= i < ss.workspaces@.len() ==> if (#[trigger] ss.stacks()[i]).len() == 0 {
                ss.workspaces@[i].stack.index() == 0
            } else {
                ss.workspaces@[i].stack.index() < ss.stacks()[i].len()
            },
{
    assert forall|i: int| 0 <= i < ss.workspaces@.len() implies if (#[trigger] ss.stacks()[i]).len() == 0 {
        ss.workspaces@[i].stack.index() == 0
    } else {
        ss.workspaces@[i].stack.index() < ss.stacks()[i].len()
    } by {
        assert(ss.workspaces@[i].stack.wf());
    }
}

/// Whether a window survives the removal of `dead`.
pub open spec fn alive(dead: Seq<WindowId>) -> spec_fn(WindowId) -> bool {
    |x: WindowId| !dead.contains(x)
}

/// Whether a floating window survives the removal of `dead`.
pub open spec fn float_alive(dead: Seq<WindowId>) -> spec_fn(FloatWindow) -> bool {
    |f: FloatWindow| !dead.contains(f.id)
}

/// The focus of stack `s` (focused at `f`) once `dead` is removed: the
/// first survivor at or after the old focus, else the last survivor before
/// it, else 0.
pub open spec fn pruned_focus(s: Seq<WindowId>, f: nat, dead: Seq<WindowId>) -> nat {
    clamp_focus(
        s.subrange(0, f as int).filter(alive(dead)).len(),
        s.filter(alive(dead)).len(),
    )
}

/// `b` is `a` without the windows in `dead`: each stack keeps its
/// survivors in order and focuses as `pruned_focus` says, the floating
/// windows are filtered, and a `Float` focus with nothing left falls back
/// to the stack.
pub open spec fn pruned(a: &StackSet, b: &StackSet, dead: Seq<WindowId>) -> bool {
    &&& b.wf()
    &&& b.windows() == a.windows().difference(dead.to_set())
    &&& b.workspaces@.len() == a.workspaces@.len()
    &&& b.workspaces.index() == a.workspaces.index()
    &&& forall|k: int|
        0 <= k < a.workspaces@.len() ==> {
            &&& (#[trigger] b.workspaces@[k]).tag == a.workspaces@[k].tag
            &&& b.workspaces@[k].layout_tree == a.workspaces@[k].layout_tree
            &&& b.stacks()[k] == a.stacks()[k].filter(alive(dead))
            &&& b.workspaces@[k].stack.index() == pruned_focus(
                a.stacks()[k],
                a.workspaces@[k].stack.index(),
                dead,
            )
        }
    &&& b.float_windows@ == a.float_windows@.filter(float_alive(dead))
    &&& b.window_focus_type == focus_type_after(a.window_focus_type, b.float_windows@)
}

/// The focus `pruned_focus` picks after removing `dead` from stack `s`
/// focused at `f`: the first survivor at or after the old focus; when none
/// is left there, the last survivor (all survivors lie before the old
/// focus); when no window survives, 0.
pub proof fn lemma_pruned_focus(s: Seq<WindowId>, f: nat, dead: Seq<WindowId>)
    requires
        f < s.len(),
    ensures
        s.filter(alive(dead)).len() == 0 ==> pruned_focus(s, f, dead) == 0,
        forall|k: int|
            #![trigger s[k]]
            f <= k < s.len() && !dead.contains(s[k]) && (forall|m: int| f <= m < k ==> dead.contains(s[m]))
                ==> pruned_focus(s, f, dead) < s.filter(alive(dead)).len()
                && s.filter(alive(dead))[pruned_focus(s, f, dead) as int] == s[k],
        (forall|k: int| f <= k < s.len() ==> dead.contains(#[trigger] s[k])) && s.filter(alive(dead)).len()
            > 0 ==> s.filter(alive(dead)) == s.subrange(0, f as int).filter(alive(dead))
            && pruned_focus(s, f, dead) == s.filter(alive(dead)).len() - 1,
{
    let p = alive(dead);
    let a = s.subrange(0, f as int);
    let rest = s.subrange(f as int, s.len() as int);
    assert(s == a + rest);
    Seq::filter_distributes_over_add(a, rest, p);
    assert forall|k: int|
        #![trigger s[k]]
        f <= k < s.len() && !dead.contains(s[k]) && (forall|m: int| f <= m < k ==> dead.contains(s[m]))
            implies pruned_focus(s, f, dead) < s.filter(p).len() && s.filter(p)[pruned_focus(s, f, dead) as int]
            == s[k] by {
        let b = s.subrange(f as int, k);
        let c = s.subrange(k + 1, s.len() as int);
        assert(rest == b + (seq![s[k]] + c));
        assert(b.all(|x: WindowId| !p(x))) by {
            assert forall|m: int| 0 <= m < b.len() implies !p(#[trigger] b[m]) by {
                assert(b[m] == s[f + m]);
            }
        }
        b.lemma_all_neg_filter_empty(p);
        Seq::filter_distributes_over_add(b, seq![s[k]] + c, p);
        c.lemma_filter_prepend(s[k], p);
        let fa = a.filter(p);
        assert(s.filter(p) == fa + (b.filter(p) + (seq![s[k]] + c.filter(p))));
        assert(b.filter(p) =~= Seq::<WindowId>::empty());
        assert(s.filter(p)[fa.len() as int] == s[k]);
    }
    if forall|k: int| f <= k < s.len() ==> dead.contains(#[trigger] s[k]) {
        assert(rest.all(|x: WindowId| !p(x))) by {
            assert forall|m: int| 0 <= m < rest.len() implies !p(#[trigger] rest[m]) by {
                assert(rest[m] == s[f + m]);
            }
        }
        rest.lemma_all_neg_filter_empty(p);
        assert(rest.filter(p) =~= Seq::<WindowId>::empty());
        assert(s.filter(p) =~= a.filter(p));
    }
}

/// Filtering keeps uniqueness and exactly the elements that pass.
proof fn lemma_filter_unique(s: Seq<WindowId>, p: spec_fn(WindowId) -> bool)
    requires
        s.no_duplicates(),
    ensures
        s.filter(p).no_duplicates(),
        forall|x: WindowId| #[trigger] s.filter(p).contains(x) <==> s.contains(x) && p(x),
    decreases s.len(),
{
    reveal(Seq::filter);
    if s.len() > 0 {
        let t = s.drop_last();
        assert forall|i: int, j: int| 0 <= i < j < t.len() implies t[i] != t[j] by {
            assert(t[i] == s[i] && t[j] == s[j]);
        }
        lemma_filter_unique(t, p);
        let ft = t.filter(p);
        let last = s.last();
        assert(!t.contains(last)) by {
            if t.contains(last) {
                let i = choose|i: int| 0 <= i < t.len() && t[i] == last;
                assert(s[i] == s[s.len() - 1]);
            }
        }
        assert forall|x: WindowId| s.contains(x) <==> t.contains(x) || x == last by {
            if s.contains(x) {
                let i = choose|i: int| 0 <= i < s.len() && s[i] == x;
                if i < s.len() - 1 {
                    assert(t[i] == x);
                }
            }
            if t.contains(x) {
                let i = choose|i: int| 0 <= i < t.len() && t[i] == x;
                assert(s[i] == x);
            }
        }
        if p(last) {
            let r = ft.push(last);
            assert(s.filter(p) == r);
            assert forall|i: int, j: int| 0 <= i < j < r.len() implies r[i] != r[j] by {
                if j == ft.len() {
                    assert(ft.contains(r[i]));
                }
            }
            assert forall|x: WindowId| #[trigger] r.contains(x) <==> ft.contains(x) || x == last by {
                if r.contains(x) {
                    let i = choose|i: int| 0 <= i < r.len() && r[i] == x;
                    if i < ft.len() {
                        assert(ft[i] == x);
                    }
                }
                if ft.contains(x) {
                    let i = choose|i: int| 0 <= i < ft.len() && ft[i] == x;
                    assert(r[i] == x);
                }
                if x == last {
                    assert(r[ft.len() as int] == x);
                }
            }
        } else {
            assert(s.filter(p) == ft);
        }
    }
}

/// Filtering floating windows by their identifiers commutes with taking
/// the identifiers.
proof fn lemma_ids_filter(fs: Seq<FloatWindow>, dead: Seq<WindowId>)
    ensures
        ids_of(fs.filter(float_alive(dead))) == ids_of(fs).filter(alive(dead)),
    decreases fs.len(),
{
    reveal(Seq::filter);
    if fs.len() > 0 {
        lemma_ids_filter(fs.drop_last(), dead);
        assert(ids_of(fs).drop_last() =~= ids_of(fs.drop_last()));
        assert(ids_of(fs).last() == fs.last().id);
        let sub = fs.drop_last().filter(float_alive(dead));
        if float_alive(dead)(fs.last()) {
            assert(ids_of(sub.push(fs.last())) =~= ids_of(sub).push(fs.last().id));
        }
    }
}

/// Exchanging two positions keeps the elements and their uniqueness.
proof fn lemma_swap(s: Seq<WindowId>, i: int, j: int)
    requires
        0 <= i < s.len(),
        0 <= j < s.len(),
    ensures
        s.no_duplicates() ==> s.update(i, s[j]).update(j, s[i]).no_duplicates(),
        forall|x: WindowId| #[trigger] s.update(i, s[j]).update(j, s[i]).contains(x) <==> s.contains(x),
{
    let t = s.update(i, s[j]).update(j, s[i]);
    // position p of t holds s[swap(p)]
    assert forall|p: int| 0 <= p < s.len() implies #[trigger] t[p] == s[if p == i {
        j
    } else if p == j {
        i
    } else {
        p
    }] by {}
    if s.no_duplicates() {
        assert forall|p: int, q: int| 0 <= p < q < t.len() implies t[p] != t[q] by {
            let pp = if p == i { j } else if p == j { i } else { p };
            let qq = if q == i { j } else if q == j { i } else { q };
            assert(t[p] == s[pp]);
            assert(t[q] == s[qq]);
        }
    }
    assert forall|x: WindowId| #[trigger] t.contains(x) <==> s.contains(x) by {
        if t.contains(x) {
            let p = choose|p: int| 0 <= p < t.len() && t[p] == x;
            let pp = if p == i { j } else if p == j { i } else { p };
            assert(t[p] == s[pp]);
        }
        if s.contains(x) {
            let p = choose|p: int| 0 <= p < s.len() && s[p] == x;
            let pp = if p == i { j } else if p == j { i } else { p };
            assert(t[pp] == s[p]);
        }
    }
}

fn holds(v: &Vec<WindowId>, x: WindowId) -> (r: bool)
    ensures
        r == v@.contains(x),
{
    let mut i: usize = 0;
    while i < v.len()
        invariant
            i <= v@.len(),
            forall|j: int| 0 <= j < i ==> v@[j] != x,
        decreases v@.len() - i,
    {
        if v[i] == x {
            return true;
        }
        i = i + 1;
    }
    false
}

/// The stack `s` without the windows in `dead`, focused as `pruned_focus`
/// says.
fn prune_stack(s: &FocusedVec<WindowId>, dead: &Vec<WindowId>) -> (r: FocusedVec<WindowId>)
    requires
        s.wf(),
    ensures
        r@ == s@.filter(alive(dead@)),
        r.index() == pruned_focus(s@, s.index(), dead@),
        r.wf(),
{
    let v = s.as_vec();
    let f = s.focused_index();
    let mut out: Vec<WindowId> = Vec::new();
    let mut before: usize = 0;
    let mut i: usize = 0;
    while i < v.len()
        invariant
            v@ == s@,
            f == s.index(),
            f == 0 || f < v@.len(),
            i <= v@.len(),
            out@ == v@.subrange(0, i as int).filter(alive(dead@)),
            before as int == if i <= f {
                out@.len() as int
            } else {
                v@.subrange(0, f as int).filter(alive(dead@)).len() as int
            },
            out@.len() <= i,
        decreases v@.len() - i,
    {
        let x = v[i];
        proof {
            assert(v@.subrange(0, i as int + 1) == v@.subrange(0, i as int).push(x));
            v@.subrange(0, i as int).lemma_filter_push(x, alive(dead@));
            if i == f {
                assert(v@.subrange(0, f as int) == v@.subrange(0, i as int));
            }
        }
        if !holds(dead, x) {
            out.push(x);
            if i < f {
                before = before + 1;
            }
        }
        i = i + 1;
    }
    proof {
        assert(v@.subrange(0, v@.len() as int) =~= v@);
        if f == 0 {
            assert(v@.subrange(0, 0) =~= Seq::<WindowId>::empty());
            reveal(Seq::filter);
        }
    }
    let n = out.len();
    let focus = if n == 0 {
        0
    } else if before < n {
        before
    } else {
        n - 1
    };
    FocusedVec::new(out, focus)
}

/// The floating windows that are not in `dead`, in order.
fn prune_floats(fs: &Vec<FloatWindow>, dead: &Vec<WindowId>) -> (r: Vec<FloatWindow>)
    ensures
        r@ == fs@.filter(float_alive(dead@)),
{
    let mut out: Vec<FloatWindow> = Vec::new();
    let mut i: usize = 0;
    while i < fs.len()
        invariant
            i <= fs@.len(),
            out@ == fs@.subrange(0, i as int).filter(float_alive(dead@)),
        decreases fs@.len() - i,
    {
        let fw = fs[i];
        proof {
            assert(fs@.subrange(0, i as int + 1) == fs@.subrange(0, i as int).push(fw));
            fs@.subrange(0, i as int).lemma_filter_push(fw, float_alive(dead@));
        }
        if !holds(dead, fw.id) {
            out.push(fw);
        }
        i = i + 1;
    }
    assert(fs@.subrange(0, fs@.len() as int) =~= fs@);
    out
}

/// `ids_of` and removal commute; `floats_without` removes the one record.
proof fn lemma_floats_without(fs: Seq<FloatWindow>, id: WindowId, k: int)
    requires
        ids_of(fs).no_duplicates(),
        0 <= k < fs.len(),
        fs[k].id == id,
    ensures
        floats_without(fs, id) == fs.remove(k),
        ids_of(fs.remove(k)) == without(ids_of(fs), id),
{
    assert(ids_of(fs)[k] == id);
    lemma_without(ids_of(fs), id, k);
    assert(ids_of(fs.remove(k)) =~= ids_of(fs).remove(k));
}

/// `b` is `a` with `id` taken out of whichever stack held it, that stack's
/// focus clamped, and everything else as it was.
pub open spec fn removed_from_stacks(a: &StackSet, b: &StackSet, id: WindowId) -> bool {
    &&& b.workspaces@.len() == a.workspaces@.len()
    &&& b.workspaces.index() == a.workspaces.index()
    &&& forall|k: int|
        0 <= k < a.workspaces@.len() ==> {
            &&& (#[trigger] b.workspaces@[k]).tag == a.workspaces@[k].tag
            &&& b.workspaces@[k].layout_tree == a.workspaces@[k].layout_tree
            &&& b.stacks()[k] == without(a.stacks()[k], id)
            &&& b.workspaces@[k].stack.index() == if a.stacks()[k].contains(id) {
                clamp_focus(a.workspaces@[k].stack.index(), b.stacks()[k].len())
            } else {
                a.workspaces@[k].stack.index()
            }
        }
}

impl StackSet {
    /// Takes the window at position `j` of workspace `i`'s stack out.
    fn remove_from_stack(&mut self, i: usize, j: usize) -> (id: WindowId)
        requires
            old(self).wf(),
            i < old(self).stacks().len(),
            j < old(self).stacks()[i as int].len(),
        ensures
            id == old(self).stacks()[i as int][j as int],
            final(self).wf(),
            final(self).windows() == old(self).windows().remove(id),
            final(self).same_but_stack(old(self), i as int),
            removed_from_stacks(old(self), final(self), id),
            final(self).float_windows@ == old(self).float_windows@,
            final(self).window_focus_type == old(self).window_focus_type,
    {
        let ghost a = *self;
        let ws = self.workspaces.get_mut(i);
        let id = ws.stack.remove(j);
        proof {
            let si = a.stacks()[i as int];
            assert(self.workspaces@[i as int].stack@ == si.remove(j as int));
            lemma_without(si, id, j as int);
            assert(self.stacks()[i as int] == without(si, id));
            lemma_stack_change(&a, self, i as int);
            assert(self.windows() =~= a.windows().remove(id));
            assert forall|k: int| 0 <= k < a.workspaces@.len() implies {
                &&& (#[trigger] self.workspaces@[k]).tag == a.workspaces@[k].tag
                &&& self.workspaces@[k].layout_tree == a.workspaces@[k].layout_tree
                &&& self.stacks()[k] == without(a.stacks()[k], id)
                &&& self.workspaces@[k].stack.index() == if a.stacks()[k].contains(id) {
                    clamp_focus(a.workspaces@[k].stack.index(), self.stacks()[k].len())
                } else {
                    a.workspaces@[k].stack.index()
                }
            } by {
                if k != i {
                    assert(self.workspaces@[k] == a.workspaces@[k]);
                    assert(si[j as int] == id);
                    assert(si.contains(id));
                    assert(!a.stacks()[k].contains(id));
                }
            }
        }
        id
    }

    /// Takes the floating window at position `k` out.
    fn remove_from_floats(&mut self, k: usize) -> (fw: FloatWindow)
        requires
            old(self).wf(),
            k < old(self).float_windows@.len(),
        ensures
            fw == old(self).float_windows@[k as int],
            final(self).wf(),
            final(self).windows() == old(self).windows().remove(fw.id),
            final(self).workspaces == old(self).workspaces,
            final(self).float_windows@ == floats_without(old(self).float_windows@, fw.id),
            final(self).window_focus_type == focus_type_after(
                old(self).window_focus_type,
                final(self).float_windows@,
            ),
    {
        let ghost a = *self;
        let fw = self.float_windows.remove(k);
        if self.float_windows.len() == 0 {
            self.window_focus_type = WindowFocusType::Stack;
        }
        proof {
            lemma_floats_without(a.float_windows@, fw.id, k as int);
            lemma_without(a.floats(), fw.id, k as int);
            lemma_floats_change(&a, self);
            assert forall|x: WindowId| #[trigger] self.windows().contains(x) == a.windows().remove(
                fw.id,
            ).contains(x) by {
                if x == fw.id {
                    assert(a.floats().contains(x));
                    if a.in_some_stack(x) {
                        let c = a.stack_of(x);
                        assert(a.stacks()[c].contains(x));
                    }
                }
            }
            assert(self.windows() =~= a.windows().remove(fw.id));
        }
        fw
    }

    /// Forgets a window, wherever it is. Nothing changes if it is unknown.
    pub fn delete_window(&mut self, window_id: WindowId)
        requires
            old(self).wf(),
        ensures
            final(self).wf(),
            final(self).windows() == old(self).windows().remove(window_id),
            old(self).in_some_stack(window_id) ==> removed_from_stacks(
                old(self),
                final(self),
                window_id,
            ) && final(self).float_windows@ == old(self).float_windows@
                && final(self).window_focus_type == old(self).window_focus_type,
            !old(self).in_some_stack(window_id) ==> final(self).workspaces == old(self).workspaces
                && final(self).float_windows@ == floats_without(
                old(self).float_windows@,
                window_id,
            ) && final(self).window_focus_type == focus_type_after(
                old(self).window_focus_type,
                final(self).float_windows@,
            ),
    {
        match self.find_in_stacks(window_id) {
            Some((i, j)) => {
                self.remove_from_stack(i, j);
            },
            None => {
                match self.find_in_floats(window_id) {
                    Some(k) => {
                        self.remove_from_floats(k);
                    },
                    None => {
                        proof {
                            assert(self.windows() =~= self.windows().remove(window_id));
                        }
                    },
                }
            },
        }
    }

    /// One workspace per tag, each with an empty stack and its own tree
    /// built from `builder`. `None` when there is no tag or the template is
    /// malformed.
    pub fn new(tags: Vec<WorkspaceTag>, builder: &LayoutTreeBuilder) -> (r: Option<StackSet>)
        ensures
            r is Some <==> tags@.len() > 0 && template_ok(builder.nodes(), builder.root()),
            r matches Some(ss) ==> {
                &&& ss.wf()
                &&& ss.workspaces@.len() == tags@.len()
                &&& ss.workspaces.index() == 0
                &&& forall|i: int|
                    0 <= i < tags@.len() ==> (#[trigger] ss.workspaces@[i]).tag.0@ == tags@[i].0@
                        && ss.stacks()[i].len() == 0 && ss.workspaces@[i].layout_tree.nodes()
                        == builder.nodes() && ss.workspaces@[i].layout_tree.root() == builder.root()
                &&& ss.float_windows@.len() == 0
                &&& ss.window_focus_type == WindowFocusType::Stack
                &&& ss.windows() == Set::<WindowId>::empty()
            },
    {
        if tags.len() == 0 {
            return None;
        }
        let mut v: Vec<Workspace> = Vec::new();
        let mut i: usize = 0;
        while i < tags.len()
            invariant
                i <= tags@.len(),
                v@.len() == i,
                forall|k: int|
                    0 <= k < i ==> (#[trigger] v@[k]).tag.0@ == tags@[k].0@ && v@[k].stack@.len()
                        == 0 && v@[k].stack.wf() && v@[k].layout_tree.nodes() == builder.nodes()
                        && v@[k].layout_tree.root() == builder.root()
                        && v@[k].layout_tree.wf(),
                i > 0 ==> template_ok(builder.nodes(), builder.root()),
            decreases tags@.len() - i,
        {
            let layout_tree = match builder.build() {
                Some(t) => t,
                None => {
                    return None;
                },
            };
            let tag = WorkspaceTag(tags[i].0.clone());
            v.push(Workspace { tag, stack: FocusedVec::empty(), layout_tree });
            i = i + 1;
        }
        let ss = StackSet {
            workspaces: NonEmptyFocusedVec::new(v, 0),
            float_windows: Vec::new(),
            window_focus_type: WindowFocusType::Stack,
        };
        proof {
            assert forall|k: int| 0 <= k < ss.stacks().len() implies (#[trigger] ss.stacks()[k]).len()
                == 0 by {
                assert(ss.stacks()[k] == ss.workspaces@[k].stack@);
            }
            assert forall|x: WindowId| !ss.windows().contains(x) by {
                if ss.in_some_stack(x) {
                    let c = ss.stack_of(x);
                    assert(ss.stacks()[c].contains(x));
                }
            }
            assert(ss.windows() =~= Set::<WindowId>::empty());
        }
        Some(ss)
    }

    pub fn workspaces(&self) -> (r: &NonEmptyFocusedVec<Workspace>)
        ensures
            r == self.workspaces,
    {
        &self.workspaces
    }

    /// Adds a new window at the back of the focused workspace's stack.
    pub fn register_window(&mut self, window_id: WindowId)
        requires
            old(self).wf(),
            !old(self).windows().contains(window_id),
        ensures
            final(self).wf(),
            final(self).windows() == old(self).windows().insert(window_id),
            final(self).same_but_stack(old(self), old(self).workspaces.index() as int),
            final(self).stacks()[old(self).workspaces.index() as int]
                == old(self).stacks()[old(self).workspaces.index() as int].push(window_id),
            final(self).workspaces@[old(self).workspaces.index() as int].stack.index()
                == old(self).workspaces@[old(self).workspaces.index() as int].stack.index(),
            final(self).float_windows@ == old(self).float_windows@,
            final(self).window_focus_type == old(self).window_focus_type,
    {
        let i = self.workspaces.focused_index();
        self.push_window_to(i, window_id);
    }

    /// Adds a window held nowhere at the back of workspace `i`'s stack.
    fn push_window_to(&mut self, i: usize, window_id: WindowId)
        requires
            old(self).wf(),
            i < old(self).workspaces@.len(),
            !old(self).windows().contains(window_id),
        ensures
            final(self).wf(),
            final(self).windows() == old(self).windows().insert(window_id),
            final(self).same_but_stack(old(self), i as int),
            final(self).stacks()[i as int] == old(self).stacks()[i as int].push(window_id),
            final(self).workspaces@[i as int].stack.index() == old(self).workspaces@[i as int].stack.index(),
            final(self).float_windows@ == old(self).float_windows@,
            final(self).window_focus_type == old(self).window_focus_type,
    {
        let ghost a = *self;
        let ws = self.workspaces.get_mut(i);
        ws.stack.push(window_id);
        proof {
            let si = a.stacks()[i as int];
            assert(self.stacks()[i as int] == si.push(window_id));
            assert(si.no_duplicates());
            assert(!si.contains(window_id)) by {
                if si.contains(window_id) {
                    assert(a.in_some_stack(window_id));
                }
            }
            assert(self.stacks()[i as int].no_duplicates()) by {
                assert forall|p: int, q: int|
                    0 <= p < q < si.len() + 1 implies self.stacks()[i as int][p] != self.stacks()[i as int][q] by {
                    if q == si.len() {
                        assert(si[p] == self.stacks()[i as int][p]);
                    }
                }
            }
            assert forall|x: WindowId| #[trigger] self.stacks()[i as int].contains(x) implies si.contains(x)
                || !a.windows().contains(x) by {
                if x != window_id {
                    let p = choose|p: int| 0 <= p < si.len() + 1 && self.stacks()[i as int][p] == x;
                    assert(si[p] == x);
                }
            }
            lemma_stack_change(&a, self, i as int);
            assert forall|x: WindowId| self.windows().contains(x) == a.windows().insert(window_id).contains(x) by {
                if x == window_id {
                    assert(self.stacks()[i as int][si.len() as int] == x);
                }
                if si.contains(x) {
                    let p = choose|p: int| 0 <= p < si.len() && si[p] == x;
                    assert(self.stacks()[i as int][p] == x);
                }
            }
            assert(self.windows() =~= a.windows().insert(window_id));
        }
    }


    /// Moves `window_id` to the back of the stack of the first workspace
    /// tagged `tag`, out of wherever it was. Returns `false`, and changes
    /// nothing, when no workspace has the tag.
    pub fn shift_window_to_tag(&mut self, window_id: WindowId, tag: &WorkspaceTag) -> (ok: bool)
        requires
            old(self).wf(),
            old(self).windows().contains(window_id),
        ensures
            final(self).wf(),
            final(self).windows() == old(self).windows(),
            ok <==> exists|k: int|
                0 <= k < old(self).workspaces@.len() && (#[trigger] old(self).workspaces@[k]).tag.0@
                    == tag.0@,
            !ok ==> *final(self) == *old(self),
            ok ==> exists|k: int|
                0 <= k < old(self).workspaces@.len() && (#[trigger] old(self).workspaces@[k]).tag.0@
                    == tag.0@ && (forall|j: int|
                    0 <= j < k ==> (#[trigger] old(self).workspaces@[j]).tag.0@ != tag.0@)
                    && final(self).stacks()[k] == without(old(self).stacks()[k], window_id).push(
                    window_id,
                ),
            final(self).workspaces.index() == old(self).workspaces.index(),
            same_tags(old(self), final(self)),
            shifted(old(self), final(self), window_id, tag.0@),
    {
        let k = match self.workspace_index_of(tag) {
            Some(k) => k,
            None => {
                return false;
            },
        };
        let ghost a = *self;
        self.delete_window(window_id);
        let ghost b = *self;
        proof {
            assert(!b.windows().contains(window_id));
            if a.in_some_stack(window_id) {
                assert(b.stacks()[k as int] == without(a.stacks()[k as int], window_id));
            } else {
                assert(b.workspaces == a.workspaces);
                assert(b.stacks() == a.stacks());
                assert(!a.stacks()[k as int].contains(window_id));
            }
            assert(b.stacks()[k as int] == without(a.stacks()[k as int], window_id));
            assert(b.workspaces@[k as int].tag == a.workspaces@[k as int].tag);
        }
        self.push_window_to(k, window_id);
        proof {
            assert(self.windows() =~= a.windows());
            assert(self.workspaces@[k as int].tag == b.workspaces@[k as int].tag);
            let n = a.workspaces@.len() as int;
            assert forall|j: int| 0 <= j < n implies {
                &&& (#[trigger] self.workspaces@[j]).tag == a.workspaces@[j].tag
                &&& self.workspaces@[j].layout_tree == a.workspaces@[j].layout_tree
                &&& self.stacks()[j] == if j == k {
                    without(a.stacks()[j], window_id).push(window_id)
                } else {
                    without(a.stacks()[j], window_id)
                }
                &&& self.workspaces@[j].stack.index() == if a.stacks()[j].contains(window_id) {
                    clamp_focus(a.workspaces@[j].stack.index(), without(a.stacks()[j], window_id).len())
                } else {
                    a.workspaces@[j].stack.index()
                }
            } by {
                if j != k {
                    assert(self.workspaces@[j] == b.workspaces@[j]);
                }
                if !a.in_some_stack(window_id) {
                    assert(b.workspaces@[j] == a.workspaces@[j]);
                    if a.stacks()[j].contains(window_id) {
                        assert(a.in_some_stack(window_id));
                    }
                } else {
                    assert(b.stacks()[j] == without(a.stacks()[j], window_id));
                }
            }
            assert(a.workspaces@[k as int].tag.0@ == tag.0@);
            assert(shifted(&a, self, window_id, tag.0@));
        }
        true
    }

    /// Focuses `window_id`: a floating window becomes the last (most
    /// recently focused) one; a tiled one's workspace and stack position
    /// become the focused ones. Nothing changes if the window is unknown.
    pub fn set_focus(&mut self, window_id: WindowId)
        requires
            old(self).wf(),
        ensures
            focus_set(old(self), final(self), window_id),
    {
        let ghost a = *self;
        match self.find_in_floats(window_id) {
            Some(k) => {
                let fw = self.float_windows.remove(k);
                self.float_windows.push(fw);
                self.window_focus_type = WindowFocusType::Float;
                proof {
                    assert(a.floats()[k as int] == window_id);
                    assert(a.floats().index_of(window_id) == k);
                    let fs = a.float_windows@;
                    assert(self.floats() =~= a.floats().remove(k as int).push(window_id));
                    lemma_without(a.floats(), window_id, k as int);
                    assert(self.floats().no_duplicates()) by {
                        let r = a.floats().remove(k as int);
                        assert forall|p: int, q: int|
                            0 <= p < q < self.floats().len() implies self.floats()[p] != self.floats()[q] by {
                            if q == r.len() {
                                assert(r.contains(self.floats()[p]));
                            } else {
                                assert(self.floats()[p] == r[p]);
                            }
                        }
                    }
                    assert forall|x: WindowId| #[trigger] self.floats().contains(x) implies a.floats().contains(x) by {
                        if x != window_id {
                            let p = choose|p: int| 0 <= p < self.floats().len() && self.floats()[p] == x;
                            assert(a.floats().remove(k as int)[p] == x);
                            assert(a.floats().remove(k as int).contains(x));
                        }
                    }
                    lemma_floats_change(&a, self);
                    assert forall|x: WindowId| self.windows().contains(x) == a.windows().contains(x) by {
                        if a.floats().contains(x) {
                            if x != window_id {
                                assert(a.floats().remove(k as int).contains(x));
                                let p = choose|p: int| 0 <= p < a.floats().remove(k as int).len() && a.floats().remove(k as int)[p] == x;
                                assert(self.floats()[p] == x);
                            } else {
                                assert(self.floats()[self.floats().len() - 1] == x);
                            }
                        }
                    }
                    assert(self.windows() =~= a.windows());
                    assert(self.floats().last() == window_id);
                }
            },
            None => {
                match self.find_in_stacks(window_id) {
                    Some((i, j)) => {
                        self.workspaces.set_focused_index(i);
                        let ws = self.workspaces.get_mut(i);
                        ws.stack.set_focused_index(j);
                        self.window_focus_type = WindowFocusType::Stack;
                        proof {
                            assert(self.stacks() =~= a.stacks());
                            let si = a.stacks()[i as int];
                            assert(si[j as int] == window_id);
                            assert(si.contains(window_id));
                            assert(si.index_of(window_id) == j);
                            assert forall|k: int| 0 <= k < self.workspaces@.len() implies (
                            #[trigger] self.workspaces@[k]).stack.wf() && self.workspaces@[k].layout_tree.wf() by {
                                if k != i {
                                    assert(self.workspaces@[k] == a.workspaces@[k]);
                                }
                            }
                            assert(self.windows() =~= a.windows());
                        }
                    },
                    None => {
                        proof {
                            assert(!a.windows().contains(window_id));
                        }
                    },
                }
            },
        }
    }

    /// Moves `window_id` to the floating windows, as the most recently
    /// focused one with geometry `geometry`, and focuses it. Nothing changes
    /// if the window is unknown.
    pub fn make_window_float(&mut self, window_id: WindowId, geometry: Rect)
        requires
            old(self).wf(),
        ensures
            old(self).windows().contains(window_id) ==> floated(old(self), final(self), window_id, geometry),
            !old(self).windows().contains(window_id) ==> *final(self) == *old(self),
    {
        let ghost a = *self;
        let fw = match self.find_in_stacks(window_id) {
            Some((i, j)) => {
                self.remove_from_stack(i, j);
                proof {
                    assert(!a.floats().contains(window_id)) by {
                        assert(a.stacks()[i as int].contains(window_id));
                    }
                    assert(without(a.floats(), window_id) == a.floats());
                }
                FloatWindow { id: window_id, geometry }
            },
            None => {
                match self.find_in_floats(window_id) {
                    Some(k) => {
                        proof {
                            assert(a.floats().index_of(window_id) == k);
                            lemma_floats_without(a.float_windows@, window_id, k as int);
                        }
                        self.remove_from_floats(k);
                        FloatWindow { id: window_id, geometry }
                    },
                    None => {
                        return ;
                    },
                }
            },
        };
        let ghost b = *self;
        self.float_windows.push(fw);
        proof {
            assert(!b.windows().contains(window_id));
            assert(!b.floats().contains(window_id));
            assert(self.floats() =~= b.floats().push(window_id));
            assert(self.floats().no_duplicates()) by {
                assert forall|p: int, q: int|
                    0 <= p < q < self.floats().len() implies self.floats()[p] != self.floats()[q] by {
                    if q == b.floats().len() {
                        assert(b.floats()[p] == self.floats()[p]);
                    }
                }
            }
            assert forall|x: WindowId| #[trigger] self.floats().contains(x) implies b.floats().contains(x)
                || !b.windows().contains(x) by {
                if x != window_id {
                    let p = choose|p: int| 0 <= p < self.floats().len() && self.floats()[p] == x;
                    assert(b.floats()[p] == x);
                }
            }
            lemma_floats_change(&b, self);
            assert forall|x: WindowId| self.windows().contains(x) == a.windows().contains(x) by {
                if x == window_id {
                    assert(self.floats()[b.floats().len() as int] == x);
                } else if b.floats().contains(x) {
                    let p = choose|p: int| 0 <= p < b.floats().len() && b.floats()[p] == x;
                    assert(self.floats()[p] == x);
                }
            }
            assert(self.windows() =~= a.windows());
        }
        let ghost c = *self;
        self.set_focus(window_id);
        proof {
            let n = c.float_windows@.len();
            assert(c.floats()[n - 1] == window_id);
            assert(c.floats().index_of(window_id) == n - 1);
            assert(self.float_windows@ =~= c.float_windows@);
        }
    }

    /// The same as `make_window_float`.
    pub fn float_window_with_rect(&mut self, window_id: WindowId, rect: Rect)
        requires
            old(self).wf(),
        ensures
            old(self).windows().contains(window_id) ==> floated(old(self), final(self), window_id, rect),
            !old(self).windows().contains(window_id) ==> *final(self) == *old(self),
    {
        self.make_window_float(window_id, rect)
    }

    /// Returns the focused floating window to the front of the focused
    /// workspace's stack and focuses it there. Nothing happens while the
    /// stack holds the focus.
    pub fn sink_focused_float(&mut self) -> (r: Option<WindowId>)
        requires
            old(self).wf(),
        ensures
            sunk(old(self), final(self), r),
    {
        if self.window_focus_type == WindowFocusType::Stack {
            return None;
        }
        let ghost a = *self;
        let fw = match self.float_windows.pop() {
            Some(fw) => fw,
            None => {
                return None;
            },
        };
        self.window_focus_type = WindowFocusType::Stack;
        let ghost b = *self;
        proof {
            let n = a.float_windows@.len();
            assert(a.floats().last() == fw.id);
            assert(b.floats() =~= a.floats().drop_last());
            assert forall|x: WindowId| #[trigger] b.floats().contains(x) implies a.floats().contains(x) by {
                let p = choose|p: int| 0 <= p < b.floats().len() && b.floats()[p] == x;
                assert(a.floats()[p] == x);
            }
            assert(b.floats().no_duplicates());
            lemma_floats_change(&a, &b);
            assert(!b.floats().contains(fw.id)) by {
                if b.floats().contains(fw.id) {
                    let p = choose|p: int| 0 <= p < b.floats().len() && b.floats()[p] == fw.id;
                    assert(a.floats()[p] == a.floats()[n - 1]);
                }
            }
            assert(!b.in_some_stack(fw.id)) by {
                if b.in_some_stack(fw.id) {
                    let c = b.stack_of(fw.id);
                    assert(a.stacks()[c].contains(fw.id));
                    assert(a.floats()[n - 1] == fw.id);
                }
            }
        }
        let i = self.workspaces.focused_index();
        let ws = self.workspaces.get_mut(i);
        ws.stack.insert(0, fw.id);
        proof {
            let si = b.stacks()[i as int];
            let ns = self.stacks()[i as int];
            assert(ns == si.insert(0, fw.id));
            assert(!si.contains(fw.id)) by {
                if si.contains(fw.id) {
                    assert(b.in_some_stack(fw.id));
                }
            }
            assert(ns.no_duplicates()) by {
                assert forall|p: int, q: int| 0 <= p < q < ns.len() implies ns[p] != ns[q] by {
                    if p == 0 {
                        assert(ns[q] == si[q - 1]);
                    } else {
                        assert(ns[p] == si[p - 1]);
                        assert(ns[q] == si[q - 1]);
                    }
                }
            }
            assert forall|x: WindowId| #[trigger] ns.contains(x) implies si.contains(x) || !b.windows().contains(x) by {
                if x != fw.id {
                    let p = choose|p: int| 0 <= p < ns.len() && ns[p] == x;
                    assert(si[p - 1] == x);
                }
            }
            lemma_stack_change(&b, self, i as int);
            assert forall|x: WindowId| self.windows().contains(x) == a.windows().contains(x) by {
                assert(b.windows().contains(x) <==> a.in_some_stack(x) || b.floats().contains(x));
                assert(self.windows().contains(x) <==> (b.windows().contains(x) && !(si.contains(x)
                    && !ns.contains(x))) || ns.contains(x));
                if b.floats().contains(x) {
                    assert(a.floats().contains(x));
                }
                if ns.contains(x) && x != fw.id {
                    assert(si.contains(x));
                    assert(a.stacks()[i as int] == si);
                    assert(a.in_some_stack(x));
                }
                if x == fw.id {
                    assert(ns[0] == x);
                    assert(a.floats()[a.floats().len() - 1] == x);
                }
                if si.contains(x) {
                    let p = choose|p: int| 0 <= p < si.len() && si[p] == x;
                    assert(ns[p + 1] == x);
                }
                if a.floats().contains(x) && x != fw.id {
                    let p = choose|p: int| 0 <= p < a.floats().len() && a.floats()[p] == x;
                    assert(p != a.floats().len() - 1);
                    assert(b.floats()[p] == x);
                }
                if a.in_some_stack(x) {
                    let c = a.stack_of(x);
                    assert(b.stacks()[c] == a.stacks()[c]);
                    assert(b.in_some_stack(x));
                }
            }
            assert(self.windows() =~= a.windows());
        }
        let ghost c = *self;
        self.set_focus(fw.id);
        proof {
            assert(c.stacks()[i as int][0] == fw.id);
            assert(c.stacks()[i as int].contains(fw.id));
            let s = c.stack_of(fw.id);
            assert(c.stacks()[s].contains(fw.id));
            assert(s == i) by {
                if s != i {
                    assert(!c.stacks()[s].contains(fw.id));
                }
            }
            assert(c.stacks()[i as int].index_of(fw.id) == 0) by {
                lemma_without(c.stacks()[i as int], fw.id, 0);
            }
            assert(!c.floats().contains(fw.id)) by {
                assert(c.float_windows@ == b.float_windows@);
            }
            assert(self.same_but_stack(&a, i as int)) by {
                assert forall|k: int| 0 <= k < self.workspaces@.len() && k != i implies #[trigger] self.workspaces@[k]
                    == a.workspaces@[k] by {
                    assert(c.workspaces@[k] == b.workspaces@[k]);
                }
            }
        }
        Some(fw.id)
    }

    /// Moves the focus of the focused workspace's stack `count` places,
    /// wrapping around. Nothing happens on an empty stack.
    pub fn move_focus(&mut self, count: isize)
        requires
            old(self).wf(),
        ensures
            final(self).wf(),
            final(self).windows() == old(self).windows(),
            final(self).same_but_stack(old(self), old(self).workspaces.index() as int),
            final(self).stacks() == old(self).stacks(),
            final(self).workspaces@[old(self).workspaces.index() as int].stack.index() == if old(
                self,
            ).stacks()[old(self).workspaces.index() as int].len() == 0 {
                0
            } else {
                mod_plus(
                    old(self).workspaces@[old(self).workspaces.index() as int].stack.index() as int,
                    count as int,
                    old(self).stacks()[old(self).workspaces.index() as int].len() as int,
                ) as nat
            },
            final(self).float_windows@ == old(self).float_windows@,
            final(self).window_focus_type == old(self).window_focus_type,
    {
        let ghost a = *self;
        let i = self.workspaces.focused_index();
        let ws = self.workspaces.get_mut(i);
        if !ws.stack.is_empty() {
            let j = ws.stack.mod_plus_focused_index(count);
            ws.stack.set_focused_index(j);
        }
        proof {
            assert(self.stacks() =~= a.stacks());
            lemma_stack_change(&a, self, i as int);
            assert(self.windows() =~= a.windows());
        }
    }

    /// Exchanges the focused window of the focused workspace with the one
    /// `count` places away (wrapping around), and keeps the focus on the
    /// same window. Nothing happens on an empty stack.
    pub fn window_swap(&mut self, count: isize)
        requires
            old(self).wf(),
        ensures
            final(self).wf(),
            final(self).windows() == old(self).windows(),
            final(self).same_but_stack(old(self), old(self).workspaces.index() as int),
            ({
                let f = old(self).workspaces.index() as int;
                let s = old(self).stacks()[f];
                let i = old(self).workspaces@[f].stack.index() as int;
                let j = mod_plus(i, count as int, s.len() as int);
                if s.len() == 0 {
                    final(self).stacks() == old(self).stacks()
                        && final(self).workspaces@[f].stack.index() == 0
                } else {
                    &&& final(self).stacks()[f] == s.update(i, s[j]).update(j, s[i])
                    &&& final(self).workspaces@[f].stack.index() == j
                }
            }),
            final(self).float_windows@ == old(self).float_windows@,
            final(self).window_focus_type == old(self).window_focus_type,
    {
        let ghost a = *self;
        let f = self.workspaces.focused_index();
        let ws = self.workspaces.get_mut(f);
        if !ws.stack.is_empty() {
            let i = ws.stack.focused_index();
            let j = ws.stack.mod_plus_focused_index(count);
            ws.stack.swap_and_focus(i, j);
            proof {
                lemma_swap(a.stacks()[f as int], i as int, j as int);
            }
        }
        proof {
            if a.stacks()[f as int].len() == 0 {
                assert(self.stacks() =~= a.stacks());
            }
            lemma_stack_change(&a, self, f as int);
            assert(self.windows() =~= a.windows());
        }
    }

    /// Moves the workspace focus `count` places, wrapping around.
    pub fn workspace_focus(&mut self, count: isize)
        requires
            old(self).wf(),
        ensures
            final(self).wf(),
            final(self).workspaces@ == old(self).workspaces@,
            final(self).workspaces.index() == mod_plus(
                old(self).workspaces.index() as int,
                count as int,
                old(self).workspaces@.len() as int,
            ),
            final(self).float_windows@ == old(self).float_windows@,
            final(self).window_focus_type == old(self).window_focus_type,
            final(self).windows() == old(self).windows(),
    {
        let i = self.workspaces.mod_plus_focused_index(count);
        self.set_workspace_focus(i);
    }

    /// Focuses workspace `i`.
    pub fn set_workspace_focus(&mut self, i: usize)
        requires
            old(self).wf(),
            i < old(self).workspaces@.len(),
        ensures
            final(self).wf(),
            final(self).workspaces@ == old(self).workspaces@,
            final(self).workspaces.index() == i,
            final(self).float_windows@ == old(self).float_windows@,
            final(self).window_focus_type == old(self).window_focus_type,
            final(self).windows() == old(self).windows(),
    {
        let ghost a = *self;
        self.workspaces.set_focused_index(i);
        proof {
            assert(self.stacks() =~= a.stacks());
            assert(self.windows() =~= a.windows());
        }
    }

    /// The first workspace tagged `tag`, if any.
    pub fn workspace_index_of(&self, tag: &WorkspaceTag) -> (r: Option<usize>)
        ensures
            r matches Some(i) ==> i < self.workspaces@.len() && self.workspaces@[i as int].tag.0@
                == tag.0@ && forall|k: int|
                0 <= k < i ==> (#[trigger] self.workspaces@[k]).tag.0@ != tag.0@,
            r is None ==> forall|k: int|
                0 <= k < self.workspaces@.len() ==> (#[trigger] self.workspaces@[k]).tag.0@
                    != tag.0@,
    {
        let v = self.workspaces.as_vec();
        let mut i: usize = 0;
        while i < v.len()
            invariant
                v@ == self.workspaces@,
                i <= v@.len(),
                forall|k: int| 0 <= k < i ==> (#[trigger] v@[k]).tag.0@ != tag.0@,
            decreases v@.len() - i,
        {
            if v[i].tag.0 == tag.0 {
                return Some(i);
            }
            i = i + 1;
        }
        None
    }

    /// Focuses the next workspace in direction `direction` (1 or -1, wrapping
    /// around) whose stack is not empty. Nothing happens if there is none.
    pub fn workspace_focus_non_empty(&mut self, direction: isize)
        requires
            old(self).wf(),
            direction == 1 || direction == -1,
        ensures
            final(self).wf(),
            final(self).workspaces@ == old(self).workspaces@,
            final(self).float_windows@ == old(self).float_windows@,
            final(self).window_focus_type == old(self).window_focus_type,
            final(self).windows() == old(self).windows(),
            ({
                let n = old(self).workspaces@.len() as int;
                let f = old(self).workspaces.index() as int;
                if exists|d: int| 1 <= d < n && old(self).stacks()[#[trigger] ring_at(f, direction as int, d, n as int)].len() > 0 {
                    exists|d: int|
                        1 <= d < n && old(self).stacks()[#[trigger] ring_at(f, direction as int, d, n as int)].len() > 0
                            && final(self).workspaces.index() == ring_at(f, direction as int, d, n as int) && forall|e: int|
                            1 <= e < d ==> old(self).stacks()[#[trigger] ring_at(f, direction as int, e, n as int)].len() == 0
                } else {
                    final(self).workspaces.index() == f
                }
            }),
    {
        let ghost a = *self;
        let n = self.workspaces.len();
        let ghost f = a.workspaces.index() as int;
        let mut d: usize = 1;
        while d < n
            invariant
                *self == a,
                a == *old(self),
                a.wf(),
                n == a.workspaces@.len(),
                1 <= d <= n,
                direction == 1 || direction == -1,
                f == a.workspaces.index(),
                forall|e: int| 1 <= e < d ==> a.stacks()[#[trigger] ring_at(f, direction as int, e, n as int)].len() == 0,
            decreases n - d,
        {
            let cur = self.workspaces.focused_index();
            let i = if direction == 1 {
                ((cur as u128 + d as u128) % (n as u128)) as usize
            } else {
                ((cur as u128 + n as u128 - d as u128) % (n as u128)) as usize
            };
            proof {
                if direction != 1 {
                    lemma_mod_add_multiples_vanish(f - d, n as int);
                }
                lemma_mod_pos_bound(f + if direction == 1 { d as int } else { n - d }, n as int);
                assert(ring_at(f, direction as int, d as int, n as int) == (f + direction * d) % (n as int));
                if direction == 1 {
                    assert((direction as int) * (d as int) == d as int) by (nonlinear_arith)
                        requires
                            direction == 1,
                    ;
                    assert(i == (f + d) % (n as int));
                } else {
                    assert((direction as int) * (d as int) == -(d as int)) by (nonlinear_arith)
                        requires
                            direction == -1,
                    ;
                    assert((f + n - d) % (n as int) == (f - d) % (n as int));
                    assert(i == (f - d) % (n as int));
                }
                assert(i == ring_at(f, direction as int, d as int, n as int));
            }
            if !self.workspaces.as_vec()[i].stack.is_empty() {
                proof {
                    assert(a.stacks()[ring_at(f, direction as int, d as int, n as int)].len() > 0);
                }
                self.set_workspace_focus(i);
                return;
            }
            d = d + 1;
        }
        proof {
            assert(!exists|d: int| 1 <= d < n && a.stacks()[#[trigger] ring_at(f, direction as int, d, n as int)].len() > 0);
        }
    }

    /// Moves the focused window of the focused workspace to the workspace
    /// `count` places away (wrapping around), inserting it at that stack's
    /// focus, and focuses that workspace. Nothing happens on an empty stack.
    pub fn window_move_to_workspace(&mut self, count: isize)
        requires
            old(self).wf(),
        ensures
            moved_focused_window(
                old(self),
                final(self),
                mod_plus(
                    old(self).workspaces.index() as int,
                    count as int,
                    old(self).workspaces@.len() as int,
                ),
            ),
    {
        let f = self.workspaces.focused_index();
        if self.workspaces.as_vec()[f].stack.is_empty() {
            return;
        }
        let ghost a = *self;
        let j = self.workspaces.as_vec()[f].stack.focused_index();
        let id = self.remove_from_stack(f, j);
        let ghost mid = *self;
        let t = self.workspaces.mod_plus_focused_index(count);
        self.set_workspace_focus(t);
        let ghost b = *self;
        self.insert_at_focus(t, id);
        proof {
            assert(removed_from_stacks(&a, &mid, id));
            let sf = a.stacks()[f as int];
            assert(sf[j as int] == id && sf.contains(id));
            assert forall|k: int| 0 <= k < a.workspaces@.len() implies
                #[trigger] a.stacks()[k].contains(id) == (k == f) by {
                if k != f && a.stacks()[k].contains(id) {
                    assert(!a.stacks()[k].contains(id));
                }
            }
            lemma_without(sf, id, j as int);
            assert(mid.stacks()[f as int].len() == sf.len() - 1);
            assert forall|k: int| 0 <= k < a.workspaces@.len() && k != t implies #[trigger] self.workspaces@[k]
                == mid.workspaces@[k] by {
                assert(b.workspaces@[k] == mid.workspaces@[k]);
            }
            assert(b.workspaces@[t as int] == mid.workspaces@[t as int]);
        }
    }

    /// Inserts a window held nowhere into workspace `i`'s stack at its focus
    /// index, so that the focus lands on it.
    fn insert_at_focus(&mut self, i: usize, id: WindowId)
        requires
            old(self).wf(),
            i < old(self).workspaces@.len(),
            !old(self).windows().contains(id),
        ensures
            final(self).wf(),
            final(self).windows() == old(self).windows().insert(id),
            final(self).same_but_stack(old(self), i as int),
            final(self).stacks()[i as int] == old(self).stacks()[i as int].insert(
                old(self).workspaces@[i as int].stack.index() as int,
                id,
            ),
            final(self).workspaces@[i as int].stack.index() == old(self).workspaces@[i as int].stack.index(),
            final(self).float_windows@ == old(self).float_windows@,
            final(self).window_focus_type == old(self).window_focus_type,
    {
        let ghost a = *self;
        let ws = self.workspaces.get_mut(i);
        let p = ws.stack.focused_index();
        ws.stack.insert(p, id);
        proof {
            let si = a.stacks()[i as int];
            let ns = self.stacks()[i as int];
            assert(ns == si.insert(p as int, id));
            assert(!si.contains(id)) by {
                if si.contains(id) {
                    assert(a.in_some_stack(id));
                }
            }
            assert(ns.no_duplicates()) by {
                assert forall|x: int, y: int| 0 <= x < y < ns.len() implies ns[x] != ns[y] by {
                    if x < p && y < p {
                        assert(ns[x] == si[x] && ns[y] == si[y]);
                    } else if x < p && y == p {
                        assert(ns[x] == si[x]);
                    } else if x < p {
                        assert(ns[x] == si[x] && ns[y] == si[y - 1]);
                    } else if x == p {
                        assert(ns[y] == si[y - 1]);
                    } else {
                        assert(ns[x] == si[x - 1] && ns[y] == si[y - 1]);
                    }
                }
            }
            assert forall|x: WindowId| #[trigger] ns.contains(x) implies si.contains(x) || !a.windows().contains(x) by {
                if x != id {
                    let q = choose|q: int| 0 <= q < ns.len() && ns[q] == x;
                    if q < p {
                        assert(si[q] == x);
                    } else {
                        assert(si[q - 1] == x);
                    }
                }
            }
            lemma_stack_change(&a, self, i as int);
            assert forall|x: WindowId| self.windows().contains(x) == a.windows().insert(id).contains(x) by {
                if x == id {
                    assert(ns[p as int] == x);
                }
                if si.contains(x) {
                    let q = choose|q: int| 0 <= q < si.len() && si[q] == x;
                    if q < p {
                        assert(ns[q] == x);
                    } else {
                        assert(ns[q + 1] == x);
                    }
                }
            }
            assert(self.windows() =~= a.windows().insert(id));
        }
    }

    /// Forgets every window listed in `dead`. Each stack keeps its
    /// survivors in order and focuses the first survivor at or after its old
    /// focus, else the last one before it; a `Float` focus with no floating
    /// window left falls back to the stack.
    pub fn remove_windows(&mut self, dead: &Vec<WindowId>)
        requires
            old(self).wf(),
        ensures
            pruned(old(self), final(self), dead@),
    {
        let ghost a = *self;
        let n = self.workspaces.len();
        let mut k: usize = 0;
        while k < n
            invariant
                a == *old(self),
                a.wf(),
                self.wf(),
                n == a.workspaces@.len(),
                k <= n,
                self.workspaces@.len() == n,
                self.workspaces.index() == a.workspaces.index(),
                self.float_windows@ == a.float_windows@,
                self.window_focus_type == a.window_focus_type,
                forall|j: int|
                    0 <= j < n ==> {
                        &&& (#[trigger] self.workspaces@[j]).tag == a.workspaces@[j].tag
                        &&& self.workspaces@[j].layout_tree == a.workspaces@[j].layout_tree
                        &&& j < k ==> self.stacks()[j] == a.stacks()[j].filter(alive(dead@))
                            && self.workspaces@[j].stack.index() == pruned_focus(
                            a.stacks()[j],
                            a.workspaces@[j].stack.index(),
                            dead@,
                        )
                        &&& j >= k ==> self.workspaces@[j] == a.workspaces@[j]
                    },
                forall|x: WindowId|
                    #[trigger] self.windows().contains(x) <==> a.windows().contains(x) && !(
                    dead@.contains(x) && exists|j: int|
                        0 <= j < k && #[trigger] a.stacks()[j].contains(x)),
            decreases n - k,
        {
            let ghost b = *self;
            assert(b.workspaces@[k as int] == a.workspaces@[k as int]);
            let pruned = prune_stack(&self.workspaces.as_vec()[k].stack, dead);
            let ws = self.workspaces.get_mut(k);
            ws.stack = pruned;
            proof {
                let sk = a.stacks()[k as int];
                assert(b.stacks()[k as int] == sk);
                assert(sk.no_duplicates());
                lemma_filter_unique(sk, alive(dead@));
                assert(self.stacks()[k as int] == sk.filter(alive(dead@)));
                lemma_stack_change(&b, self, k as int);
                assert forall|x: WindowId|
                    #[trigger] self.windows().contains(x) <==> a.windows().contains(x) && !(
                    dead@.contains(x) && exists|j: int|
                        0 <= j < k + 1 && #[trigger] a.stacks()[j].contains(x)) by {
                    if dead@.contains(x) && exists|j: int| 0 <= j < k + 1 && #[trigger] a.stacks()[j].contains(x) {
                        let j = choose|j: int| 0 <= j < k + 1 && #[trigger] a.stacks()[j].contains(x);
                        if j < k {
                            assert(exists|j: int| 0 <= j < k && #[trigger] a.stacks()[j].contains(x));
                        } else {
                            assert(sk.contains(x));
                        }
                    }
                    if dead@.contains(x) && exists|j: int| 0 <= j < k && #[trigger] a.stacks()[j].contains(x) {
                        let j = choose|j: int| 0 <= j < k && #[trigger] a.stacks()[j].contains(x);
                        assert(0 <= j < k + 1 && a.stacks()[j].contains(x));
                    }
                }
                assert forall|j: int| 0 <= j < n implies {
                    &&& (#[trigger] self.workspaces@[j]).tag == a.workspaces@[j].tag
                    &&& self.workspaces@[j].layout_tree == a.workspaces@[j].layout_tree
                    &&& j < k + 1 ==> self.stacks()[j] == a.stacks()[j].filter(alive(dead@))
                        && self.workspaces@[j].stack.index() == pruned_focus(
                        a.stacks()[j],
                        a.workspaces@[j].stack.index(),
                        dead@,
                    )
                    &&& j >= k + 1 ==> self.workspaces@[j] == a.workspaces@[j]
                } by {
                    if j != k {
                        assert(self.workspaces@[j] == b.workspaces@[j]);
                        assert(self.stacks()[j] == b.stacks()[j]);
                    }
                }
            }
            k = k + 1;
        }
        let ghost mid = *self;
        let fs = prune_floats(&self.float_windows, dead);
        self.float_windows = fs;
        if self.float_windows.len() == 0 {
            self.window_focus_type = WindowFocusType::Stack;
        }
        proof {
            let af = a.float_windows@;
            lemma_ids_filter(af, dead@);
            lemma_filter_unique(a.floats(), alive(dead@));
            lemma_floats_change(&mid, self);
            assert forall|x: WindowId| self.windows().contains(x) == a.windows().difference(dead@.to_set()).contains(x) by {
                if mid.in_some_stack(x) {
                    let j = mid.stack_of(x);
                    assert(mid.stacks()[j].contains(x));
                    lemma_filter_unique(a.stacks()[j], alive(dead@));
                    assert(a.stacks()[j].contains(x));
                    assert(a.in_some_stack(x));
                    assert(!dead@.contains(x));
                }
                if a.in_some_stack(x) && !dead@.contains(x) {
                    let j = a.stack_of(x);
                    assert(a.stacks()[j].contains(x));
                    lemma_filter_unique(a.stacks()[j], alive(dead@));
                    assert(mid.stacks()[j].contains(x));
                    assert(mid.in_some_stack(x));
                }
                if a.in_some_stack(x) && dead@.contains(x) {
                    let j = a.stack_of(x);
                    assert(a.stacks()[j].contains(x));
                    assert(!mid.windows().contains(x));
                }
            }
            assert(self.windows() =~= a.windows().difference(dead@.to_set()));
        }
    }

    /// The focused window, if any.
    pub fn focused_window(&self) -> (r: Option<WindowId>)
        requires
            self.wf(),
        ensures
            r == self.focused_window_spec(),
    {
        match self.window_focus_type {
            WindowFocusType::Stack => {
                match self.workspaces.focus().stack.focus() {
                    Some(id) => Some(*id),
                    None => None,
                }
            },
            WindowFocusType::Float => {
                let n = self.float_windows.len();
                if n > 0 {
                    Some(self.float_windows[n - 1].id)
                } else {
                    None
                }
            },
        }
    }

    /// Whether the stack set holds `id`.
    pub fn contains_window(&self, id: WindowId) -> (r: bool)
        requires
            self.wf(),
        ensures
            r == self.windows().contains(id),
    {
        match self.find_in_stacks(id) {
            Some((i, j)) => {
                proof {
                    assert(self.stacks()[i as int][j as int] == id);
                    assert(self.stacks()[i as int].contains(id));
                }
                true
            },
            None => {
                match self.find_in_floats(id) {
                    Some(k) => {
                        assert(self.floats()[k as int] == id);
                        true
                    },
                    None => false,
                }
            },
        }
    }

    /// Where `id` sits in a stack: the workspace and the position.
    pub(crate) fn find_in_stacks(&self, id: WindowId) -> (r: Option<(usize, usize)>)
        requires
            self.wf(),
        ensures
            r matches Some((i, j)) ==> i < self.stacks().len() && j < self.stacks()[i as int].len()
                && self.stacks()[i as int][j as int] == id && self.stack_of(id) == i,
            r is None ==> !self.in_some_stack(id),
    {
        let n = self.workspaces.len();
        let mut i: usize = 0;
        while i < n
            invariant
                self.wf(),
                n == self.stacks().len(),
                i <= n,
                forall|k: int| 0 <= k < i ==> !(#[trigger] self.stacks()[k]).contains(id),
            decreases n - i,
        {
            let v = self.workspaces.as_vec()[i].stack.as_vec();
            assert(v@ == self.stacks()[i as int]);
            let mut j: usize = 0;
            while j < v.len()
                invariant
                    self.wf(),
                    i < n,
                    n == self.stacks().len(),
                    v@ == self.stacks()[i as int],
                    j <= v@.len(),
                    forall|k: int| 0 <= k < j ==> v@[k] != id,
                decreases v@.len() - j,
            {
                if v[j] == id {
                    proof {
                        assert(self.stacks()[i as int][j as int] == id);
                        assert(self.stacks()[i as int].contains(id));
                        assert(self.in_some_stack(id));
                        let c = self.stack_of(id);
                        assert(0 <= c < n && self.stacks()[c].contains(id));
                        if c != i {
                            assert(!self.stacks()[c].contains(id));
                        }
                    }
                    return Some((i, j));
                }
                j = j + 1;
            }
            i = i + 1;
        }
        None
    }

    /// Where `id` sits in the floating windows.
    pub(crate) fn find_in_floats(&self, id: WindowId) -> (r: Option<usize>)
        ensures
            r matches Some(k) ==> k < self.floats().len() && self.floats()[k as int] == id,
            r is None ==> !self.floats().contains(id),
    {
        let mut k: usize = 0;
        while k < self.float_windows.len()
            invariant
                k <= self.floats().len(),
                forall|m: int| 0 <= m < k ==> self.floats()[m] != id,
            decreases self.floats().len() - k,
        {
            if self.float_windows[k].id == id {
                return Some(k);
            }
            k = k + 1;
        }
        None
    }
}

} // verus!
