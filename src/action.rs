use vstd::prelude::*;
use crate::focused_vec::mod_plus;
use crate::layout::LayoutMessage;
use crate::stackset::{floated, moved_focused_window, ring_at, WindowFocusType, WorkspaceTag};
use crate::view::{layout_geometry, layout_message_handled, OutputView};
use crate::window::WindowId;

verus! {

/// Work that only the surrounding program can do, requested by an action.
#[derive(Debug, Clone, PartialEq, Eq)]
pub enum Effect {
    /// Stop the window manager.
    Quit,
    /// Switch to the given virtual terminal.
    ChangeVt(i32),
    /// Start the given command, without waiting for it.
    Spawn(String),
    /// Ask the given window to close.
    Kill(WindowId),
}

/// Runs the inner action, then focuses the workspace that was focused
/// before it.
#[derive(Debug)]
pub struct ActionWithSavedFocus(pub Box<Action>);

#[derive(Debug, Clone, Copy, PartialEq, Eq, Structural)]
pub struct ActionQuitSabiniwm;

#[derive(Debug, Clone, Copy, PartialEq, Eq, Structural)]
pub struct ActionChangeVt(pub i32);

#[derive(Debug, Clone, Copy, PartialEq, Eq, Structural)]
pub enum ActionMoveFocus {
    Next,
    Prev,
}

#[derive(Debug, Clone, Copy, PartialEq, Eq, Structural)]
pub enum ActionWindowSwap {
    Next,
    Prev,
}

#[derive(Debug, Clone, PartialEq, Eq)]
pub enum ActionWorkspaceFocus {
    Next,
    Prev,
    WithTag(WorkspaceTag),
}

#[derive(Debug, Clone, Copy, PartialEq, Eq, Structural)]
pub enum ActionWorkspaceFocusNonEmpty {
    Next,
    Prev,
}

#[derive(Debug, Clone, PartialEq, Eq)]
pub enum ActionWindowMoveToWorkspace {
    Next,
    Prev,
    WithTag(WorkspaceTag),
}

#[derive(Debug, Clone, Copy, PartialEq, Eq, Structural)]
pub struct ActionWindowKill {}

#[derive(Debug, Clone, Copy, PartialEq, Eq, Structural)]
pub struct ActionWindowFloat {}

#[derive(Debug, Clone, Copy, PartialEq, Eq, Structural)]
pub struct ActionWindowSink {}

/// Runs its actions in order, each on the state the previous one left.
#[derive(Debug)]
pub struct ActionSequential(pub Vec<Action>);

/// A command bound to a key sequence.
#[derive(Debug)]
pub enum Action {
    WithSavedFocus(ActionWithSavedFocus),
    QuitSabiniwm(ActionQuitSabiniwm),
    ChangeVt(ActionChangeVt),
    Spawn(String),
    MoveFocus(ActionMoveFocus),
    WindowSwap(ActionWindowSwap),
    WorkspaceFocus(ActionWorkspaceFocus),
    WorkspaceFocusNonEmpty(ActionWorkspaceFocusNonEmpty),
    WindowMoveToWorkspace(ActionWindowMoveToWorkspace),
    WindowKill(ActionWindowKill),
    WindowFloat(ActionWindowFloat),
    WindowSink(ActionWindowSink),
    Sequential(ActionSequential),
    Layout(LayoutMessage),
}

/// What every action keeps: a well-formed view with the same windows, the
/// same output and the same identifier counter.
pub open spec fn keeps(a: &OutputView, b: &OutputView) -> bool {
    &&& b.wf()
    &&& b.stackset_spec().windows() == a.stackset_spec().windows()
    &&& b.rect_spec() == a.rect_spec()
    &&& b.next_id() == a.next_id()
    &&& b.stackset_spec().workspaces@.len() == a.stackset_spec().workspaces@.len()
}

/// The floating windows and the kind of focus are as they were.
pub open spec fn floats_kept(a: &OutputView, b: &OutputView) -> bool {
    &&& b.stackset_spec().float_windows@ == a.stackset_spec().float_windows@
    &&& b.stackset_spec().window_focus_type == a.stackset_spec().window_focus_type
}

/// +1 for the forward variant of a two-way action, -1 for the other.
pub open spec fn step_of(next: bool) -> int {
    if next {
        1
    } else {
        -1
    }
}

impl Action {
    /// What `exec` does, from view `a` and requested effects `e0` to view
    /// `b` and effects `e1`.
    pub open spec fn post(&self, a: &OutputView, b: &OutputView, e0: Seq<Effect>, e1: Seq<Effect>) -> bool
        decreases self,
    {
        &&& keeps(a, b)
        &&& e0.is_prefix_of(e1)
        &&& match self {
            Action::WithSavedFocus(w) => exists|mid: OutputView|
                (*w.0).post(a, &mid, e0, e1) && refocused(&mid, b, a.stackset_spec().workspaces.index()),
            Action::QuitSabiniwm(_) => *b == *a && e1 == e0.push(Effect::Quit),
            Action::ChangeVt(c) => *b == *a && e1 == e0.push(Effect::ChangeVt(c.0)),
            Action::Spawn(cmd) => *b == *a && e1 == e0.push(Effect::Spawn(*cmd)),
            Action::MoveFocus(m) => m.post(a, b) && e1 == e0,
            Action::WindowSwap(m) => m.post(a, b) && e1 == e0,
            Action::WorkspaceFocus(m) => (exists|ok: bool| m.post(a, b, ok)) && e1 == e0,
            Action::WorkspaceFocusNonEmpty(m) => m.post(a, b) && e1 == e0,
            Action::WindowMoveToWorkspace(m) => (exists|ok: bool| m.post(a, b, ok)) && e1 == e0,
            Action::WindowKill(m) => m.post(a, b, e0, e1),
            Action::WindowFloat(m) => m.post(a, b) && e1 == e0,
            Action::WindowSink(m) => m.post(a, b) && e1 == e0,
            Action::Sequential(sq) => exists|vs: Seq<OutputView>, es: Seq<Seq<Effect>>|
                {
                    &&& vs.len() == sq.0@.len() + 1
                    &&& es.len() == sq.0@.len() + 1
                    &&& forall|i: int|
                        #![trigger vs[i]]
                        0 <= i < sq.0@.len() ==> sq.0@[i].post(&vs[i], &vs[i + 1], es[i], es[i + 1])
                    &&& vs[0] == *a && vs.last() == *b && es[0] == e0 && es.last() == e1
                },
            Action::Layout(msg) => (exists|h: bool| layout_message_handled(a, b, *msg, h)) && e1 == e0,
        }
    }

    /// Carries the action out on `view`, appending to `effects` what only
    /// the surrounding program can do.
    pub fn exec(&self, view: &mut OutputView, effects: &mut Vec<Effect>)
        requires
            old(view).wf(),
        ensures
            self.post(old(view), final(view), old(effects)@, final(effects)@),
        decreases self,
    {
        match self {
            Action::WithSavedFocus(a) => a.exec(view, effects),
            Action::QuitSabiniwm(a) => a.exec(effects),
            Action::ChangeVt(a) => a.exec(effects),
            Action::Spawn(cmd) => {
                effects.push(Effect::Spawn(cmd.clone()));
            },
            Action::MoveFocus(a) => a.exec(view),
            Action::WindowSwap(a) => a.exec(view),
            Action::WorkspaceFocus(a) => {
                a.exec(view);
            },
            Action::WorkspaceFocusNonEmpty(a) => a.exec(view),
            Action::WindowMoveToWorkspace(a) => {
                a.exec(view);
            },
            Action::WindowKill(a) => a.exec(view, effects),
            Action::WindowFloat(a) => a.exec(view),
            Action::WindowSink(a) => a.exec(view),
            Action::Sequential(a) => a.exec(view, effects),
            Action::Layout(msg) => {
                view.handle_layout_message(msg);
            },
        }
        proof {
            assert(old(effects)@.is_prefix_of(effects@)) by {
                assert(effects@.subrange(0, old(effects)@.len() as int) =~= old(effects)@);
            }
        }
    }
}

/// `b` is `a` with workspace `i` focused.
pub open spec fn refocused(a: &OutputView, b: &OutputView, i: nat) -> bool {
    let (sa, sb) = (a.stackset_spec(), b.stackset_spec());
    &&& sb.workspaces@ == sa.workspaces@
    &&& sb.workspaces.index() == i
    &&& sb.float_windows@ == sa.float_windows@
    &&& sb.window_focus_type == sa.window_focus_type
    &&& b.rect_spec() == a.rect_spec()
    &&& b.float_border() == a.float_border()
    &&& b.next_id() == a.next_id()
    &&& b.last_layout_spec() == a.last_layout_spec()
}

impl ActionWithSavedFocus {
    /// Runs the inner action, then focuses the workspace focused before.
    pub fn exec(&self, view: &mut OutputView, effects: &mut Vec<Effect>)
        requires
            old(view).wf(),
        ensures
            keeps(old(view), final(view)),
            old(effects)@.is_prefix_of(final(effects)@),
            exists|mid: OutputView|
                (*self.0).post(old(view), &mid, old(effects)@, final(effects)@) && refocused(
                    &mid,
                    final(view),
                    old(view).stackset_spec().workspaces.index(),
                ),
        decreases self,
    {
        let ws_index = view.stackset().workspaces.focused_index();
        self.0.exec(view, effects);
        let ghost mid = *view;
        let ss = view.stackset_mut();
        ss.set_workspace_focus(ws_index);
        proof {
            assert(refocused(&mid, view, ws_index as nat));
            assert((*self.0).post(old(view), &mid, old(effects)@, effects@));
        }
    }
}

impl ActionQuitSabiniwm {
    pub fn exec(&self, effects: &mut Vec<Effect>)
        ensures
            final(effects)@ == old(effects)@.push(Effect::Quit),
    {
        effects.push(Effect::Quit);
    }
}

impl ActionChangeVt {
    pub fn exec(&self, effects: &mut Vec<Effect>)
        ensures
            final(effects)@ == old(effects)@.push(Effect::ChangeVt(self.0)),
    {
        effects.push(Effect::ChangeVt(self.0));
    }
}

impl ActionMoveFocus {
    /// What `exec` does, from `a` to `b`.
    pub open spec fn post(&self, a: &OutputView, b: &OutputView) -> bool {
        &&& keeps(a, b)
        &&& floats_kept(a, b)
        &&& ({
            let ss = a.stackset_spec();
            let f = ss.workspaces.index() as int;
            let nss = b.stackset_spec();
            &&& nss.same_but_stack(&ss, f)
            &&& nss.stacks() == ss.stacks()
            &&& nss.workspaces@[f].stack.index() == if ss.stacks()[f].len() == 0 {
                0
            } else {
                mod_plus(
                    ss.workspaces@[f].stack.index() as int,
                    step_of(*self == ActionMoveFocus::Next),
                    ss.stacks()[f].len() as int,
                ) as nat
            }
        })
    }

    pub fn exec(&self, view: &mut OutputView)
        requires
            old(view).wf(),
        ensures
            self.post(old(view), final(view)),
    {
        let count: isize = match self {
            ActionMoveFocus::Next => 1,
            ActionMoveFocus::Prev => -1,
        };
        view.stackset_mut().move_focus(count);
    }
}

impl ActionWindowSwap {
    /// What `exec` does, from `a` to `b`.
    pub open spec fn post(&self, a: &OutputView, b: &OutputView) -> bool {
        &&& keeps(a, b)
        &&& floats_kept(a, b)
        &&& ({
            let ss = a.stackset_spec();
            let f = ss.workspaces.index() as int;
            let nss = b.stackset_spec();
            let s = ss.stacks()[f];
            let i = ss.workspaces@[f].stack.index() as int;
            let j = mod_plus(i, step_of(*self == ActionWindowSwap::Next), s.len() as int);
            &&& nss.same_but_stack(&ss, f)
            &&& s.len() == 0 ==> nss.stacks() == ss.stacks()
            &&& s.len() > 0 ==> nss.stacks()[f] == s.update(i, s[j]).update(j, s[i])
                && nss.workspaces@[f].stack.index() == j
        })
    }

    pub fn exec(&self, view: &mut OutputView)
        requires
            old(view).wf(),
        ensures
            self.post(old(view), final(view)),
    {
        let count: isize = match self {
            ActionWindowSwap::Next => 1,
            ActionWindowSwap::Prev => -1,
        };
        view.stackset_mut().window_swap(count);
    }
}

impl ActionWorkspaceFocus {
    /// What `exec` does, from `a` to `b`.
    pub open spec fn post(&self, a: &OutputView, b: &OutputView, ok: bool) -> bool {
        &&& keeps(a, b)
        &&& floats_kept(a, b)
        &&& b.stackset_spec().workspaces@ == a.stackset_spec().workspaces@
        &&& ({
            let ss = a.stackset_spec();
            let n = ss.workspaces@.len() as int;
            let f = ss.workspaces.index() as int;
            let nf = b.stackset_spec().workspaces.index() as int;
            match self {
                ActionWorkspaceFocus::Next => ok && nf == mod_plus(f, 1, n),
                ActionWorkspaceFocus::Prev => ok && nf == mod_plus(f, -1, n),
                ActionWorkspaceFocus::WithTag(tag) => {
                    &&& ok <==> exists|k: int| 0 <= k < n && (#[trigger] ss.workspaces@[k]).tag.0@ == tag.0@
                    &&& ok ==> ss.workspaces@[nf].tag.0@ == tag.0@
                        && forall|k: int| 0 <= k < nf ==> (#[trigger] ss.workspaces@[k]).tag.0@ != tag.0@
                    &&& !ok ==> nf == f
                },
            }
        })
    }

    /// Returns `false`, and changes nothing, when no workspace has the tag.
    pub fn exec(&self, view: &mut OutputView) -> (ok: bool)
        requires
            old(view).wf(),
        ensures
            self.post(old(view), final(view), ok),
    {
        match self {
            ActionWorkspaceFocus::Next => {
                view.stackset_mut().workspace_focus(1);
                true
            },
            ActionWorkspaceFocus::Prev => {
                view.stackset_mut().workspace_focus(-1);
                true
            },
            ActionWorkspaceFocus::WithTag(tag) => {
                match view.stackset().workspace_index_of(tag) {
                    Some(i) => {
                        view.stackset_mut().set_workspace_focus(i);
                        true
                    },
                    None => false,
                }
            },
        }
    }
}

impl ActionWorkspaceFocusNonEmpty {
    /// What `exec` does, from `a` to `b`.
    pub open spec fn post(&self, a: &OutputView, b: &OutputView) -> bool {
        &&& keeps(a, b)
        &&& floats_kept(a, b)
        &&& b.stackset_spec().workspaces@ == a.stackset_spec().workspaces@
        &&& ({
            let ss = a.stackset_spec();
            let n = ss.workspaces@.len() as int;
            let f = ss.workspaces.index() as int;
            let dir = step_of(*self == ActionWorkspaceFocusNonEmpty::Next);
            let nf = b.stackset_spec().workspaces.index() as int;
            if exists|d: int| 1 <= d < n && ss.stacks()[#[trigger] ring_at(f, dir, d, n)].len() > 0 {
                exists|d: int|
                    1 <= d < n && ss.stacks()[#[trigger] ring_at(f, dir, d, n)].len() > 0 && nf == ring_at(f, dir, d, n)
                        && forall|e: int| 1 <= e < d ==> ss.stacks()[#[trigger] ring_at(f, dir, e, n)].len() == 0
            } else {
                nf == f
            }
        })
    }

    pub fn exec(&self, view: &mut OutputView)
        requires
            old(view).wf(),
        ensures
            self.post(old(view), final(view)),
    {
        let direction: isize = match self {
            ActionWorkspaceFocusNonEmpty::Next => 1,
            ActionWorkspaceFocusNonEmpty::Prev => -1,
        };
        view.stackset_mut().workspace_focus_non_empty(direction);
    }
}

impl ActionWindowMoveToWorkspace {
    /// What `exec` does, from `a` to `b`.
    pub open spec fn post(&self, a: &OutputView, b: &OutputView, ok: bool) -> bool {
        &&& keeps(a, b)
        &&& ({
            let ss = a.stackset_spec();
            let nss = b.stackset_spec();
            let n = ss.workspaces@.len() as int;
            let f = ss.workspaces.index() as int;
            match self {
                ActionWindowMoveToWorkspace::Next => ok && moved_focused_window(&ss, &nss, mod_plus(f, 1, n)),
                ActionWindowMoveToWorkspace::Prev => ok && moved_focused_window(&ss, &nss, mod_plus(f, -1, n)),
                ActionWindowMoveToWorkspace::WithTag(tag) => {
                    &&& ok <==> (exists|k: int| 0 <= k < n && (#[trigger] ss.workspaces@[k]).tag.0@ == tag.0@)
                        && n <= isize::MAX
                    &&& ok ==> exists|k: int|
                        0 <= k < n && (#[trigger] ss.workspaces@[k]).tag.0@ == tag.0@ && (forall|j: int|
                            0 <= j < k ==> (#[trigger] ss.workspaces@[j]).tag.0@ != tag.0@)
                            && moved_focused_window(&ss, &nss, k)
                    &&& !ok ==> nss == ss
                },
            }
        })
    }

    /// Returns `false`, and changes nothing, when no workspace has the tag.
    pub fn exec(&self, view: &mut OutputView) -> (ok: bool)
        requires
            old(view).wf(),
        ensures
            self.post(old(view), final(view), ok),
    {
        let count: isize = match self {
            ActionWindowMoveToWorkspace::Next => 1,
            ActionWindowMoveToWorkspace::Prev => -1,
            ActionWindowMoveToWorkspace::WithTag(tag) => {
                let n = view.stackset().workspaces.len();
                let src = view.stackset().workspaces.focused_index();
                match view.stackset().workspace_index_of(tag) {
                    Some(dst) => {
                        if n > isize::MAX as usize {
                            return false;
                        }
                        proof {
                            vstd::arithmetic::div_mod::lemma_small_mod(dst as nat, n as nat);
                            assert(mod_plus(src as int, dst as int - src as int, n as int) == dst);
                        }
                        dst as isize - src as isize
                    },
                    None => {
                        return false;
                    },
                }
            },
        };
        view.stackset_mut().window_move_to_workspace(count);
        true
    }
}

impl ActionWindowKill {
    /// What `exec` does, from `a` to `b`.
    pub open spec fn post(&self, a: &OutputView, b: &OutputView, e0: Seq<Effect>, e1: Seq<Effect>) -> bool {
        &&& *b == *a
        &&& e1 == match a.stackset_spec().focused_window_spec() {
            Some(id) => e0.push(Effect::Kill(id)),
            None => e0,
        }
    }

    pub fn exec(&self, view: &mut OutputView, effects: &mut Vec<Effect>)
        requires
            old(view).wf(),
        ensures
            self.post(old(view), final(view), old(effects)@, final(effects)@),
    {
        if let Some(id) = view.focused_window() {
            effects.push(Effect::Kill(id));
        }
    }
}

impl ActionWindowFloat {
    /// What `exec` does, from `a` to `b`.
    pub open spec fn post(&self, a: &OutputView, b: &OutputView) -> bool {
        &&& keeps(a, b)
        &&& a.stackset_spec().focused_window_spec() matches Some(id) ==> floated(
            &a.stackset_spec(),
            &b.stackset_spec(),
            id,
            layout_geometry(a, id),
        )
        &&& a.stackset_spec().focused_window_spec() is None ==> *b == *a
    }

    pub fn exec(&self, view: &mut OutputView)
        requires
            old(view).wf(),
        ensures
            self.post(old(view), final(view)),
    {
        if let Some(id) = view.focused_window() {
            proof {
                let ss = old(view).stackset_spec();
                match ss.window_focus_type {
                    WindowFocusType::Stack => {
                        let f = ss.workspaces.index() as int;
                        assert(ss.stacks()[f][ss.workspaces@[f].stack.index() as int] == id);
                        assert(ss.stacks()[f].contains(id));
                        assert(ss.in_some_stack(id));
                    },
                    WindowFocusType::Float => {
                        assert(ss.floats()[ss.floats().len() - 1] == id);
                        assert(ss.floats().contains(id));
                    },
                }
            }
            view.make_window_float(id);
        }
    }
}

impl ActionWindowSink {
    /// What `exec` does, from `a` to `b`.
    pub open spec fn post(&self, a: &OutputView, b: &OutputView) -> bool {
        &&& keeps(a, b)
        &&& ({
            let ss = a.stackset_spec();
            let nss = b.stackset_spec();
            let f = ss.workspaces.index() as int;
            &&& ss.window_focus_type == WindowFocusType::Stack ==> nss == ss
            &&& ss.window_focus_type == WindowFocusType::Float ==> {
                let id = ss.floats().last();
                &&& nss.float_windows@ == ss.float_windows@.drop_last()
                &&& nss.same_but_stack(&ss, f)
                &&& nss.stacks()[f] == ss.stacks()[f].insert(0, id)
                &&& nss.window_focus_type == WindowFocusType::Stack
                &&& nss.focused_window_spec() == Some(id)
            }
        })
    }

    pub fn exec(&self, view: &mut OutputView)
        requires
            old(view).wf(),
        ensures
            self.post(old(view), final(view)),
    {
        view.stackset_mut().sink_focused_float();
    }
}

impl ActionSequential {
    /// Runs the actions in order, each on the state the previous one left.
    pub fn exec(&self, view: &mut OutputView, effects: &mut Vec<Effect>)
        requires
            old(view).wf(),
        ensures
            keeps(old(view), final(view)),
            old(effects)@.is_prefix_of(final(effects)@),
            exists|vs: Seq<OutputView>, es: Seq<Seq<Effect>>|
                {
                    &&& vs.len() == self.0@.len() + 1
                    &&& es.len() == self.0@.len() + 1
                    &&& forall|i: int|
                        #![trigger vs[i]]
                        0 <= i < self.0@.len() ==> self.0@[i].post(&vs[i], &vs[i + 1], es[i], es[i + 1])
                    &&& vs[0] == *old(view) && vs.last() == *final(view) && es[0] == old(effects)@
                        && es.last() == final(effects)@
                },
        decreases self,
    {
        let ghost mut vs: Seq<OutputView> = seq![*view];
        let ghost mut es: Seq<Seq<Effect>> = seq![effects@];
        let mut i: usize = 0;
        while i < self.0.len()
            invariant
                i <= self.0@.len(),
                keeps(old(view), view),
                old(effects)@.is_prefix_of(effects@),
                vs.len() == i + 1,
                es.len() == i + 1,
                vs[0] == *old(view),
                es[0] == old(effects)@,
                vs[i as int] == *view,
                es[i as int] == effects@,
                forall|j: int|
                    #![trigger vs[j]]
                    0 <= j < i ==> self.0@[j].post(&vs[j], &vs[j + 1], es[j], es[j + 1]),
            decreases self.0@.len() - i,
        {
            proof {
                assert(decreases_to!(self.0 => self.0[i as int]));
            }
            self.0[i].exec(view, effects);
            proof {
                vs = vs.push(*view);
                es = es.push(effects@);
            }
            i = i + 1;
        }
        proof {
            let n = self.0@.len() as int;
            assert(vs.len() == n + 1 && es.len() == n + 1);
            assert(vs.last() == *view && es.last() == effects@);
        }
    }
}

} // verus!
