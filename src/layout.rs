use vstd::prelude::*;
use crate::focused_vec::{mod_plus, NonEmptyFocusedVec};
use crate::geometry::{
    left_half, make_plain_border, plain_border, right_half, shrink, shrink_spec, split_left_right,
    strip, strip_of, Border, Rect, Thickness, WindowProps,
};
use crate::window::WindowId;

verus! {

/// Shows only the focused window, over the whole area.
#[derive(Debug, Clone, Copy, PartialEq, Eq, Structural)]
pub struct LayoutFull {}

/// The first window takes the left half; the others share the right half in
/// equal horizontal strips.
#[derive(Debug, Clone, Copy, PartialEq, Eq, Structural)]
pub struct LayoutTall {}

#[derive(Debug, Clone, Copy, PartialEq, Eq, Structural)]
pub enum LayoutMessageSelect {
    Next,
    Prev,
}

#[derive(Debug, Clone, Copy, PartialEq, Eq, Structural)]
pub struct LayoutMessageToggle;

/// A reconfiguration request broadcast through a layout tree.
#[derive(Debug, Clone, Copy, PartialEq, Eq, Structural)]
pub enum LayoutMessage {
    Select(LayoutMessageSelect),
    Toggle(LayoutMessageToggle),
}

/// A message kind that can be read back out of a `LayoutMessage`.
pub trait LayoutMessageI: Sized {
    /// The payload of this kind that `m` carries, if it carries one.
    spec fn extract(m: LayoutMessage) -> Option<Self>;

    fn downcast(m: &LayoutMessage) -> (r: Option<&Self>)
        ensures
            r == match Self::extract(*m) {
                Some(x) => Some(&x),
                None => None::<&Self>,
            },
    ;
}

impl LayoutMessageI for LayoutMessageSelect {
    open spec fn extract(m: LayoutMessage) -> Option<Self> {
        match m {
            LayoutMessage::Select(s) => Some(s),
            _ => None,
        }
    }

    fn downcast(m: &LayoutMessage) -> (r: Option<&Self>) {
        match m {
            LayoutMessage::Select(s) => Some(s),
            _ => None,
        }
    }
}

impl LayoutMessageI for LayoutMessageToggle {
    open spec fn extract(m: LayoutMessage) -> Option<Self> {
        match m {
            LayoutMessage::Toggle(t) => Some(t),
            _ => None,
        }
    }

    fn downcast(m: &LayoutMessage) -> (r: Option<&Self>) {
        match m {
            LayoutMessage::Toggle(t) => Some(t),
            _ => None,
        }
    }
}

impl LayoutMessage {
    pub fn downcast_ref<T: LayoutMessageI>(&self) -> (r: Option<&T>)
        ensures
            r == match T::extract(*self) {
                Some(x) => Some(&x),
                None => None::<&T>,
            },
    {
        T::downcast(self)
    }
}

/// Lays out one of several child nodes, switchable by `LayoutMessageSelect`.
#[derive(Debug)]
pub struct LayoutNodeSelect {
    pub node_ids: NonEmptyFocusedVec<usize>,
}

impl LayoutNodeSelect {
    pub fn new(node_ids: NonEmptyFocusedVec<usize>) -> (r: Self)
        ensures
            r.node_ids == node_ids,
    {
        LayoutNodeSelect { node_ids }
    }
}

/// Alternates between two child nodes on `LayoutMessageToggle`.
#[derive(Debug)]
pub struct LayoutNodeToggle {
    pub node_ids: NonEmptyFocusedVec<usize>,
}

impl LayoutNodeToggle {
    pub fn new(node_id_default: usize, node_id_toggle: usize) -> (r: Self)
        ensures
            r.node_ids@ == seq![node_id_default, node_id_toggle],
            r.node_ids.index() == 0,
    {
        let node_ids = NonEmptyFocusedVec::new(vec![node_id_default, node_id_toggle], 0);
        LayoutNodeToggle { node_ids }
    }
}

/// Shrinks every rectangle its child emits by a margin.
#[derive(Debug, Clone, Copy, PartialEq, Eq, Structural)]
pub struct LayoutNodeMargin {
    pub child: usize,
    pub margin: Thickness,
}

impl LayoutNodeMargin {
    pub fn new(child: usize, margin: Thickness) -> (r: Self)
        ensures
            r == (LayoutNodeMargin { child, margin }),
    {
        LayoutNodeMargin { child, margin }
    }
}

/// Shrinks every rectangle its child emits by the border width and stamps
/// the border onto it.
#[derive(Debug, Clone, Copy, PartialEq, Eq, Structural)]
pub struct LayoutNodeBorder {
    pub child: usize,
    pub border: Border,
}

impl LayoutNodeBorder {
    pub fn new(child: usize, border: Border) -> (r: Self)
        ensures
            r == (LayoutNodeBorder { child, border }),
    {
        LayoutNodeBorder { child, border }
    }
}

/// One algorithm or decorator of a layout tree. Children are referred to by
/// their index in the tree's arena.
#[derive(Debug)]
pub enum LayoutNode {
    Full(LayoutFull),
    Tall(LayoutTall),
    Select(LayoutNodeSelect),
    Toggle(LayoutNodeToggle),
    Margin(LayoutNodeMargin),
    Border(LayoutNodeBorder),
}

/// The mathematical model of a layout node.
pub enum NodeModel {
    Full,
    Tall,
    Select { ids: Seq<usize>, focus: nat },
    Toggle { ids: Seq<usize>, focus: nat },
    Margin { child: usize, margin: Thickness },
    Border { child: usize, border: Border },
}

impl View for LayoutNode {
    type V = NodeModel;

    open spec fn view(&self) -> NodeModel {
        match self {
            LayoutNode::Full(_) => NodeModel::Full,
            LayoutNode::Tall(_) => NodeModel::Tall,
            LayoutNode::Select(s) => NodeModel::Select {
                ids: s.node_ids@,
                focus: s.node_ids.index(),
            },
            LayoutNode::Toggle(t) => NodeModel::Toggle {
                ids: t.node_ids@,
                focus: t.node_ids.index(),
            },
            LayoutNode::Margin(m) => NodeModel::Margin { child: m.child, margin: m.margin },
            LayoutNode::Border(b) => NodeModel::Border { child: b.child, border: b.border },
        }
    }
}

/// The nodes a node refers to.
pub open spec fn children(n: NodeModel) -> Seq<usize> {
    match n {
        NodeModel::Select { ids, .. } => ids,
        NodeModel::Toggle { ids, .. } => ids,
        NodeModel::Margin { child, .. } => seq![child],
        NodeModel::Border { child, .. } => seq![child],
        _ => Seq::empty(),
    }
}

/// A node's own state is consistent: a switch has a valid choice, and a
/// toggle has exactly two children.
pub open spec fn node_wf(n: NodeModel) -> bool {
    match n {
        NodeModel::Select { ids, focus } => focus < ids.len(),
        NodeModel::Toggle { ids, focus } => ids.len() == 2 && focus < 2,
        _ => true,
    }
}

/// Every node refers only to nodes stored before it, so the tree is acyclic.
pub open spec fn nodes_wf(nodes: Seq<NodeModel>) -> bool {
    forall|i: int|
        #![trigger nodes[i]]
        0 <= i < nodes.len() ==> node_wf(nodes[i]) && forall|j: int|
            0 <= j < children(nodes[i]).len() ==> (#[trigger] children(nodes[i])[j]) < i
}

/// What a leaf emits for one window.
pub open spec fn leaf_props(r: Rect) -> WindowProps {
    WindowProps { geometry: r, border: plain_border() }
}

/// The assignment `LayoutTall` makes for `stack` inside `r`.
pub open spec fn tall_spec(stack: Seq<WindowId>, r: Rect) -> Seq<(WindowId, WindowProps)> {
    if stack.len() == 0 {
        Seq::empty()
    } else if stack.len() == 1 {
        seq![(stack[0], leaf_props(r))]
    } else {
        seq![(stack[0], leaf_props(left_half(r)))] + Seq::new(
            (stack.len() - 1) as nat,
            |i: int| (stack[i + 1], leaf_props(strip(right_half(r), i, stack.len() - 1))),
        )
    }
}

/// Moves each emitted rectangle inwards by `t`.
pub open spec fn margin_spec(q: Seq<(WindowId, WindowProps)>, t: Thickness) -> Seq<
    (WindowId, WindowProps),
> {
    q.map_values(
        |e: (WindowId, WindowProps)|
            (e.0, WindowProps { geometry: shrink_spec(e.1.geometry, t), border: e.1.border }),
    )
}

/// Moves each emitted rectangle inwards by the border width and frames it
/// with `b`.
pub open spec fn border_spec(q: Seq<(WindowId, WindowProps)>, b: Border) -> Seq<
    (WindowId, WindowProps),
> {
    q.map_values(
        |e: (WindowId, WindowProps)|
            (e.0, WindowProps { geometry: shrink_spec(e.1.geometry, b.dim), border: b }),
    )
}

/// The assignment node `id` makes for a workspace whose stack is `stack`
/// with focus index `focus`, inside `r`.
pub open spec fn layout_spec(
    nodes: Seq<NodeModel>,
    id: int,
    r: Rect,
    stack: Seq<WindowId>,
    focus: nat,
) -> Seq<(WindowId, WindowProps)>
    decreases id,
{
    if 0 <= id < nodes.len() {
        match nodes[id] {
            NodeModel::Full => {
                if focus < stack.len() {
                    seq![(stack[focus as int], leaf_props(r))]
                } else {
                    Seq::empty()
                }
            },
            NodeModel::Tall => tall_spec(stack, r),
            NodeModel::Select { ids, focus: f } => {
                if f < ids.len() && ids[f as int] < id {
                    layout_spec(nodes, ids[f as int] as int, r, stack, focus)
                } else {
                    Seq::empty()
                }
            },
            NodeModel::Toggle { ids, focus: f } => {
                if f < ids.len() && ids[f as int] < id {
                    layout_spec(nodes, ids[f as int] as int, r, stack, focus)
                } else {
                    Seq::empty()
                }
            },
            NodeModel::Margin { child, margin } => {
                if child < id {
                    margin_spec(layout_spec(nodes, child as int, r, stack, focus), margin)
                } else {
                    Seq::empty()
                }
            },
            NodeModel::Border { child, border } => {
                if child < id {
                    border_spec(layout_spec(nodes, child as int, r, stack, focus), border)
                } else {
                    Seq::empty()
                }
            },
        }
    } else {
        Seq::empty()
    }
}

/// Whether a node reacts to a message itself.
pub open spec fn recognizes(n: NodeModel, msg: LayoutMessage) -> bool {
    match n {
        NodeModel::Select { .. } => msg is Select,
        NodeModel::Toggle { .. } => msg is Toggle,
        _ => false,
    }
}

/// The step a message makes a switch take.
pub open spec fn select_step(msg: LayoutMessage) -> int {
    match msg {
        LayoutMessage::Select(LayoutMessageSelect::Prev) => -1,
        _ => 1,
    }
}

/// The node state after `n` handled `msg` itself.
pub open spec fn react(n: NodeModel, msg: LayoutMessage) -> NodeModel {
    match n {
        NodeModel::Select { ids, focus } => NodeModel::Select {
            ids,
            focus: mod_plus(focus as int, select_step(msg), ids.len() as int) as nat,
        },
        NodeModel::Toggle { ids, focus } => NodeModel::Toggle {
            ids,
            focus: mod_plus(focus as int, 1, ids.len() as int) as nat,
        },
        _ => n,
    }
}

/// Top-down, depth-first dispatch of `msg` from node `id`: the nodes
/// afterwards, and whether some node handled it.
pub open spec fn handle_spec(nodes: Seq<NodeModel>, id: int, msg: LayoutMessage) -> (
    Seq<NodeModel>,
    bool,
)
    decreases id, 1int, 0int,
{
    if 0 <= id < nodes.len() {
        if recognizes(nodes[id], msg) {
            (nodes.update(id, react(nodes[id], msg)), true)
        } else {
            forward_spec(nodes, id, children(nodes[id]), 0, msg)
        }
    } else {
        (nodes, false)
    }
}

/// Hands `msg` to `ids[i..]` in order until one of them handles it.
pub open spec fn forward_spec(
    nodes: Seq<NodeModel>,
    parent: int,
    ids: Seq<usize>,
    i: int,
    msg: LayoutMessage,
) -> (Seq<NodeModel>, bool)
    decreases parent, 0int, ids.len() - i,
{
    if 0 <= i < ids.len() && ids[i] < parent {
        let (n2, handled) = handle_spec(nodes, ids[i] as int, msg);
        if handled {
            (n2, true)
        } else {
            forward_spec(n2, parent, ids, i + 1, msg)
        }
    } else {
        (nodes, false)
    }
}

/// The model of every rectangle in `q` lying inside `r`.
pub open spec fn inside(q: Seq<(WindowId, WindowProps)>, r: Rect) -> bool {
    forall|i: int|
        0 <= i < q.len() ==> (#[trigger] q[i]).1.geometry.wf() && r.contains_rect(
            q[i].1.geometry,
        )
}

fn copy_ids(v: &Vec<usize>) -> (r: Vec<usize>)
    ensures
        r@ == v@,
{
    let mut r: Vec<usize> = Vec::new();
    let mut i: usize = 0;
    while i < v.len()
        invariant
            i <= v@.len(),
            r@ == v@.subrange(0, i as int),
        decreases v@.len() - i,
    {
        r.push(v[i]);
        i = i + 1;
    }
    assert(r@ =~= v@);
    r
}

impl LayoutNode {
    /// A node with the same model.
    pub fn duplicate(&self) -> (r: LayoutNode)
        ensures
            r@ == self@,
    {
        match self {
            LayoutNode::Full(_) => LayoutNode::Full(LayoutFull {  }),
            LayoutNode::Tall(_) => LayoutNode::Tall(LayoutTall {  }),
            LayoutNode::Select(s) => {
                let ids = copy_ids(s.node_ids.as_vec());
                LayoutNode::Select(
                    LayoutNodeSelect {
                        node_ids: NonEmptyFocusedVec::from_parts(ids, s.node_ids.focused_index()),
                    },
                )
            },
            LayoutNode::Toggle(t) => {
                let ids = copy_ids(t.node_ids.as_vec());
                LayoutNode::Toggle(
                    LayoutNodeToggle {
                        node_ids: NonEmptyFocusedVec::from_parts(ids, t.node_ids.focused_index()),
                    },
                )
            },
            LayoutNode::Margin(m) => LayoutNode::Margin(*m),
            LayoutNode::Border(b) => LayoutNode::Border(*b),
        }
    }
}

/// A layout template: an arena of nodes and the index of the root. Each
/// workspace builds its own tree from it.
#[derive(Debug)]
pub struct LayoutTreeBuilder {
    nodes: Vec<LayoutNode>,
    root_id: usize,
}

/// An arena of layout nodes reachable from a root. Its structure is fixed
/// once built; only the nodes' own choices change.
#[derive(Debug)]
pub struct LayoutTree {
    nodes: Vec<LayoutNode>,
    root_id: usize,
}

pub open spec fn models(v: Seq<LayoutNode>) -> Seq<NodeModel> {
    v.map_values(|n: LayoutNode| n@)
}

/// A template is usable when its root exists and its nodes are well formed.
pub open spec fn template_ok(nodes: Seq<NodeModel>, root: nat) -> bool {
    root < nodes.len() && nodes_wf(nodes)
}

impl LayoutTreeBuilder {
    pub closed spec fn nodes(&self) -> Seq<NodeModel> {
        models(self.nodes@)
    }

    pub closed spec fn root(&self) -> nat {
        self.root_id as nat
    }

    pub fn new(nodes: Vec<LayoutNode>, root_id: usize) -> (r: Self)
        ensures
            r.nodes() == models(nodes@),
            r.root() == root_id,
    {
        LayoutTreeBuilder { nodes, root_id }
    }

    /// A fresh tree with the template's nodes, or `None` if the template
    /// refers to a missing node, holds a cycle or a node without a valid
    /// choice.
    pub fn build(&self) -> (r: Option<LayoutTree>)
        ensures
            r is Some <==> template_ok(self.nodes(), self.root()),
            r matches Some(t) ==> t.nodes() == self.nodes() && t.root() == self.root() && t.wf(),
    {
        let n = self.nodes.len();
        if self.root_id >= n {
            return None;
        }
        let mut out: Vec<LayoutNode> = Vec::new();
        let mut i: usize = 0;
        while i < n
            invariant
                n == self.nodes@.len(),
                i <= n,
                models(out@) == models(self.nodes@).subrange(0, i as int),
                nodes_wf(models(self.nodes@).subrange(0, i as int)),
            decreases n - i,
        {
            let node = &self.nodes[i];
            if !node_ok(node, i) {
                assert(!nodes_wf(models(self.nodes@))) by {
                    assert(models(self.nodes@)[i as int] == node@);
                }
                return None;
            }
            let ghost prev = out@;
            let d = node.duplicate();
            out.push(d);
            proof {
                let m = models(self.nodes@);
                assert(out@ == prev.push(d));
                assert forall|k: int| 0 <= k < i + 1 implies #[trigger] models(out@)[k] == m.subrange(
                    0,
                    i as int + 1,
                )[k] by {
                    if k < i {
                        assert(models(prev)[k] == m.subrange(0, i as int)[k]);
                        assert(out@[k] == prev[k]);
                    }
                }
                assert(models(out@) =~= m.subrange(0, i as int + 1));
                assert forall|k: int| #![trigger m.subrange(0, i as int + 1)[k]]
                    0 <= k < i + 1 implies node_wf(m.subrange(0, i as int + 1)[k])
                    && forall|j: int| 0 <= j < children(m.subrange(0, i as int + 1)[k]).len()
                        ==> (#[trigger] children(m.subrange(0, i as int + 1)[k])[j]) < k by {
                    if k < i {
                        assert(m.subrange(0, i as int + 1)[k] == m.subrange(0, i as int)[k]);
                    }
                }
            }
            i = i + 1;
        }
        proof {
            assert(models(self.nodes@).subrange(0, n as int) =~= models(self.nodes@));
        }
        Some(LayoutTree { nodes: out, root_id: self.root_id })
    }
}

/// Whether node `node`, stored at `i`, is well formed and refers only to
/// nodes before it.
fn node_ok(node: &LayoutNode, i: usize) -> (r: bool)
    ensures
        r == (node_wf(node@) && forall|j: int|
            0 <= j < children(node@).len() ==> #[trigger] children(node@)[j] < i),
{
    match node {
        LayoutNode::Select(s) => {
            assert(children(node@) == s.node_ids@);
            if s.node_ids.focused_index() >= s.node_ids.len() {
                return false;
            }
            let ok = ids_below(s.node_ids.as_vec(), i);
            assert(ok == forall|j: int|
                0 <= j < children(node@).len() ==> #[trigger] children(node@)[j] < i);
            ok
        },
        LayoutNode::Toggle(t) => {
            assert(children(node@) == t.node_ids@);
            if t.node_ids.len() != 2 || t.node_ids.focused_index() >= 2 {
                return false;
            }
            let ok = ids_below(t.node_ids.as_vec(), i);
            assert(ok == forall|j: int|
                0 <= j < children(node@).len() ==> #[trigger] children(node@)[j] < i);
            ok
        },
        LayoutNode::Margin(m) => {
            assert(children(node@)[0] == m.child);
            m.child < i
        },
        LayoutNode::Border(b) => {
            assert(children(node@)[0] == b.child);
            b.child < i
        },
        _ => true,
    }
}

fn ids_below(v: &Vec<usize>, bound: usize) -> (r: bool)
    ensures
        r == forall|j: int| 0 <= j < v@.len() ==> #[trigger] v@[j] < bound,
{
    let mut k: usize = 0;
    while k < v.len()
        invariant
            k <= v@.len(),
            forall|j: int| 0 <= j < k ==> #[trigger] v@[j] < bound,
        decreases v@.len() - k,
    {
        if v[k] >= bound {
            return false;
        }
        k = k + 1;
    }
    true
}

impl LayoutTree {
    pub closed spec fn nodes(&self) -> Seq<NodeModel> {
        models(self.nodes@)
    }

    pub closed spec fn root(&self) -> nat {
        self.root_id as nat
    }

    pub open spec fn wf(&self) -> bool {
        template_ok(self.nodes(), self.root())
    }

    pub fn root_id(&self) -> (r: usize)
        ensures
            r == self.root(),
    {
        self.root_id
    }

    /// The assignment node `id` makes inside `r` for `stack` focused at `focus`.
    pub fn layout(&self, id: usize, r: Rect, stack: &Vec<WindowId>, focus: usize) -> (q: Vec<
        (WindowId, WindowProps),
    >)
        requires
            self.wf(),
            id < self.nodes().len(),
            r.wf(),
        ensures
            q@ == layout_spec(self.nodes(), id as int, r, stack@, focus as nat),
            inside(q@, r),
        decreases id,
    {
        let ghost nodes = self.nodes();
        assert(nodes[id as int] == self.nodes@[id as int]@);
        match &self.nodes[id] {
            LayoutNode::Full(_) => {
                let mut q: Vec<(WindowId, WindowProps)> = Vec::new();
                if focus < stack.len() {
                    q.push((stack[focus], WindowProps { geometry: r, border: make_plain_border() }));
                    assert(q@ =~= seq![(stack@[focus as int], leaf_props(r))]);
                }
                q
            },
            LayoutNode::Tall(_) => layout_tall(r, stack),
            LayoutNode::Select(s) => {
                let c = *s.node_ids.focus();
                assert(children(nodes[id as int])[s.node_ids.index() as int] == c);
                self.layout(c, r, stack, focus)
            },
            LayoutNode::Toggle(t) => {
                let c = *t.node_ids.focus();
                assert(children(nodes[id as int])[t.node_ids.index() as int] == c);
                self.layout(c, r, stack, focus)
            },
            LayoutNode::Margin(m) => {
                assert(children(nodes[id as int])[0] == m.child);
                let q = self.layout(m.child, r, stack, focus);
                decorate(q, r, &m.margin, None)
            },
            LayoutNode::Border(b) => {
                assert(children(nodes[id as int])[0] == b.child);
                let q = self.layout(b.child, r, stack, focus);
                decorate(q, r, &b.border.dim, Some(b.border))
            },
        }
    }

    /// Dispatches `msg` from node `id` downwards; returns whether some node
    /// handled it.
    pub fn handle_message(&mut self, id: usize, msg: &LayoutMessage) -> (handled: bool)
        requires
            old(self).wf(),
            id < old(self).nodes().len(),
        ensures
            (final(self).nodes(), handled) == handle_spec(old(self).nodes(), id as int, *msg),
            final(self).root() == old(self).root(),
            final(self).nodes().len() == old(self).nodes().len(),
            final(self).wf(),
        decreases id, 1int, 0int,
    {
        let ghost nodes0 = self.nodes();
        assert(nodes0[id as int] == self.nodes@[id as int]@);
        let kids: Vec<usize> = match &self.nodes[id] {
            LayoutNode::Select(s) => {
                if msg.downcast_ref::<LayoutMessageSelect>().is_some() {
                    Vec::new()
                } else {
                    copy_ids(s.node_ids.as_vec())
                }
            },
            LayoutNode::Toggle(t) => {
                if msg.downcast_ref::<LayoutMessageToggle>().is_some() {
                    Vec::new()
                } else {
                    copy_ids(t.node_ids.as_vec())
                }
            },
            LayoutNode::Margin(m) => vec![m.child],
            LayoutNode::Border(b) => vec![b.child],
            _ => Vec::new(),
        };
        if recognizes_msg(&self.nodes[id], msg) {
            self.react_at(id, msg);
            return true;
        }
        assert(kids@ =~= children(nodes0[id as int]));
        self.forward(id, &kids, 0, msg)
    }

    fn react_at(&mut self, id: usize, msg: &LayoutMessage)
        requires
            old(self).wf(),
            id < old(self).nodes().len(),
            recognizes(old(self).nodes()[id as int], *msg),
        ensures
            final(self).nodes() == old(self).nodes().update(
                id as int,
                react(old(self).nodes()[id as int], *msg),
            ),
            final(self).root() == old(self).root(),
            final(self).nodes().len() == old(self).nodes().len(),
            final(self).wf(),
    {
        let ghost nodes0 = self.nodes();
        assert(nodes0[id as int] == self.nodes@[id as int]@);
        let node = &mut self.nodes[id];
        match node {
            LayoutNode::Select(s) => {
                let step: isize = match msg {
                    LayoutMessage::Select(LayoutMessageSelect::Prev) => -1,
                    _ => 1,
                };
                let i = s.node_ids.mod_plus_focused_index(step);
                s.node_ids.set_focused_index(i);
            },
            LayoutNode::Toggle(t) => {
                let i = t.node_ids.mod_plus_focused_index(1);
                t.node_ids.set_focused_index(i);
            },
            _ => {},
        }
        proof {
            let nodes1 = self.nodes();
            assert(nodes1 =~= nodes0.update(id as int, react(nodes0[id as int], *msg)));
            assert forall|k: int| #![trigger nodes1[k]]
                0 <= k < nodes1.len() implies node_wf(nodes1[k]) && forall|j: int|
                    0 <= j < children(nodes1[k]).len() ==> (#[trigger] children(nodes1[k])[j]) < k by {
                assert(nodes_wf(nodes0));
                assert(node_wf(nodes0[k]));
                if k == id {
                    assert(children(nodes1[k]) == children(nodes0[k]));
                }
            }
        }
    }

    fn forward(&mut self, parent: usize, ids: &Vec<usize>, i: usize, msg: &LayoutMessage) -> (handled: bool)
        requires
            old(self).wf(),
            i <= ids@.len(),
            forall|j: int| 0 <= j < ids@.len() ==> #[trigger] ids@[j] < parent,
            parent < old(self).nodes().len(),
        ensures
            (final(self).nodes(), handled) == forward_spec(
                old(self).nodes(),
                parent as int,
                ids@,
                i as int,
                *msg,
            ),
            final(self).root() == old(self).root(),
            final(self).nodes().len() == old(self).nodes().len(),
            final(self).wf(),
        decreases parent, 0int, ids@.len() - i,
    {
        if i >= ids.len() {
            return false;
        }
        let c = ids[i];
        let handled = self.handle_message(c, msg);
        if handled {
            true
        } else {
            self.forward(parent, ids, i + 1, msg)
        }
    }
}

fn recognizes_msg(node: &LayoutNode, msg: &LayoutMessage) -> (r: bool)
    ensures
        r == recognizes(node@, *msg),
{
    match node {
        LayoutNode::Select(_) => msg.downcast_ref::<LayoutMessageSelect>().is_some(),
        LayoutNode::Toggle(_) => msg.downcast_ref::<LayoutMessageToggle>().is_some(),
        _ => false,
    }
}

/// `LayoutTall` on `stack` inside `r`.
fn layout_tall(r: Rect, stack: &Vec<WindowId>) -> (q: Vec<(WindowId, WindowProps)>)
    requires
        r.wf(),
    ensures
        q@ == tall_spec(stack@, r),
        inside(q@, r),
{
    let mut q: Vec<(WindowId, WindowProps)> = Vec::new();
    let n = stack.len();
    if n == 0 {
        assert(q@ =~= tall_spec(stack@, r));
        return q;
    }
    if n == 1 {
        q.push((stack[0], WindowProps { geometry: r, border: make_plain_border() }));
        assert(q@ =~= tall_spec(stack@, r));
        return q;
    }
    let (left, right) = split_left_right(r);
    q.push((stack[0], WindowProps { geometry: left, border: make_plain_border() }));
    let k = n - 1;
    let mut i: usize = 0;
    while i < k
        invariant
            k == n - 1,
            n == stack@.len(),
            n >= 2,
            i <= k,
            right == right_half(r),
            right.wf(),
            r.contains_rect(right),
            q@ == seq![(stack@[0], leaf_props(left_half(r)))] + Seq::new(
                i as nat,
                |j: int| (stack@[j + 1], leaf_props(strip(right_half(r), j, k as int))),
            ),
            inside(q@, r),
        decreases k - i,
    {
        let g = strip_of(right, i, k);
        q.push((stack[i + 1], WindowProps { geometry: g, border: make_plain_border() }));
        assert(q@ =~= seq![(stack@[0], leaf_props(left_half(r)))] + Seq::new(
            (i + 1) as nat,
            |j: int| (stack@[j + 1], leaf_props(strip(right_half(r), j, k as int))),
        ));
        i = i + 1;
    }
    q
}

/// Shrinks every entry of `q` by `t`, and stamps `b` onto each if given.
fn decorate(q: Vec<(WindowId, WindowProps)>, r: Rect, t: &Thickness, b: Option<Border>) -> (out: Vec<
    (WindowId, WindowProps),
>)
    requires
        r.wf(),
        inside(q@, r),
        b matches Some(bb) ==> bb.dim == *t,
    ensures
        out@ == match b {
            Some(bb) => border_spec(q@, bb),
            None => margin_spec(q@, *t),
        },
        inside(out@, r),
{
    let mut out: Vec<(WindowId, WindowProps)> = Vec::new();
    let mut i: usize = 0;
    while i < q.len()
        invariant
            i <= q@.len(),
            r.wf(),
            inside(q@, r),
            inside(out@, r),
            b matches Some(bb) ==> bb.dim == *t,
            out@ == match b {
                Some(bb) => border_spec(q@, bb),
                None => margin_spec(q@, *t),
            }.subrange(0, i as int),
        decreases q@.len() - i,
    {
        let (wid, props) = q[i];
        assert(q@[i as int].1.geometry.wf());
        let g = shrink(props.geometry, t);
        let border = match b {
            Some(bb) => bb,
            None => props.border,
        };
        out.push((wid, WindowProps { geometry: g, border }));
        assert(out@ =~= match b {
            Some(bb) => border_spec(q@, bb),
            None => margin_spec(q@, *t),
        }.subrange(0, i as int + 1));
        i = i + 1;
    }
    assert(out@ =~= match b {
        Some(bb) => border_spec(q@, bb),
        None => margin_spec(q@, *t),
    });
    out
}

} // verus!
