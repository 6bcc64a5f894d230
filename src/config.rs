use vstd::prelude::*;
use crate::action::{Action, ActionQuitSabiniwm};
use crate::focused_vec::NonEmptyFocusedVec;
use crate::keymap::{Key, Keymap, ModMask, MASK_CONTROL};
use crate::geometry::{Border, Rgba, Thickness};
use crate::layout::{
    template_ok, LayoutFull, LayoutNode, LayoutNodeBorder, LayoutNodeMargin, LayoutNodeSelect,
    LayoutNodeToggle, LayoutTall, LayoutTreeBuilder, NodeModel,
};
use crate::stackset::WorkspaceTag;

verus! {

/// Key repeat settings handed to the keyboard.
#[derive(Debug, Clone, Copy, PartialEq, Eq, Structural)]
pub struct XkbConfig {
    pub repeat_delay: u16,
    pub repeat_rate: u16,
}

/// The default key repeat: 200 ms delay, 60 keys per second.
pub fn get_xkb_config() -> (r: XkbConfig)
    ensures
        r == (XkbConfig { repeat_delay: 200, repeat_rate: 60 }),
{
    XkbConfig { repeat_delay: 200, repeat_rate: 60 }
}

/// The border of the default layout and of floating windows: 2 pixels,
/// olive green when active.
pub open spec fn default_border() -> Border {
    Border {
        dim: Thickness { top: 2, right: 2, bottom: 2, left: 2 },
        active_rgba: Rgba { r: 0x55, g: 0x6b, b: 0x2f, a: 0xff },
        inactive_rgba: Rgba { r: 0, g: 0, b: 0, a: 0 },
    }
}

/// The default layout template: a toggle between full screen and a
/// bordered, margined switch between tall and full.
pub open spec fn default_layout_nodes() -> Seq<NodeModel> {
    seq![
        NodeModel::Tall,
        NodeModel::Full,
        NodeModel::Select { ids: seq![0usize, 1usize], focus: 0 },
        NodeModel::Margin { child: 2, margin: Thickness { top: 8, right: 8, bottom: 8, left: 8 } },
        NodeModel::Border { child: 3, border: default_border() },
        NodeModel::Full,
        NodeModel::Toggle { ids: seq![4usize, 5usize], focus: 0 },
    ]
}

pub fn make_layout_tree_builder() -> (r: LayoutTreeBuilder)
    ensures
        r.nodes() == default_layout_nodes(),
        r.root() == 6,
        template_ok(r.nodes(), r.root()),
{
    let border = Border {
        dim: Thickness::uniform(2),
        active_rgba: Rgba::from_rgba(0x556b2fff),
        inactive_rgba: Rgba::from_rgba(0x00000000),
    };
    let nodes = vec![
        LayoutNode::Tall(LayoutTall {  }),
        LayoutNode::Full(LayoutFull {  }),
        LayoutNode::Select(LayoutNodeSelect::new(NonEmptyFocusedVec::new(vec![0usize, 1usize], 0))),
        LayoutNode::Margin(LayoutNodeMargin::new(2, Thickness::uniform(8))),
        LayoutNode::Border(LayoutNodeBorder::new(3, border)),
        LayoutNode::Full(LayoutFull {  }),
        LayoutNode::Toggle(LayoutNodeToggle::new(4, 5)),
    ];
    let r = LayoutTreeBuilder::new(nodes, 6);
    proof {
        assert(r.nodes() =~= default_layout_nodes());
        let m = r.nodes();
        assert forall|i: int| 0 <= i < m.len() implies #[trigger] crate::layout::node_wf(m[i]) && forall|j: int|
            0 <= j < crate::layout::children(m[i]).len() ==> (#[trigger] crate::layout::children(m[i])[j]) < i by {
        }
    }
    r
}

/// The ten default workspace tags, "0" to "9".
pub open spec fn default_tags() -> Seq<Seq<char>> {
    seq![
        seq!['0'],
        seq!['1'],
        seq!['2'],
        seq!['3'],
        seq!['4'],
        seq!['5'],
        seq!['6'],
        seq!['7'],
        seq!['8'],
        seq!['9'],
    ]
}

pub fn make_workspace_tags() -> (r: Vec<WorkspaceTag>)
    ensures
        r@.map_values(|t: WorkspaceTag| t.0@) == default_tags(),
{
    proof {
        reveal_strlit("0");
        reveal_strlit("1");
        reveal_strlit("2");
        reveal_strlit("3");
        reveal_strlit("4");
        reveal_strlit("5");
        reveal_strlit("6");
        reveal_strlit("7");
        reveal_strlit("8");
        reveal_strlit("9");
    }
    let mut r: Vec<WorkspaceTag> = Vec::new();
    r.push(WorkspaceTag("0".to_owned()));
    r.push(WorkspaceTag("1".to_owned()));
    r.push(WorkspaceTag("2".to_owned()));
    r.push(WorkspaceTag("3".to_owned()));
    r.push(WorkspaceTag("4".to_owned()));
    r.push(WorkspaceTag("5".to_owned()));
    r.push(WorkspaceTag("6".to_owned()));
    r.push(WorkspaceTag("7".to_owned()));
    r.push(WorkspaceTag("8".to_owned()));
    r.push(WorkspaceTag("9".to_owned()));
    assert forall|i: int| 0 <= i < 10 implies r@[i].0@ == #[trigger] default_tags()[i] by {}
    assert(r@.map_values(|t: WorkspaceTag| t.0@) =~= default_tags());
    r
}

/// `Control` plus the key whose keysym is `sym`.
pub open spec fn ctrl(sym: u32) -> Key {
    Key { modmask: ModMask(MASK_CONTROL), keysym: sym }
}

/// The default bindings: `C-x C-q` quits, `C-x C-t` starts a terminal.
pub fn make_keymap() -> (r: Keymap<Action>)
    ensures
        r.seqs() == seq![seq![ctrl(0x78), ctrl(0x71)], seq![ctrl(0x78), ctrl(0x74)]],
        r.actions().len() == 2,
        r.actions()[0] is QuitSabiniwm,
        r.actions()[1] matches Action::Spawn(cmd) && cmd@ == seq!['a', 'l', 'a', 'c', 'r', 'i', 't', 't', 'y'],
{
    let control = ModMask(MASK_CONTROL);
    let x = Key::new(control, 0x78);
    let mut bindings: Vec<(Vec<Key>, Action)> = Vec::new();
    bindings.push((vec![x, Key::new(control, 0x71)], Action::QuitSabiniwm(ActionQuitSabiniwm)));
    proof {
        reveal_strlit("alacritty");
    }
    bindings.push((vec![x, Key::new(control, 0x74)], Action::Spawn("alacritty".to_owned())));
    let r = Keymap::new(bindings);
    proof {
        assert(r.seqs() =~= seq![seq![ctrl(0x78), ctrl(0x71)], seq![ctrl(0x78), ctrl(0x74)]]);
    }
    r
}

/// The configuration used when the user gives none.
#[derive(Debug, Clone, Copy, PartialEq, Eq, Structural)]
pub struct ConfigDelegateUnstableDefault;

impl ConfigDelegateUnstableDefault {
    pub fn get_xkb_config(&self) -> (r: XkbConfig)
        ensures
            r == (XkbConfig { repeat_delay: 200, repeat_rate: 60 }),
    {
        get_xkb_config()
    }

    /// Focus follows the pointer by default.
    pub fn focus_follows_mouse(&self) -> (r: bool)
        ensures
            r,
    {
        true
    }

    pub fn make_layout_tree_builder(&self) -> (r: LayoutTreeBuilder)
        ensures
            r.nodes() == default_layout_nodes(),
            r.root() == 6,
            template_ok(r.nodes(), r.root()),
    {
        make_layout_tree_builder()
    }

    pub fn make_keymap(&self) -> (r: Keymap<Action>)
        ensures
            r.seqs() == seq![seq![ctrl(0x78), ctrl(0x71)], seq![ctrl(0x78), ctrl(0x74)]],
            r.actions().len() == 2,
            r.actions()[0] is QuitSabiniwm,
            r.actions()[1] matches Action::Spawn(cmd) && cmd@ == seq!['a', 'l', 'a', 'c', 'r', 'i', 't', 't', 'y'],
    {
        make_keymap()
    }

    pub fn make_workspace_tags(&self) -> (r: Vec<WorkspaceTag>)
        ensures
            r@.map_values(|t: WorkspaceTag| t.0@) == default_tags(),
    {
        make_workspace_tags()
    }
}

} // verus!
