use vstd::prelude::*;
use vstd::string::StrSliceExecFns;
use crate::geometry::Rect;
use crate::stackset::{floated, focus_set, shifted, StackSet, WorkspaceTag};
use crate::view::OutputView;
use crate::window::WindowId;

verus! {

/// A placement decided once, when a window is first mapped.
#[derive(Debug, Clone, PartialEq, Eq)]
pub enum Placement {
    /// Move the window to the workspace with this tag.
    ShiftTo(WorkspaceTag),
    /// Float the window in the middle of the output.
    CenterFloat,
}

/// The model of a placement.
pub enum PlacementModel {
    ShiftTo(Seq<char>),
    CenterFloat,
}

pub open spec fn placement_model(p: Placement) -> PlacementModel {
    match p {
        Placement::ShiftTo(t) => PlacementModel::ShiftTo(t.0@),
        Placement::CenterFloat => PlacementModel::CenterFloat,
    }
}

pub open spec fn is_digit(c: char) -> bool {
    '0' <= c && c <= '9'
}

/// The text that the title prefix `on_workspace_` introduces.
pub open spec fn title_prefix() -> Seq<char> {
    seq!['o', 'n', '_', 'w', 'o', 'r', 'k', 's', 'p', 'a', 'c', 'e', '_']
}

/// The digits of a title of the form `on_workspace_` followed by one or
/// more digits and nothing else.
pub open spec fn workspace_in_title(t: Seq<char>) -> Option<Seq<char>> {
    let n = title_prefix().len();
    if t.len() > n && t.subrange(0, n as int) == title_prefix() && forall|i: int|
        n <= i < t.len() ==> is_digit(#[trigger] t[i]) {
        Some(t.subrange(n as int, t.len() as int))
    } else {
        None
    }
}

/// Whether `s` holds exactly the text `lit`.
pub open spec fn is_text(s: Option<Seq<char>>, lit: Seq<char>) -> bool {
    s == Some(lit)
}

/// A terminal titled `on_workspace_N` goes to workspace `N`.
pub open spec fn terminal_rule(app_id: Option<Seq<char>>, title: Option<Seq<char>>) -> Seq<PlacementModel> {
    if is_text(app_id, seq!['A', 'l', 'a', 'c', 'r', 'i', 't', 't', 'y']) && title is Some
        && workspace_in_title(title.unwrap()) is Some {
        seq![PlacementModel::ShiftTo(workspace_in_title(title.unwrap()).unwrap())]
    } else {
        Seq::empty()
    }
}

/// The editor goes to workspace "2".
pub open spec fn editor_rule(app_id: Option<Seq<char>>) -> Seq<PlacementModel> {
    if is_text(app_id, seq!['e', 'm', 'a', 'c', 's']) {
        seq![PlacementModel::ShiftTo(seq!['2'])]
    } else {
        Seq::empty()
    }
}

/// The browser goes to workspace "4".
pub open spec fn browser_rule(app_id: Option<Seq<char>>) -> Seq<PlacementModel> {
    if is_text(
        app_id,
        seq!['o', 'r', 'g', '.', 'm', 'o', 'z', 'i', 'l', 'l', 'a', '.', 'f', 'i', 'r', 'e', 'f', 'o', 'x'],
    ) {
        seq![PlacementModel::ShiftTo(seq!['4'])]
    } else {
        Seq::empty()
    }
}

/// Modal windows float in the centre.
pub open spec fn modal_rule(is_modal: Option<bool>) -> Seq<PlacementModel> {
    if is_modal == Some(true) {
        seq![PlacementModel::CenterFloat]
    } else {
        Seq::empty()
    }
}

/// The file manager's new-folder dialog floats in the centre.
pub open spec fn dialog_rule(app_id: Option<Seq<char>>, title: Option<Seq<char>>) -> Seq<PlacementModel> {
    if is_text(
        app_id,
        seq!['o', 'r', 'g', '.', 'g', 'n', 'o', 'm', 'e', '.', 'N', 'a', 'u', 't', 'i', 'l', 'u', 's'],
    ) && is_text(title, seq!['N', 'e', 'w', ' ', 'F', 'o', 'l', 'd', 'e', 'r']) {
        seq![PlacementModel::CenterFloat]
    } else {
        Seq::empty()
    }
}

/// The placements for a window with the given application id, title and
/// modality, in the order the rules apply.
pub open spec fn placements(app_id: Option<Seq<char>>, title: Option<Seq<char>>, is_modal: Option<
    bool,
>) -> Seq<PlacementModel> {
    terminal_rule(app_id, title) + editor_rule(app_id) + browser_rule(app_id) + modal_rule(is_modal)
        + dialog_rule(app_id, title)
}

pub open spec fn opt_view(s: &Option<String>) -> Option<Seq<char>> {
    match s {
        Some(x) => Some(x@),
        None => None,
    }
}

/// Whether `s` holds exactly `lit`.
fn holds_text(s: &Option<String>, lit: &str) -> (r: bool)
    ensures
        r == is_text(opt_view(s), lit@),
{
    match s {
        Some(x) => {
            let l = lit.to_owned();
            *x == l
        },
        None => false,
    }
}

/// The digits after `on_workspace_` in `t`, if `t` has that form.
fn title_workspace(t: &String) -> (r: Option<String>)
    ensures
        match r {
            Some(d) => workspace_in_title(t@) == Some(d@),
            None => workspace_in_title(t@) is None,
        },
{
    proof {
        reveal_strlit("on_workspace_");
    }
    let s = t.as_str();
    let n = s.unicode_len();
    let prefix = "on_workspace_";
    let m = prefix.unicode_len();
    if n <= m {
        return None;
    }
    let mut i: usize = 0;
    while i < m
        invariant
            m == title_prefix().len(),
            prefix@ == title_prefix(),
            n == t@.len(),
            s@ == t@,
            m < n,
            i <= m,
            forall|j: int| 0 <= j < i ==> t@[j] == title_prefix()[j],
        decreases m - i,
    {
        if s.get_char(i) != prefix.get_char(i) {
            return None;
        }
        i = i + 1;
    }
    assert(t@.subrange(0, m as int) =~= title_prefix());
    let mut k: usize = m;
    while k < n
        invariant
            m == title_prefix().len(),
            n == t@.len(),
            s@ == t@,
            m <= k <= n,
            forall|j: int| m <= j < k ==> is_digit(#[trigger] t@[j]),
        decreases n - k,
    {
        let c = s.get_char(k);
        if !('0' <= c && c <= '9') {
            return None;
        }
        k = k + 1;
    }
    let d = s.substring_char(m, n).to_owned();
    Some(d)
}

/// The placements `placements` gives for a newly mapped window.
pub fn manage_placement(app_id: &Option<String>, title: &Option<String>, is_modal: Option<bool>) -> (r: Vec<Placement>)
    ensures
        r@.map_values(|p: Placement| placement_model(p)) == placements(
            opt_view(app_id),
            opt_view(title),
            is_modal,
        ),
{
    proof {
        reveal_strlit("Alacritty");
        reveal_strlit("emacs");
        reveal_strlit("org.mozilla.firefox");
        reveal_strlit("org.gnome.Nautilus");
        reveal_strlit("New Folder");
        reveal_strlit("2");
        reveal_strlit("4");
        assert("Alacritty"@ =~= seq!['A', 'l', 'a', 'c', 'r', 'i', 't', 't', 'y']);
        assert("emacs"@ =~= seq!['e', 'm', 'a', 'c', 's']);
        assert("org.mozilla.firefox"@ =~= seq![
            'o', 'r', 'g', '.', 'm', 'o', 'z', 'i', 'l', 'l', 'a', '.', 'f', 'i', 'r', 'e', 'f', 'o', 'x',
        ]);
        assert("org.gnome.Nautilus"@ =~= seq![
            'o', 'r', 'g', '.', 'g', 'n', 'o', 'm', 'e', '.', 'N', 'a', 'u', 't', 'i', 'l', 'u', 's',
        ]);
        assert("New Folder"@ =~= seq!['N', 'e', 'w', ' ', 'F', 'o', 'l', 'd', 'e', 'r']);
        assert("2"@ =~= seq!['2']);
        assert("4"@ =~= seq!['4']);
    }
    let ghost a = opt_view(app_id);
    let ghost t = opt_view(title);
    let ghost f = |p: Placement| placement_model(p);
    let mut r: Vec<Placement> = Vec::new();
    if holds_text(app_id, "Alacritty") {
        if let Some(tt) = title {
            if let Some(d) = title_workspace(tt) {
                r.push(Placement::ShiftTo(WorkspaceTag(d)));
            }
        }
    }
    assert(r@.map_values(f) =~~= terminal_rule(a, t));
    let ghost m1 = terminal_rule(a, t);
    if holds_text(app_id, "emacs") {
        r.push(Placement::ShiftTo(WorkspaceTag("2".to_owned())));
    }
    assert(r@.map_values(f) =~~= m1 + editor_rule(a));
    let ghost m2 = m1 + editor_rule(a);
    if holds_text(app_id, "org.mozilla.firefox") {
        r.push(Placement::ShiftTo(WorkspaceTag("4".to_owned())));
    }
    assert(r@.map_values(f) =~~= m2 + browser_rule(a));
    let ghost m3 = m2 + browser_rule(a);
    if is_modal == Some(true) {
        r.push(Placement::CenterFloat);
    }
    assert(r@.map_values(f) =~~= m3 + modal_rule(is_modal));
    let ghost m4 = m3 + modal_rule(is_modal);
    if holds_text(app_id, "org.gnome.Nautilus") && holds_text(title, "New Folder") {
        r.push(Placement::CenterFloat);
    }
    assert(r@.map_values(f) =~~= m4 + dialog_rule(a, t));
    r
}

/// The `w` by `h` rectangle with the same centre as `outer`.
pub open spec fn center_spec(outer: Rect, w: i32, h: i32) -> Rect {
    Rect {
        x: (outer.x + outer.w / 2 - w / 2) as i32,
        y: (outer.y + outer.h / 2 - h / 2) as i32,
        w,
        h,
    }
}

/// `b` is `a` after placement `p` of window `id`: a shift as
/// `shift_window_to_tag` does it, a centre float as `float_window_with_rect`
/// does it with `centered`.
pub open spec fn placed(a: &StackSet, b: &StackSet, id: WindowId, p: Placement, centered: Rect) -> bool {
    match p {
        Placement::ShiftTo(tag) => shifted(a, b, id, tag.0@),
        Placement::CenterFloat => floated(a, b, id, centered),
    }
}

/// `b` is `a` after focusing `id` and then applying `ps` in order.
pub open spec fn placements_applied(
    a: &StackSet,
    b: &StackSet,
    id: WindowId,
    ps: Seq<Placement>,
    centered: Rect,
) -> bool {
    exists|ss: Seq<StackSet>|
        {
            &&& ss.len() == ps.len() + 1
            &&& focus_set(a, &ss[0], id)
            &&& forall|i: int|
                #![trigger ss[i]]
                0 <= i < ps.len() ==> placed(&ss[i], &ss[i + 1], id, ps[i], centered)
            &&& ss.last() == *b
        }
}

/// The `w` by `h` rectangle with the same centre as `outer`.
pub fn center_rect(outer: Rect, w: i32, h: i32) -> (r: Rect)
    requires
        outer.wf(),
        0 <= w,
        0 <= h,
        i32::MIN <= outer.x + outer.w / 2 - w / 2,
        i32::MIN <= outer.y + outer.h / 2 - h / 2,
    ensures
        r == center_spec(outer, w, h),
{
    Rect { x: outer.x + outer.w / 2 - w / 2, y: outer.y + outer.h / 2 - h / 2, w, h }
}

/// Places a newly mapped window: focuses it, then applies the placements
/// of `manage_placement` in order. A shift moves it to the back of the
/// tagged workspace's stack (nothing happens for an unknown tag); a centre
/// float floats it as a `w` by `h` rectangle centred on the output. Nothing
/// changes for an unknown window. Returns the placements.
pub fn run_manage_hook(
    view: &mut OutputView,
    window_id: WindowId,
    app_id: &Option<String>,
    title: &Option<String>,
    is_modal: Option<bool>,
    w: i32,
    h: i32,
) -> (r: Vec<Placement>)
    requires
        old(view).wf(),
        0 <= w,
        0 <= h,
        i32::MIN <= old(view).rect_spec().x + old(view).rect_spec().w / 2 - w / 2,
        i32::MIN <= old(view).rect_spec().y + old(view).rect_spec().h / 2 - h / 2,
    ensures
        final(view).wf(),
        r@.map_values(|p: Placement| placement_model(p)) == placements(
            opt_view(app_id),
            opt_view(title),
            is_modal,
        ),
        old(view).stackset_spec().windows().contains(window_id) ==> placements_applied(
            &old(view).stackset_spec(),
            &final(view).stackset_spec(),
            window_id,
            r@,
            center_spec(old(view).rect_spec(), w, h),
        ),
        !old(view).stackset_spec().windows().contains(window_id) ==> final(view).stackset_spec()
            == old(view).stackset_spec(),
        final(view).stackset_spec().windows() == old(view).stackset_spec().windows(),
        final(view).rect_spec() == old(view).rect_spec(),
        final(view).next_id() == old(view).next_id(),
{
    let ghost ss0 = view.stackset_spec();
    view.set_focus(window_id);
    let ps = manage_placement(app_id, title, is_modal);
    let rect = view.rect();
    let centered = center_rect(rect, w, h);
    let ghost known = ss0.windows().contains(window_id);
    let ghost mut ss: Seq<StackSet> = seq![view.stackset_spec()];
    let mut i: usize = 0;
    while i < ps.len()
        invariant
            ss0 == old(view).stackset_spec(),
            known == ss0.windows().contains(window_id),
            centered == center_spec(old(view).rect_spec(), w, h),
            i <= ps@.len(),
            ss.len() == i + 1,
            focus_set(&ss0, &ss[0], window_id),
            ss[i as int] == view.stackset_spec(),
            known ==> forall|j: int|
                #![trigger ss[j]]
                0 <= j < i ==> placed(&ss[j], &ss[j + 1], window_id, ps@[j], centered),
            !known ==> view.stackset_spec() == ss0,
            view.wf(),
            view.stackset_spec().windows() == ss0.windows(),
            view.rect_spec() == old(view).rect_spec(),
            view.next_id() == old(view).next_id(),
        decreases ps@.len() - i,
    {
        let ghost before = view.stackset_spec();
        match &ps[i] {
            Placement::ShiftTo(tag) => {
                if view.stackset().contains_window(window_id) {
                    view.stackset_mut().shift_window_to_tag(window_id, tag);
                }
            },
            Placement::CenterFloat => {
                view.stackset_mut().float_window_with_rect(window_id, centered);
            },
        }
        proof {
            let prev = ss;
            ss = ss.push(view.stackset_spec());
            assert(ss[i as int] == before);
            if known {
                assert(before.windows().contains(window_id));
                assert(placed(&ss[i as int], &ss[i + 1], window_id, ps@[i as int], centered));
                assert forall|j: int| #![trigger ss[j]] 0 <= j < i + 1 implies placed(
                    &ss[j],
                    &ss[j + 1],
                    window_id,
                    ps@[j],
                    centered,
                ) by {
                    if j < i {
                        assert(ss[j] == prev[j]);
                        assert(ss[j + 1] == prev[j + 1]);
                    }
                }
            }
        }
        i = i + 1;
    }
    proof {
        if known {
            assert(ss.last() == view.stackset_spec());
        }
    }
    ps
}

} // verus!
