//! The window-manager tree model and its flattening into per-workspace
//! window lists. The tree is fetched fresh on every render, never mutated,
//! and discarded after flattening.

use vstd::prelude::*;

verus! {

/// Kind of a tree node.
#[derive(PartialEq, Eq, Structural, Clone, Copy, Debug)]
pub enum NodeKind {
    Workspace,
    Container,
    Window,
}

/// Node geometry. Only the width drives behaviour: a workspace of width
/// zero is not currently displayable and is excluded from flattening.
#[derive(PartialEq, Eq, Structural, Clone, Copy, Debug)]
pub struct Rect {
    pub x: i32,
    pub y: i32,
    pub width: i32,
    pub height: i32,
}

/// One node of the window-manager tree.
pub struct Tree {
    pub id: i64,
    pub name: Option<String>,
    pub kind: NodeKind,
    pub focused: bool,
    pub rect: Rect,
    pub children: Vec<Tree>,
    pub floating: Vec<Tree>,
}

/// Mathematical view of one leaf window.
pub struct WinV {
    pub id: i64,
    pub name: Seq<char>,
}

/// Mathematical view of one flattened workspace.
pub struct WsV {
    pub name: Seq<char>,
    pub focused: bool,
    pub windows: Seq<WinV>,
}

/// The name of a node, or the empty sequence when it has none.
pub open spec fn name_view(n: Option<String>) -> Seq<char> {
    match n {
        Option::Some(s) => s@,
        Option::None => Seq::empty(),
    }
}

/// A leaf is a childless node that is not itself a workspace.
pub open spec fn is_leaf(t: Tree) -> bool {
    t.children@.len() == 0 && t.floating@.len() == 0 && t.kind != NodeKind::Workspace
}

/// The leaf windows beneath a node, in encounter order: tiled children
/// first, floating children after them.
pub open spec fn leaf_windows(t: Tree) -> Seq<WinV>
    decreases t, 1int,
{
    if is_leaf(t) {
        seq![WinV { id: t.id, name: name_view(t.name) }]
    } else {
        leaf_windows_of(t.children@) + leaf_windows_of(t.floating@)
    }
}

/// The leaf windows beneath each node of a list, concatenated in order.
pub open spec fn leaf_windows_of(ts: Seq<Tree>) -> Seq<WinV>
    decreases ts, 0int,
{
    if ts.len() == 0 {
        Seq::empty()
    } else {
        leaf_windows(ts[0]) + leaf_windows_of(ts.drop_first())
    }
}

/// Whether some leaf window beneath the node is focused.
pub open spec fn any_leaf_focused(t: Tree) -> bool
    decreases t, 1int,
{
    if is_leaf(t) {
        t.focused
    } else {
        any_leaf_focused_of(t.children@) || any_leaf_focused_of(t.floating@)
    }
}

/// Whether some leaf window beneath some node of the list is focused.
pub open spec fn any_leaf_focused_of(ts: Seq<Tree>) -> bool
    decreases ts, 0int,
{
    if ts.len() == 0 {
        false
    } else {
        any_leaf_focused(ts[0]) || any_leaf_focused_of(ts.drop_first())
    }
}

/// The workspace nodes of the tree, in source order. The descent stops at a
/// workspace boundary and does not enter floating children.
pub open spec fn ws_nodes(t: Tree) -> Seq<Tree>
    decreases t, 1int,
{
    if t.kind == NodeKind::Workspace {
        seq![t]
    } else {
        ws_nodes_of(t.children@)
    }
}

/// The workspace nodes beneath each node of a list, concatenated in order.
pub open spec fn ws_nodes_of(ts: Seq<Tree>) -> Seq<Tree>
    decreases ts, 0int,
{
    if ts.len() == 0 {
        Seq::empty()
    } else {
        ws_nodes(ts[0]) + ws_nodes_of(ts.drop_first())
    }
}

/// Every displayable workspace node of the tree carries a name.
pub open spec fn ws_named(t: Tree) -> bool
    decreases t, 1int,
{
    if t.kind == NodeKind::Workspace {
        t.rect.width != 0 ==> t.name is Some
    } else {
        ws_named_of(t.children@)
    }
}

/// [`ws_named`] over each node of a list.
pub open spec fn ws_named_of(ts: Seq<Tree>) -> bool
    decreases ts, 0int,
{
    ts.len() == 0 || (ws_named(ts[0]) && ws_named_of(ts.drop_first()))
}

/// The view of one workspace node: its name, whether it or any leaf window
/// beneath it is focused, and its leaf windows in order.
pub open spec fn ws_view(t: Tree) -> WsV {
    WsV {
        name: name_view(t.name),
        focused: t.focused || any_leaf_focused(t),
        windows: leaf_windows(t),
    }
}

/// Displayable workspace nodes have nonzero width.
pub open spec fn displayable(t: Tree) -> bool {
    t.rect.width != 0
}

/// The flattening of a tree: the views of its workspace nodes, in source
/// order, with zero-width workspaces excluded.
pub open spec fn flatten_spec(t: Tree) -> Seq<WsV>
    decreases t, 1int,
{
    if t.kind == NodeKind::Workspace {
        if displayable(t) {
            seq![ws_view(t)]
        } else {
            Seq::empty()
        }
    } else {
        flatten_of(t.children@)
    }
}

/// [`flatten_spec`] over each node of a list, concatenated in order.
pub open spec fn flatten_of(ts: Seq<Tree>) -> Seq<WsV>
    decreases ts, 0int,
{
    if ts.len() == 0 {
        Seq::empty()
    } else {
        flatten_spec(ts[0]) + flatten_of(ts.drop_first())
    }
}

/// One flattened leaf window.
pub struct WindowView {
    pub id: i64,
    pub name: String,
}

impl View for WindowView {
    type V = WinV;

    open spec fn view(&self) -> WinV {
        WinV { id: self.id, name: self.name@ }
    }
}

/// One flattened workspace: name, focus and leaf windows.
pub struct WorkspaceView {
    pub name: String,
    pub focused: bool,
    pub windows: Vec<WindowView>,
}

impl View for WorkspaceView {
    type V = WsV;

    open spec fn view(&self) -> WsV {
        WsV {
            name: self.name@,
            focused: self.focused,
            windows: self.windows@.map_values(|w: WindowView| w@),
        }
    }
}

/// The views of a sequence of workspace views.
pub open spec fn wsv_views(s: Seq<WorkspaceView>) -> Seq<WsV> {
    s.map_values(|w: WorkspaceView| w@)
}

proof fn lemma_leaf_windows_of_push(ts: Seq<Tree>, x: Tree)
    ensures
        leaf_windows_of(ts.push(x)) == leaf_windows_of(ts) + leaf_windows(x),
    decreases ts.len(),
{
    assert(leaf_windows_of(Seq::<Tree>::empty()) == Seq::<WinV>::empty());
    if ts.len() == 0 {
        assert(ts.push(x)[0] == x);
        assert(ts.push(x).drop_first() =~= Seq::<Tree>::empty());
        assert(leaf_windows_of(ts.push(x)) =~= leaf_windows_of(ts) + leaf_windows(x));
    } else {
        assert(ts.push(x)[0] == ts[0]);
        assert(ts.push(x).drop_first() =~= ts.drop_first().push(x));
        lemma_leaf_windows_of_push(ts.drop_first(), x);
        assert(leaf_windows_of(ts.push(x)) =~= leaf_windows_of(ts) + leaf_windows(x));
    }
}

proof fn lemma_any_leaf_focused_of_push(ts: Seq<Tree>, x: Tree)
    ensures
        any_leaf_focused_of(ts.push(x)) == (any_leaf_focused_of(ts) || any_leaf_focused(x)),
    decreases ts.len(),
{
    assert(any_leaf_focused_of(Seq::<Tree>::empty()) == false);
    if ts.len() == 0 {
        assert(ts.push(x)[0] == x);
        assert(ts.push(x).drop_first() =~= Seq::<Tree>::empty());
    } else {
        assert(ts.push(x)[0] == ts[0]);
        assert(ts.push(x).drop_first() =~= ts.drop_first().push(x));
        lemma_any_leaf_focused_of_push(ts.drop_first(), x);
    }
}

proof fn lemma_flatten_of_push(ts: Seq<Tree>, x: Tree)
    ensures
        flatten_of(ts.push(x)) == flatten_of(ts) + flatten_spec(x),
    decreases ts.len(),
{
    assert(flatten_of(Seq::<Tree>::empty()) == Seq::<WsV>::empty());
    if ts.len() == 0 {
        assert(ts.push(x)[0] == x);
        assert(ts.push(x).drop_first() =~= Seq::<Tree>::empty());
        assert(flatten_of(ts.push(x)) =~= flatten_of(ts) + flatten_spec(x));
    } else {
        assert(ts.push(x)[0] == ts[0]);
        assert(ts.push(x).drop_first() =~= ts.drop_first().push(x));
        lemma_flatten_of_push(ts.drop_first(), x);
        assert(flatten_of(ts.push(x)) =~= flatten_of(ts) + flatten_spec(x));
    }
}

proof fn lemma_ws_named_of_break(ts: Seq<Tree>, i: int)
    requires
        0 <= i < ts.len(),
        !ws_named(ts[i]),
    ensures
        !ws_named_of(ts),
    decreases ts.len(),
{
    if i > 0 {
        lemma_ws_named_of_break(ts.drop_first(), i - 1);
    }
}

proof fn lemma_ws_named_of_all(ts: Seq<Tree>)
    requires
        forall|j: int| 0 <= j < ts.len() ==> ws_named(#[trigger] ts[j]),
    ensures
        ws_named_of(ts),
    decreases ts.len(),
{
    if ts.len() > 0 {
        assert(forall|j: int|
            0 <= j < ts.drop_first().len() ==> #[trigger] ts.drop_first()[j] == ts[j + 1]);
        lemma_ws_named_of_all(ts.drop_first());
    }
}

proof fn lemma_ws_named_of_index(ts: Seq<Tree>, i: int)
    requires
        ws_named_of(ts),
        0 <= i < ts.len(),
    ensures
        ws_named(ts[i]),
    decreases ts.len(),
{
    if i > 0 {
        lemma_ws_named_of_index(ts.drop_first(), i - 1);
    }
}

/// The displayable workspace nodes of a list: exactly those of nonzero
/// width, kept once each, in source order.
pub open spec fn displayable_of(ts: Seq<Tree>) -> Seq<Tree>
    decreases ts.len(),
{
    if ts.len() == 0 {
        Seq::empty()
    } else if displayable(ts[0]) {
        seq![ts[0]] + displayable_of(ts.drop_first())
    } else {
        displayable_of(ts.drop_first())
    }
}

/// The views of a list of workspace nodes, in order.
pub open spec fn ws_views_of(ts: Seq<Tree>) -> Seq<WsV>
    decreases ts.len(),
{
    if ts.len() == 0 {
        Seq::empty()
    } else {
        seq![ws_view(ts[0])] + ws_views_of(ts.drop_first())
    }
}

/// Flattening excludes exactly the zero-width workspaces and keeps all
/// others exactly once, in source order: it is the displayable subsequence
/// of the tree's workspace nodes, viewed in place.
pub proof fn lemma_flatten_is_filter(t: Tree)
    ensures
        flatten_spec(t) == ws_views_of(displayable_of(ws_nodes(t))),
    decreases t, 1int,
{
    if t.kind == NodeKind::Workspace {
        assert(seq![t][0] == t);
        assert(seq![t].drop_first() =~= Seq::<Tree>::empty());
        assert(displayable_of(Seq::<Tree>::empty()) == Seq::<Tree>::empty());
        assert(ws_views_of(Seq::<Tree>::empty()) == Seq::<WsV>::empty());
        if displayable(t) {
            assert(displayable_of(seq![t]) =~= seq![t]);
            assert(ws_views_of(seq![t]) =~= seq![ws_view(t)]);
        } else {
            assert(displayable_of(seq![t]) =~= Seq::<Tree>::empty());
        }
    } else {
        lemma_flatten_of_is_filter(t.children@);
    }
}

proof fn lemma_flatten_of_is_filter(ts: Seq<Tree>)
    ensures
        flatten_of(ts) == ws_views_of(displayable_of(ws_nodes_of(ts))),
    decreases ts, 0int,
{
    if ts.len() == 0 {
        assert(displayable_of(Seq::<Tree>::empty()) == Seq::<Tree>::empty());
        assert(ws_views_of(Seq::<Tree>::empty()) == Seq::<WsV>::empty());
    } else {
        lemma_flatten_is_filter(ts[0]);
        lemma_flatten_of_is_filter(ts.drop_first());
        lemma_displayable_of_concat(ws_nodes(ts[0]), ws_nodes_of(ts.drop_first()));
        lemma_ws_views_of_concat(
            displayable_of(ws_nodes(ts[0])),
            displayable_of(ws_nodes_of(ts.drop_first())),
        );
    }
}

proof fn lemma_displayable_of_concat(a: Seq<Tree>, b: Seq<Tree>)
    ensures
        displayable_of(a + b) == displayable_of(a) + displayable_of(b),
    decreases a.len(),
{
    if a.len() == 0 {
        assert(a + b =~= b);
        assert(displayable_of(a) == Seq::<Tree>::empty());
        assert(displayable_of(a) + displayable_of(b) =~= displayable_of(b));
    } else {
        assert((a + b)[0] == a[0]);
        assert((a + b).drop_first() =~= a.drop_first() + b);
        lemma_displayable_of_concat(a.drop_first(), b);
        if displayable(a[0]) {
            assert(displayable_of(a + b) =~= displayable_of(a) + displayable_of(b));
        }
    }
}

proof fn lemma_ws_views_of_concat(a: Seq<Tree>, b: Seq<Tree>)
    ensures
        ws_views_of(a + b) == ws_views_of(a) + ws_views_of(b),
    decreases a.len(),
{
    if a.len() == 0 {
        assert(a + b =~= b);
        assert(ws_views_of(a) == Seq::<WsV>::empty());
        assert(ws_views_of(a) + ws_views_of(b) =~= ws_views_of(b));
    } else {
        assert((a + b)[0] == a[0]);
        assert((a + b).drop_first() =~= a.drop_first() + b);
        lemma_ws_views_of_concat(a.drop_first(), b);
        assert(ws_views_of(a + b) =~= ws_views_of(a) + ws_views_of(b));
    }
}

/// Collect the leaf windows beneath `node` into `data` in encounter order,
/// and fold their focus flags into `focused`.
fn get_nodes(data: &mut Vec<WindowView>, focused: &mut bool, node: &Tree)
    ensures
        final(data)@.map_values(|w: WindowView| w@) == old(data)@.map_values(
            |w: WindowView| w@,
        ) + leaf_windows(*node),
        *final(focused) == (*old(focused) || any_leaf_focused(*node)),
    decreases *node,
{
    if node.children.len() == 0 && node.floating.len() == 0 && !(node.kind
        == NodeKind::Workspace) {
        let name = match &node.name {
            Some(n) => n.clone(),
            None => String::new(),
        };
        let w = WindowView { id: node.id, name };
        data.push(w);
        *focused = *focused || node.focused;
        proof {
            assert(final(data)@.map_values(|w: WindowView| w@) =~= old(data)@.map_values(
                |w: WindowView| w@,
            ) + leaf_windows(*node));
        }
    } else {
        let mut i: usize = 0;
        while i < node.children.len()
            invariant
                0 <= i <= node.children@.len(),
                data@.map_values(|w: WindowView| w@) == old(data)@.map_values(
                    |w: WindowView| w@,
                ) + leaf_windows_of(node.children@.take(i as int)),
                *focused == (*old(focused) || any_leaf_focused_of(
                    node.children@.take(i as int),
                )),
            decreases node.children@.len() - i,
        {
            proof {
                assert(decreases_to!(*node => node.children@[i as int]));
            }
            get_nodes(data, focused, &node.children[i]);
            proof {
                assert(node.children@.take(i as int).push(node.children@[i as int])
                    =~= node.children@.take(i as int + 1));
                lemma_leaf_windows_of_push(node.children@.take(i as int), node.children@[i as int]);
                lemma_any_leaf_focused_of_push(
                    node.children@.take(i as int),
                    node.children@[i as int],
                );
            }
            i = i + 1;
        }
        proof {
            assert(node.children@.take(node.children@.len() as int) =~= node.children@);
        }
        let mut j: usize = 0;
        while j < node.floating.len()
            invariant
                0 <= j <= node.floating@.len(),
                data@.map_values(|w: WindowView| w@) == old(data)@.map_values(
                    |w: WindowView| w@,
                ) + leaf_windows_of(node.children@) + leaf_windows_of(
                    node.floating@.take(j as int),
                ),
                *focused == (*old(focused) || any_leaf_focused_of(node.children@)
                    || any_leaf_focused_of(node.floating@.take(j as int))),
            decreases node.floating@.len() - j,
        {
            proof {
                assert(decreases_to!(*node => node.floating@[j as int]));
            }
            get_nodes(data, focused, &node.floating[j]);
            proof {
                assert(node.floating@.take(j as int).push(node.floating@[j as int])
                    =~= node.floating@.take(j as int + 1));
                lemma_leaf_windows_of_push(node.floating@.take(j as int), node.floating@[j as int]);
                lemma_any_leaf_focused_of_push(
                    node.floating@.take(j as int),
                    node.floating@[j as int],
                );
            }
            j = j + 1;
        }
        proof {
            assert(node.floating@.take(node.floating@.len() as int) =~= node.floating@);
            assert(final(data)@.map_values(|w: WindowView| w@) =~= old(data)@.map_values(
                |w: WindowView| w@,
            ) + leaf_windows(*node));
        }
    }
}

fn check_ws_named(node: &Tree) -> (r: bool)
    ensures
        r == ws_named(*node),
    decreases *node,
{
    if node.kind == NodeKind::Workspace {
        if node.rect.width != 0 {
            node.name.is_some()
        } else {
            true
        }
    } else {
        let mut i: usize = 0;
        while i < node.children.len()
            invariant
                0 <= i <= node.children@.len(),
                !(node.kind == NodeKind::Workspace),
                forall|j: int| 0 <= j < i ==> ws_named(#[trigger] node.children@[j]),
            decreases node.children@.len() - i,
        {
            proof {
                assert(decreases_to!(*node => node.children@[i as int]));
            }
            if !check_ws_named(&node.children[i]) {
                proof {
                    lemma_ws_named_of_break(node.children@, i as int);
                }
                return false;
            }
            i = i + 1;
        }
        proof {
            lemma_ws_named_of_all(node.children@);
        }
        true
    }
}

fn flatten_rec(out: &mut Vec<WorkspaceView>, node: &Tree)
    requires
        ws_named(*node),
    ensures
        wsv_views(final(out)@) == wsv_views(old(out)@) + flatten_spec(*node),
    decreases *node,
{
    if node.kind == NodeKind::Workspace {
        if node.rect.width != 0 {
            let name = match &node.name {
                Some(n) => n.clone(),
                None => unreached(),
            };
            let mut wins: Vec<WindowView> = Vec::new();
            let mut f = false;
            get_nodes(&mut wins, &mut f, node);
            let focused = node.focused || f;
            let v = WorkspaceView { name, focused, windows: wins };
            proof {
                assert(Seq::<WinV>::empty() =~= Seq::<WindowView>::empty().map_values(
                    |w: WindowView| w@,
                ));
                assert(Seq::<WinV>::empty() + leaf_windows(*node) =~= leaf_windows(*node));
                assert(v@ == ws_view(*node));
            }
            out.push(v);
            proof {
                assert(wsv_views(final(out)@) =~= wsv_views(old(out)@) + flatten_spec(*node));
            }
        } else {
            proof {
                assert(wsv_views(out@) =~= wsv_views(old(out)@) + flatten_spec(*node));
            }
        }
    } else {
        let mut i: usize = 0;
        while i < node.children.len()
            invariant
                0 <= i <= node.children@.len(),
                ws_named_of(node.children@),
                wsv_views(out@) == wsv_views(old(out)@) + flatten_of(
                    node.children@.take(i as int),
                ),
            decreases node.children@.len() - i,
        {
            proof {
                assert(decreases_to!(*node => node.children@[i as int]));
                lemma_ws_named_of_index(node.children@, i as int);
            }
            flatten_rec(out, &node.children[i]);
            proof {
                assert(node.children@.take(i as int).push(node.children@[i as int])
                    =~= node.children@.take(i as int + 1));
                lemma_flatten_of_push(node.children@.take(i as int), node.children@[i as int]);
            }
            i = i + 1;
        }
        proof {
            assert(node.children@.take(node.children@.len() as int) =~= node.children@);
        }
    }
}

/// Flatten a tree into its displayable workspaces, in source order. Returns
/// `None` exactly when some displayable workspace carries no name.
pub fn flatten(tree: &Tree) -> (r: Option<Vec<WorkspaceView>>)
    ensures
        match r {
            Some(v) => ws_named(*tree) && wsv_views(v@) == flatten_spec(*tree),
            None => !ws_named(*tree),
        },
{
    if !check_ws_named(tree) {
        return None;
    }
    let mut out: Vec<WorkspaceView> = Vec::new();
    flatten_rec(&mut out, tree);
    proof {
        assert(wsv_views(Seq::<WorkspaceView>::empty()) =~= Seq::<WsV>::empty());
        assert(Seq::<WsV>::empty() + flatten_spec(*tree) =~= flatten_spec(*tree));
    }
    Some(out)
}

/// The first node, in a pre-order descent through tiled children, whose id
/// is `id` or whose name is `name`; a nameless node counts as named by the
/// empty string.
pub open spec fn find_node_spec(t: Tree, name: Seq<char>, id: i64) -> Option<WinV>
    decreases t, 1int,
{
    if t.id == id || name_view(t.name) == name {
        Some(WinV { id: t.id, name: name_view(t.name) })
    } else {
        find_node_in(t.children@, name, id)
    }
}

/// [`find_node_spec`] over a list of nodes, first hit wins.
pub open spec fn find_node_in(ts: Seq<Tree>, name: Seq<char>, id: i64) -> Option<WinV>
    decreases ts, 0int,
{
    if ts.len() == 0 {
        None
    } else {
        match find_node_spec(ts[0], name, id) {
            Some(w) => Some(w),
            None => find_node_in(ts.drop_first(), name, id),
        }
    }
}

proof fn lemma_find_node_in_concat(a: Seq<Tree>, b: Seq<Tree>, name: Seq<char>, id: i64)
    ensures
        find_node_in(a + b, name, id) == match find_node_in(a, name, id) {
            Some(w) => Some(w),
            None => find_node_in(b, name, id),
        },
    decreases a.len(),
{
    if a.len() == 0 {
        assert(a + b =~= b);
    } else {
        assert((a + b)[0] == a[0]);
        assert((a + b).drop_first() =~= a.drop_first() + b);
        lemma_find_node_in_concat(a.drop_first(), b, name, id);
    }
}

/// Search the tree for a node with the given name or id.
pub fn get_node_from_name_or_id(node: &Tree, name: &str, id: i64) -> (r: Option<WindowView>)
    ensures
        match r {
            Some(w) => find_node_spec(*node, name@, id) == Some(w@),
            None => find_node_spec(*node, name@, id) is None,
        },
    decreases *node,
{
    let node_name = match &node.name {
        Some(n) => n.clone(),
        None => String::new(),
    };
    if node.id == id || crate::strutil::str_eq(node_name.as_str(), name) {
        return Some(WindowView { id: node.id, name: node_name });
    }
    let mut i: usize = 0;
    while i < node.children.len()
        invariant
            0 <= i <= node.children@.len(),
            !(node.id == id || name_view(node.name) == name@),
            find_node_in(node.children@.take(i as int), name@, id) is None,
        decreases node.children@.len() - i,
    {
        proof {
            assert(decreases_to!(*node => node.children@[i as int]));
        }
        let r = get_node_from_name_or_id(&node.children[i], name, id);
        proof {
            assert(node.children@.take(i as int).push(node.children@[i as int])
                =~= node.children@.take(i as int + 1));
            assert(node.children@.take(i as int + 1) =~= node.children@.take(i as int) + seq![
                node.children@[i as int],
            ]);
            lemma_find_node_in_concat(
                node.children@.take(i as int),
                seq![node.children@[i as int]],
                name@,
                id,
            );
            assert(seq![node.children@[i as int]][0] == node.children@[i as int]);
            assert(seq![node.children@[i as int]].drop_first() =~= Seq::<Tree>::empty());
            assert(find_node_in(Seq::<Tree>::empty(), name@, id) is None);
            assert(node.children@ =~= node.children@.take(i as int + 1) + node.children@.skip(
                i as int + 1,
            ));
            lemma_find_node_in_concat(
                node.children@.take(i as int + 1),
                node.children@.skip(i as int + 1),
                name@,
                id,
            );
        }
        if let Some(w) = r {
            return Some(w);
        }
        i = i + 1;
    }
    proof {
        assert(node.children@.take(node.children@.len() as int) =~= node.children@);
    }
    None
}

} // verus!
