//! Tree flattening: workspace discovery, zero-width exclusion, window
//! order, focus folding, and the name-or-id search.

use bardata::tree::{Tree, NodeKind, Rect, flatten, get_node_from_name_or_id};

fn tnode(
    id: i64,
    name: Option<&str>,
    kind: NodeKind,
    focused: bool,
    width: i32,
    children: Vec<Tree>,
    floating: Vec<Tree>,
) -> Tree {
    Tree {
        id,
        name: name.map(|s| s.to_string()),
        kind,
        focused,
        rect: Rect { x: 0, y: 0, width, height: 0 },
        children,
        floating,
    }
}

fn tleaf(id: i64, name: &str, focused: bool) -> Tree {
    tnode(id, Some(name), NodeKind::Window, focused, 100, vec![], vec![])
}

#[test]
fn flatten_excludes_zero_width_keeps_source_order() {
    let ws1 = tnode(10, Some("1"), NodeKind::Workspace, false, 1920, vec![], vec![]);
    let ws_hidden = tnode(11, Some("9"), NodeKind::Workspace, false, 0, vec![], vec![]);
    let ws2 = tnode(12, Some("2"), NodeKind::Workspace, false, 1920, vec![], vec![]);
    let root = tnode(1, None, NodeKind::Container, false, 1920, vec![ws1, ws_hidden, ws2], vec![]);
    let views = flatten(&root).unwrap();
    assert_eq!(views.len(), 2);
    assert_eq!(views[0].name, "1");
    assert_eq!(views[1].name, "2");
}

#[test]
fn flatten_collects_windows_tiled_before_floating() {
    let tiled = tnode(
        20,
        None,
        NodeKind::Container,
        false,
        100,
        vec![tleaf(21, "zsh", false), tleaf(22, "nvim", false)],
        vec![],
    );
    let ws = tnode(
        10,
        Some("3"),
        NodeKind::Workspace,
        false,
        1920,
        vec![tiled],
        vec![tleaf(23, "floaty", false)],
    );
    let root = tnode(1, None, NodeKind::Container, false, 1920, vec![ws], vec![]);
    let views = flatten(&root).unwrap();
    assert_eq!(views.len(), 1);
    let names: Vec<&str> = views[0].windows.iter().map(|w| w.name.as_str()).collect();
    assert_eq!(names, vec!["zsh", "nvim", "floaty"]);
}

#[test]
fn flatten_focus_is_or_of_workspace_and_windows() {
    let ws_a = tnode(
        10,
        Some("1"),
        NodeKind::Workspace,
        false,
        1920,
        vec![tleaf(21, "zsh", true)],
        vec![],
    );
    let ws_b = tnode(
        11,
        Some("2"),
        NodeKind::Workspace,
        true,
        1920,
        vec![tleaf(22, "zsh", false)],
        vec![],
    );
    let ws_c = tnode(
        12,
        Some("3"),
        NodeKind::Workspace,
        false,
        1920,
        vec![tleaf(23, "zsh", false)],
        vec![],
    );
    let root = tnode(1, None, NodeKind::Container, false, 1920, vec![ws_a, ws_b, ws_c], vec![]);
    let views = flatten(&root).unwrap();
    assert!(views[0].focused);
    assert!(views[1].focused);
    assert!(!views[2].focused);
}

#[test]
fn flatten_rejects_unnamed_displayable_workspace() {
    let ws = tnode(10, None, NodeKind::Workspace, false, 1920, vec![], vec![]);
    let root = tnode(1, None, NodeKind::Container, false, 1920, vec![ws], vec![]);
    assert!(flatten(&root).is_none());
}

#[test]
fn flatten_tolerates_unnamed_zero_width_workspace() {
    let ws = tnode(10, None, NodeKind::Workspace, false, 0, vec![], vec![]);
    let named = tnode(11, Some("1"), NodeKind::Workspace, false, 1920, vec![], vec![]);
    let root = tnode(1, None, NodeKind::Container, false, 1920, vec![ws, named], vec![]);
    let views = flatten(&root).unwrap();
    assert_eq!(views.len(), 1);
    assert_eq!(views[0].name, "1");
}

#[test]
fn search_finds_by_name_then_by_id() {
    let a = tleaf(21, "Spotify Premium", false);
    let b = tleaf(22, "other", false);
    let root = tnode(1, None, NodeKind::Container, false, 100, vec![b, a], vec![]);
    let by_name = get_node_from_name_or_id(&root, "Spotify Premium", 0).unwrap();
    assert_eq!(by_name.id, 21);
    let by_id = get_node_from_name_or_id(&root, "Spotify Premium", 22).unwrap();
    assert_eq!(by_id.id, 22);
    assert_eq!(by_id.name, "other");
    assert!(get_node_from_name_or_id(&root, "absent", 99).is_none());
}
