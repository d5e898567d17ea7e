//! Window classification and the workspaces column: rule priority, the
//! media player, gap filling, and the failure cases.

use bardata::BarError;
use bardata::classify::{classify_workspace, split_song, render_workspaces};
use bardata::tree::{Tree, NodeKind, Rect, WindowView, WorkspaceView};

fn cnode(
    id: i64,
    name: Option<&str>,
    kind: NodeKind,
    focused: bool,
    width: i32,
    children: Vec<Tree>,
) -> Tree {
    Tree {
        id,
        name: name.map(|s| s.to_string()),
        kind,
        focused,
        rect: Rect { x: 0, y: 0, width, height: 0 },
        children,
        floating: vec![],
    }
}

fn cview(name: &str, windows: Vec<(i64, &str)>) -> WorkspaceView {
    WorkspaceView {
        name: name.to_string(),
        focused: false,
        windows: windows
            .into_iter()
            .map(|(id, n)| WindowView { id, name: n.to_string() })
            .collect(),
    }
}

#[test]
fn split_song_on_first_separator() {
    assert_eq!(
        split_song("Song - Artist"),
        Some(("Song".to_string(), "Artist".to_string()))
    );
    assert_eq!(
        split_song("a - b - c"),
        Some(("a".to_string(), "b".to_string()))
    );
    assert_eq!(split_song("no separator"), None);
    assert_eq!(split_song(""), None);
    assert_eq!(split_song("a-b"), None);
}

#[test]
fn classify_empty_workspace_keeps_name() {
    let (icon, pinned, found) = classify_workspace(&cview("4", vec![]), 0).unwrap();
    assert_eq!(icon, " 4 ");
    assert_eq!(pinned, 0);
    assert!(!found);
}

#[test]
fn classify_terminal_window() {
    let (icon, _, _) = classify_workspace(&cview("1", vec![(5, "zsh")]), 0).unwrap();
    assert_eq!(icon, " \u{f120} ");
}

#[test]
fn classify_suffix_rule_matches_firefox() {
    let (icon, _, _) =
        classify_workspace(&cview("1", vec![(5, "Rust - Mozilla Firefox")]), 0).unwrap();
    assert_eq!(icon, " \u{f269} ");
}

#[test]
fn classify_unknown_window_gets_fallback_icon() {
    let (icon, _, _) = classify_workspace(&cview("1", vec![(5, "weird window")]), 0).unwrap();
    assert_eq!(icon, " \u{f61f} ");
}

#[test]
fn classify_rule_index_monotone_no_demotion() {
    // The second window matches only the lowest rule; the Firefox icon
    // chosen for the first window must stay.
    let ws = cview("1", vec![(5, "docs - Mozilla Firefox"), (6, "plain")]);
    let (icon, _, _) = classify_workspace(&ws, 0).unwrap();
    assert_eq!(icon, " \u{f269} ");
    // In the other order the later, higher rule still wins.
    let ws2 = cview("1", vec![(6, "plain"), (5, "docs - Mozilla Firefox")]);
    let (icon2, _, _) = classify_workspace(&ws2, 0).unwrap();
    assert_eq!(icon2, " \u{f269} ");
}

#[test]
fn classify_idle_player_pins_id() {
    let ws = cview("2", vec![(77, "Spotify Premium")]);
    let (icon, pinned, found) = classify_workspace(&ws, 0).unwrap();
    assert_eq!(icon, " \u{f1bc} ");
    assert_eq!(pinned, 77);
    assert!(found);
}

#[test]
fn classify_player_rename_survives() {
    // The pinned id recognizes the renamed window and shows the title.
    let ws = cview("2", vec![(77, "Song - Artist")]);
    let (icon, pinned, found) = classify_workspace(&ws, 77).unwrap();
    assert_eq!(icon, " \u{f001} Song - Artist ");
    assert_eq!(pinned, 77);
    assert!(found);
}

#[test]
fn classify_player_never_demoted_by_generic_rule() {
    let ws = cview("2", vec![(77, "Spotify Premium"), (5, "zsh")]);
    let (icon, pinned, _) = classify_workspace(&ws, 0).unwrap();
    assert_eq!(icon, " \u{f1bc} ");
    assert_eq!(pinned, 77);
}

#[test]
fn classify_malformed_song_fails() {
    let ws = cview("2", vec![(77, "JustOneWord")]);
    assert_eq!(classify_workspace(&ws, 77), Err(BarError::BadSongFormat));
}

#[test]
fn workspaces_fills_numbered_gaps_clickable() {
    let ws1 = cnode(10, Some("1"), NodeKind::Workspace, false, 1920, vec![]);
    let ws4 = cnode(11, Some("4"), NodeKind::Workspace, false, 1920, vec![]);
    let root = cnode(1, None, NodeKind::Container, false, 1920, vec![ws1, ws4]);
    let (out, pinned, found) = render_workspaces(&root, 0).unwrap();
    let p2 = "%{A:workspace 2:}%{F#857f78} 2 %{F#f8f6f2}%{A}";
    let p3 = "%{A:workspace 3:}%{F#857f78} 3 %{F#f8f6f2}%{A}";
    let expected = format!("%{{A:workspace 1:}} 1 %{{A}}{}{}%{{A:workspace 4:}} 4 %{{A}}", p2, p3);
    assert_eq!(out, expected);
    assert_eq!(pinned, 0);
    assert!(!found);
}

#[test]
fn workspaces_focused_gets_background_highlight() {
    let ws1 = cnode(10, Some("1"), NodeKind::Workspace, true, 1920, vec![]);
    let root = cnode(1, None, NodeKind::Container, false, 1920, vec![ws1]);
    let (out, _, _) = render_workspaces(&root, 0).unwrap();
    assert_eq!(out, "%{B#45413b}%{A:workspace 1:} 1 %{A}%{B#121212}");
}

#[test]
fn workspaces_rejects_non_numeric_name() {
    let ws = cnode(10, Some("mail"), NodeKind::Workspace, false, 1920, vec![]);
    let root = cnode(1, None, NodeKind::Container, false, 1920, vec![ws]);
    assert_eq!(
        render_workspaces(&root, 0),
        Err(BarError::WorkspaceNameNotNumeric)
    );
}

#[test]
fn workspaces_rejects_unnamed_workspace() {
    let ws = cnode(10, None, NodeKind::Workspace, false, 1920, vec![]);
    let root = cnode(1, None, NodeKind::Container, false, 1920, vec![ws]);
    assert_eq!(render_workspaces(&root, 0), Err(BarError::UnnamedWorkspace));
}

#[test]
fn workspaces_threads_pinned_id_across_workspaces() {
    let w = cnode(77, Some("Spotify Premium"), NodeKind::Window, false, 100, vec![]);
    let ws1 = cnode(10, Some("1"), NodeKind::Workspace, false, 1920, vec![w]);
    let ws2 = cnode(11, Some("2"), NodeKind::Workspace, false, 1920, vec![]);
    let root = cnode(1, None, NodeKind::Container, false, 1920, vec![ws1, ws2]);
    let (_, pinned, found) = render_workspaces(&root, 0).unwrap();
    assert_eq!(pinned, 77);
    assert!(found);
}
