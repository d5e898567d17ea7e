//! Modules, the bar line, detail mode, and the scheduler decision.

use bardata::BarError;
use bardata::bar::{
    Bar, Module, ModuleKind, ModuleData, Snapshot, binding_update, time, workspaces, music,
};
use bardata::clock::{TimeParts, time_from_parts};
use bardata::tree::{Tree, NodeKind, Rect};

fn bnode(
    id: i64,
    name: Option<&str>,
    kind: NodeKind,
    focused: bool,
    width: i32,
    children: Vec<Tree>,
) -> Tree {
    Tree {
        id,
        name: name.map(|s| s.to_string()),
        kind,
        focused,
        rect: Rect { x: 0, y: 0, width, height: 0 },
        children,
        floating: vec![],
    }
}

fn bparts() -> TimeParts {
    TimeParts { hour: 9, minute: 5, year: 2023, month: 7, day: 4, weekday: 1 }
}

fn bsnap(tree: Tree) -> Snapshot {
    Snapshot {
        time: bparts(),
        tree,
        battery_capacity: Some("42\n".to_string()),
        battery_status: Some("Discharging\n".to_string()),
        wireless_state: Some("up\n".to_string()),
        ethernet_state: Some("down\n".to_string()),
        cpu_stat: Some("cpu  10 0 10 70 0 0 10 0 0 0".to_string()),
    }
}

fn bempty_tree() -> Tree {
    let ws = bnode(10, Some("1"), NodeKind::Workspace, false, 1920, vec![]);
    bnode(1, None, NodeKind::Container, false, 1920, vec![ws])
}

#[test]
fn clock_markup_compact_and_detailed() {
    let p = bparts();
    assert_eq!(time_from_parts(&p, false), "09%{F#857f78}:%{F#f8f6f2}05");
    assert_eq!(
        time_from_parts(&p, true),
        "09%{F#857f78}:%{F#f8f6f2}05 Tue 2023-07-04"
    );
}

#[test]
fn module_new_has_documented_defaults() {
    let m = Module::new(ModuleKind::Workspaces);
    assert_eq!(m.kind, ModuleKind::Workspaces);
    assert_eq!(m.data, ModuleData::WindowId(0));
    assert!(!m.detailed);
    let c = Module::new(ModuleKind::Cpu);
    assert_eq!(c.data, ModuleData::CpuTimes(0, 0));
    let t = Module::new(ModuleKind::Clock);
    assert_eq!(t.data, ModuleData::Unit);
}

#[test]
fn bar_line_composes_three_columns() {
    let mut bar = Bar::new(
        vec![Module::new(ModuleKind::Workspaces)],
        vec![Module::new(ModuleKind::Clock)],
        vec![Module::new(ModuleKind::Network), Module::new(ModuleKind::Battery)],
    );
    let snap = bsnap(bempty_tree());
    let line = bar.create_string(&snap).unwrap();
    let expected = format!(
        "%{{l}}{}%{{c}}{}%{{r}}{} {} ",
        "%{A:workspace 1:} 1 %{A}",
        "09%{F#857f78}:%{F#f8f6f2}05",
        "%{F#aeee00}\u{f1eb}%{F#f8f6f2}",
        "%{F#f4cf86}\u{f0e7}%{F#f8f6f2}",
    );
    assert_eq!(line, expected);
}

#[test]
fn bar_recoverable_module_failure_shows_indicator() {
    // A media window with a malformed title fails recoverably: the bar
    // substitutes the error indicator and renders the siblings.
    let player = bnode(77, Some("NoSeparatorTitle"), NodeKind::Window, false, 100, vec![]);
    let ws = bnode(10, Some("1"), NodeKind::Workspace, false, 1920, vec![player]);
    let tree = bnode(1, None, NodeKind::Container, false, 1920, vec![ws]);
    let mut media = Module::new(ModuleKind::Media);
    media.data = ModuleData::WindowId(77);
    let mut bar = Bar::new(vec![media], vec![], vec![Module::new(ModuleKind::Clock)]);
    let line = bar.create_string(&bsnap(tree)).unwrap();
    let expected = format!(
        "%{{l}}{}%{{c}}%{{r}}{} ",
        "%{F#ff2c4b}ERROR%{F#f8f6f2}",
        "09%{F#857f78}:%{F#f8f6f2}05",
    );
    assert_eq!(line, expected);
}

#[test]
fn bar_fatal_module_failure_stops_render() {
    let mut bar = Bar::new(vec![Module::new(ModuleKind::Battery)], vec![], vec![]);
    let mut snap = bsnap(bempty_tree());
    snap.battery_capacity = None;
    assert_eq!(bar.create_string(&snap), Err(BarError::MissingInput));
}

#[test]
fn bar_set_detailed_reaches_every_module() {
    let mut bar = Bar::new(
        vec![Module::new(ModuleKind::Workspaces)],
        vec![Module::new(ModuleKind::Clock)],
        vec![Module::new(ModuleKind::Battery)],
    );
    assert!(!bar.is_detailed());
    bar.set_detailed(true);
    assert!(bar.is_detailed());
    assert!(bar.left[0].detailed && bar.center[0].detailed && bar.right[0].detailed);
    bar.set_detailed(false);
    assert!(!bar.is_detailed());
    assert!(!bar.right[0].detailed);
}

#[test]
fn detailed_battery_fragment_shows_capacity() {
    let mut bar = Bar::new(vec![], vec![], vec![Module::new(ModuleKind::Battery)]);
    bar.set_detailed(true);
    let line = bar.create_string(&bsnap(bempty_tree())).unwrap();
    assert_eq!(line, "%{l}%{c}%{r}%{F#f4cf86}\u{f0e7}%{F#f8f6f2} 42 ");
}

#[test]
fn workspaces_module_forgets_vanished_player() {
    // The reset is per render over the whole tree, not per workspace: the
    // memory is cleared only when no workspace anywhere shows the player.
    // First render: the player window is present and pinned.
    let player = bnode(77, Some("Spotify Premium"), NodeKind::Window, false, 100, vec![]);
    let ws = bnode(10, Some("1"), NodeKind::Workspace, false, 1920, vec![player]);
    let tree = bnode(1, None, NodeKind::Container, false, 1920, vec![ws]);
    let mut m = Module::new(ModuleKind::Workspaces);
    workspaces(&mut m, &tree).unwrap();
    assert_eq!(m.data, ModuleData::WindowId(77));
    // Second render: no window matches the idle name or the pinned id,
    // so the memory resets to absence.
    workspaces(&mut m, &bempty_tree()).unwrap();
    assert_eq!(m.data, ModuleData::WindowId(0));
}

#[test]
fn music_module_tracks_rename_and_absence() {
    let idle = bnode(77, Some("Spotify Premium"), NodeKind::Window, false, 100, vec![]);
    let t1 = bnode(1, None, NodeKind::Container, false, 1920, vec![idle]);
    let mut m = Module::new(ModuleKind::Media);
    let s1 = music(&mut m, &t1).unwrap();
    assert_eq!(s1, "%{F#45413b}\u{f001}%{F#f8f6f2}");
    assert_eq!(m.data, ModuleData::WindowId(77));

    let renamed = bnode(77, Some("Song - Artist"), NodeKind::Window, false, 100, vec![]);
    let t2 = bnode(1, None, NodeKind::Container, false, 1920, vec![renamed]);
    let s2 = music(&mut m, &t2).unwrap();
    assert_eq!(s2, "%{F#ffa724}\u{f001}%{F#f8f6f2} Song - Artist");
    assert_eq!(m.data, ModuleData::WindowId(77));

    let t3 = bnode(1, None, NodeKind::Container, false, 1920, vec![]);
    let s3 = music(&mut m, &t3).unwrap();
    assert_eq!(s3, "%{F#45413b}\u{f001}%{F#f8f6f2}");
    assert_eq!(m.data, ModuleData::WindowId(0));
}

#[test]
fn time_module_renders_padded_clock() {
    // The wall clock is read live; check the shape, not the values.
    let mut m = Module::new(ModuleKind::Clock);
    let s = time(&mut m);
    let colon = "%{F#857f78}:%{F#f8f6f2}";
    assert!(s.contains(colon));
    let pos = s.find(colon).unwrap();
    assert_eq!(pos, 2);
    assert!(s[..2].chars().all(|c| c.is_ascii_digit()));
    let rest = &s[pos + colon.len()..];
    assert!(rest.len() >= 2 && rest[..2].chars().all(|c| c.is_ascii_digit()));
}

#[test]
fn output_data_prints_and_succeeds() {
    let mut bar = Bar::new(vec![], vec![Module::new(ModuleKind::Clock)], vec![]);
    assert!(bar.output_data(&bsnap(bempty_tree())).is_ok());
}

#[test]
fn binding_update_decides_mode_and_render() {
    assert_eq!(binding_update(false, "exec #show_bar_detail"), (true, true));
    assert_eq!(binding_update(true, "exec #show_bar_detail"), (true, false));
    assert_eq!(binding_update(true, "exec #hide_bar_detail"), (false, true));
    assert_eq!(binding_update(false, "exec #hide_bar_detail"), (false, false));
    assert_eq!(binding_update(false, "exec something"), (false, true));
    assert_eq!(binding_update(true, "exec something"), (true, true));
}
