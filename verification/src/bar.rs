//! Modules and the bar: each module renders one column fragment from its
//! private memory and a snapshot of the outside world; the bar composes
//! the three columns into one line.

use vstd::prelude::*;
use std::io::Write;
use crate::BarError;
use crate::clock::{TimeParts, time_markup, time_from_parts, now_parts};
use crate::markup::{paint_spec, paint, red_color, red_color_str, views_of, bar_line_spec,
    get_formatted_string};
use crate::sysmod::{battery_markup, render_battery, network_markup, render_network, opt_view,
    cpu_markup, render_cpu};
use crate::classify::{render_workspaces_spec, render_workspaces, player_name, player_name_str,
    play_icon, play_icon_str, song_split, split_song};
use crate::tree::{Tree, find_node_spec, get_node_from_name_or_id};
use crate::markup::{grey_color, grey_color_str, orange_color, orange_color_str};

verus! {

/// Which module a [`Module`] is.
#[derive(PartialEq, Eq, Structural, Clone, Copy, Debug)]
pub enum ModuleKind {
    Clock,
    Battery,
    Network,
    Cpu,
    Workspaces,
    Media,
}

/// The private memory of one module: nothing, a remembered window id, or
/// the last processor sample.
#[derive(PartialEq, Eq, Structural, Clone, Copy, Debug)]
pub enum ModuleData {
    Unit,
    WindowId(i64),
    CpuTimes(u64, u64),
}

/// The memory shape each module kind starts with: absence or zero.
pub open spec fn default_data(kind: ModuleKind) -> ModuleData {
    match kind {
        ModuleKind::Clock => ModuleData::Unit,
        ModuleKind::Battery => ModuleData::Unit,
        ModuleKind::Network => ModuleData::Unit,
        ModuleKind::Cpu => ModuleData::CpuTimes(0, 0),
        ModuleKind::Workspaces => ModuleData::WindowId(0),
        ModuleKind::Media => ModuleData::WindowId(0),
    }
}

/// One named unit of the bar: a render kind, its private memory, and the
/// detail flag. The memory is mutated only by this module's own render.
#[derive(PartialEq, Eq, Structural, Clone, Copy, Debug)]
pub struct Module {
    pub kind: ModuleKind,
    pub data: ModuleData,
    pub detailed: bool,
}

impl Module {
    /// The memory has the shape the kind demands.
    pub open spec fn wf(self) -> bool {
        match self.kind {
            ModuleKind::Clock => self.data is Unit,
            ModuleKind::Battery => self.data is Unit,
            ModuleKind::Network => self.data is Unit,
            ModuleKind::Cpu => self.data is CpuTimes,
            ModuleKind::Workspaces => self.data is WindowId,
            ModuleKind::Media => self.data is WindowId,
        }
    }

    /// Exec twin of [`Module::wf`].
    pub fn check_wf(&self) -> (r: bool)
        ensures
            r == self.wf(),
    {
        match self.kind {
            ModuleKind::Clock => matches!(self.data, ModuleData::Unit),
            ModuleKind::Battery => matches!(self.data, ModuleData::Unit),
            ModuleKind::Network => matches!(self.data, ModuleData::Unit),
            ModuleKind::Cpu => matches!(self.data, ModuleData::CpuTimes(_, _)),
            ModuleKind::Workspaces => matches!(self.data, ModuleData::WindowId(_)),
            ModuleKind::Media => matches!(self.data, ModuleData::WindowId(_)),
        }
    }

    /// A fresh module of the given kind, with its documented default
    /// memory and compact rendering.
    pub fn new(kind: ModuleKind) -> (r: Module)
        ensures
            r.kind == kind,
            r.data == default_data(kind),
            !r.detailed,
            r.wf(),
    {
        let data = match kind {
            ModuleKind::Cpu => ModuleData::CpuTimes(0, 0),
            ModuleKind::Workspaces => ModuleData::WindowId(0),
            ModuleKind::Media => ModuleData::WindowId(0),
            _ => ModuleData::Unit,
        };
        Module { kind, data, detailed: false }
    }
}

/// Create a lemonbar-formatted string for the current local time. The
/// clock is read inside; the result is the markup of some well-formed
/// reading.
pub fn time(module: &mut Module) -> (r: String)
    ensures
        *final(module) == *old(module),
        exists|p: TimeParts|
            p.wf() && r@ == #[trigger] time_markup(p, old(module).detailed),
{
    let p = now_parts();
    let r = time_from_parts(&p, module.detailed);
    proof {
        assert(p.wf() && r@ == time_markup(p, old(module).detailed));
    }
    r
}

/// Create a lemonbar-formatted string for the battery, from the contents
/// of the capacity and status files.
pub fn battery(module: &mut Module, capacity_text: &str, status_text: &str) -> (r: Result<
    String,
    BarError,
>)
    ensures
        *final(module) == *old(module),
        match r {
            Ok(s) => battery_markup(capacity_text@, status_text@, old(module).detailed) == Ok::<
                Seq<char>,
                BarError,
            >(s@),
            Err(e) => battery_markup(capacity_text@, status_text@, old(module).detailed)
                == Err::<Seq<char>, BarError>(e),
        },
{
    render_battery(capacity_text, status_text, module.detailed)
}

/// Create a lemonbar-formatted string for the network link, from the
/// operstate file contents (`None` for an unreadable file).
pub fn network(module: &mut Module, wl: &Option<String>, eth: &Option<String>) -> (r: Result<
    String,
    BarError,
>)
    ensures
        *final(module) == *old(module),
        match r {
            Ok(s) => network_markup(opt_view(*wl), opt_view(*eth)) == Ok::<Seq<char>, BarError>(
                s@,
            ),
            Err(e) => network_markup(opt_view(*wl), opt_view(*eth)) == Err::<Seq<char>, BarError>(
                e,
            ),
        },
{
    render_network(wl, eth)
}

/// What [`cpu`] computes: the markup and the module with the new sample
/// stored, or the failure.
pub open spec fn cpu_result(m: Module, stat: Seq<char>) -> Result<(Seq<char>, Module), BarError> {
    match cpu_markup(stat, m.data->CpuTimes_0, m.data->CpuTimes_1, m.detailed) {
        Err(e) => Err(e),
        Ok(t) => Ok((t.0, Module { data: ModuleData::CpuTimes(t.1, t.2), ..m })),
    }
}

/// Create a lemonbar-formatted string for processor load, from the system
/// statistics line, storing the sample for the next render.
pub fn cpu(module: &mut Module, stat_text: &str) -> (r: Result<String, BarError>)
    requires
        old(module).data is CpuTimes,
    ensures
        match r {
            Ok(s) => cpu_result(*old(module), stat_text@) == Ok::<(Seq<char>, Module), BarError>(
                (s@, *final(module)),
            ),
            Err(e) => cpu_result(*old(module), stat_text@) == Err::<(Seq<char>, Module), BarError>(
                e,
            ) && *final(module) == *old(module),
        },
{
    let (li, lt) = match module.data {
        ModuleData::CpuTimes(a, b) => (a, b),
        _ => unreached(),
    };
    match render_cpu(stat_text, li, lt, module.detailed) {
        Err(e) => Err(e),
        Ok(t) => {
            module.data = ModuleData::CpuTimes(t.1, t.2);
            Ok(t.0)
        },
    }
}

/// What [`music`] computes: the markup and the module with the player id
/// remembered (or forgotten), or the failure.
pub open spec fn music_result(t: Tree, m: Module) -> Result<(Seq<char>, Module), BarError> {
    match find_node_spec(t, player_name(), m.data->WindowId_0) {
        None => Ok(
            (
                paint_spec(play_icon(), grey_color(), "F"@),
                Module { data: ModuleData::WindowId(0), ..m },
            ),
        ),
        Some(w) => {
            if w.name == player_name() {
                Ok(
                    (
                        paint_spec(play_icon(), grey_color(), "F"@),
                        Module { data: ModuleData::WindowId(w.id), ..m },
                    ),
                )
            } else {
                match song_split(w.name) {
                    None => Err(BarError::BadSongFormat),
                    Some(p) => Ok(
                        (
                            paint_spec(play_icon(), orange_color(), "F"@) + " "@ + p.0 + " - "@
                                + p.1,
                            Module { data: ModuleData::WindowId(w.id), ..m },
                        ),
                    ),
                }
            }
        },
    }
}

/// Create a lemonbar-formatted string for playing music: the idle icon
/// when the player window is absent or idle, otherwise the play icon and
/// the title. The found window's id is remembered so a later rename is
/// still recognized.
pub fn music(module: &mut Module, tree: &Tree) -> (r: Result<String, BarError>)
    requires
        old(module).data is WindowId,
    ensures
        match r {
            Ok(s) => music_result(*tree, *old(module)) == Ok::<(Seq<char>, Module), BarError>(
                (s@, *final(module)),
            ),
            Err(e) => music_result(*tree, *old(module)) == Err::<(Seq<char>, Module), BarError>(e)
                && *final(module) == *old(module),
        },
{
    let pinned = match module.data {
        ModuleData::WindowId(id) => id,
        _ => unreached(),
    };
    match get_node_from_name_or_id(tree, player_name_str(), pinned) {
        None => {
            module.data = ModuleData::WindowId(0);
            Ok(paint(play_icon_str(), grey_color_str(), "F"))
        },
        Some(w) => {
            if crate::strutil::str_eq(w.name.as_str(), player_name_str()) {
                module.data = ModuleData::WindowId(w.id);
                Ok(paint(play_icon_str(), grey_color_str(), "F"))
            } else {
                match split_song(w.name.as_str()) {
                    None => Err(BarError::BadSongFormat),
                    Some(p) => {
                        module.data = ModuleData::WindowId(w.id);
                        let mut s = paint(play_icon_str(), orange_color_str(), "F");
                        s.append(" ");
                        s.append(p.0.as_str());
                        s.append(" - ");
                        s.append(p.1.as_str());
                        proof {
                            let q = song_split(w@.name)->Some_0;
                            assert(s@ =~= paint_spec(play_icon(), orange_color(), "F"@) + " "@
                                + q.0 + " - "@ + q.1);
                        }
                        Ok(s)
                    },
                }
            }
        },
    }
}

/// What [`workspaces`] computes: the markup and the module with the
/// pinned player id updated, reset to zero when no window in the whole
/// tree matched the player, or the failure.
pub open spec fn workspaces_result(t: Tree, m: Module) -> Result<(Seq<char>, Module), BarError> {
    match render_workspaces_spec(t, m.data->WindowId_0) {
        Err(e) => Err(e),
        Ok(p) => Ok(
            (
                p.0,
                Module {
                    data: ModuleData::WindowId(
                        if p.2 {
                            p.1
                        } else {
                            0
                        },
                    ),
                    ..m
                },
            ),
        ),
    }
}

/// Create a lemonbar-formatted string for the workspaces column. The
/// remembered player window id is updated in place: it becomes the id of
/// the last window recognized as the player, and resets to zero when no
/// window in the whole tree matched.
pub fn workspaces(module: &mut Module, tree: &Tree) -> (r: Result<String, BarError>)
    requires
        old(module).data is WindowId,
    ensures
        match r {
            Ok(s) => workspaces_result(*tree, *old(module)) == Ok::<
                (Seq<char>, Module),
                BarError,
            >((s@, *final(module))),
            Err(e) => workspaces_result(*tree, *old(module)) == Err::<
                (Seq<char>, Module),
                BarError,
            >(e) && *final(module) == *old(module),
        },
{
    let pinned = match module.data {
        ModuleData::WindowId(id) => id,
        _ => unreached(),
    };
    match render_workspaces(tree, pinned) {
        Err(e) => Err(e),
        Ok(t) => {
            module.data = ModuleData::WindowId(
                if t.2 {
                    t.1
                } else {
                    0
                },
            );
            Ok(t.0)
        },
    }
}

/// One snapshot of the outside world, gathered once per render: the
/// clock reading, the freshly fetched window tree, and the raw contents
/// of the system files (`None` where a file could not be read).
pub struct Snapshot {
    pub time: TimeParts,
    pub tree: Tree,
    pub battery_capacity: Option<String>,
    pub battery_status: Option<String>,
    pub wireless_state: Option<String>,
    pub ethernet_state: Option<String>,
    pub cpu_stat: Option<String>,
}

/// What one module's render yields on a snapshot: its fragment and its
/// new state, or the failure.
pub open spec fn module_render_spec(m: Module, s: Snapshot) -> Result<
    (Seq<char>, Module),
    BarError,
> {
    match m.kind {
        ModuleKind::Clock => Ok((time_markup(s.time, m.detailed), m)),
        ModuleKind::Battery => match (s.battery_capacity, s.battery_status) {
            (Option::Some(c), Option::Some(st)) => match battery_markup(c@, st@, m.detailed) {
                Err(e) => Err(e),
                Ok(x) => Ok((x, m)),
            },
            _ => Err(BarError::MissingInput),
        },
        ModuleKind::Network => match network_markup(
            opt_view(s.wireless_state),
            opt_view(s.ethernet_state),
        ) {
            Err(e) => Err(e),
            Ok(x) => Ok((x, m)),
        },
        ModuleKind::Cpu => match s.cpu_stat {
            Option::None => Err(BarError::MissingInput),
            Option::Some(t) => cpu_result(m, t@),
        },
        ModuleKind::Workspaces => workspaces_result(s.tree, m),
        ModuleKind::Media => music_result(s.tree, m),
    }
}

impl Module {
    /// Render this module's fragment from the snapshot, updating the
    /// module's own memory.
    pub fn create_string(&mut self, snap: &Snapshot) -> (r: Result<String, BarError>)
        requires
            old(self).wf(),
            snap.time.wf(),
        ensures
            final(self).wf(),
            final(self).kind == old(self).kind,
            final(self).detailed == old(self).detailed,
            match r {
                Ok(s) => module_render_spec(*old(self), *snap) == Ok::<
                    (Seq<char>, Module),
                    BarError,
                >((s@, *final(self))),
                Err(e) => module_render_spec(*old(self), *snap) == Err::<
                    (Seq<char>, Module),
                    BarError,
                >(e) && *final(self) == *old(self),
            },
    {
        match self.kind {
            ModuleKind::Clock => Ok(time_from_parts(&snap.time, self.detailed)),
            ModuleKind::Battery => {
                match (&snap.battery_capacity, &snap.battery_status) {
                    (Some(c), Some(st)) => render_battery(c.as_str(), st.as_str(), self.detailed),
                    _ => Err(BarError::MissingInput),
                }
            },
            ModuleKind::Network => render_network(&snap.wireless_state, &snap.ethernet_state),
            ModuleKind::Cpu => {
                match &snap.cpu_stat {
                    None => Err(BarError::MissingInput),
                    Some(t) => cpu(self, t.as_str()),
                }
            },
            ModuleKind::Workspaces => workspaces(self, &snap.tree),
            ModuleKind::Media => music(self, &snap.tree),
        }
    }

    /// Switch between compact and detailed rendering.
    pub fn set_detailed(&mut self, detailed: bool)
        ensures
            *final(self) == (Module { detailed, ..*old(self) }),
    {
        self.detailed = detailed;
    }

    /// Whether this module renders detailed information.
    pub fn is_detailed(&self) -> (r: bool)
        ensures
            r == self.detailed,
    {
        self.detailed
    }
}

/// One column of modules rendered left to right: each yields its
/// fragment, a recoverable failure is replaced by the painted error
/// indicator with the module left unchanged, and the first fatal failure
/// stops the render.
pub open spec fn column_fold(ms: Seq<Module>, snap: Snapshot) -> Result<
    (Seq<Seq<char>>, Seq<Module>),
    BarError,
>
    decreases ms.len(),
{
    if ms.len() == 0 {
        Ok((Seq::empty(), Seq::empty()))
    } else {
        let head = match module_render_spec(ms[0], snap) {
            Err(e) => if e.spec_recoverable() {
                Ok((paint_spec("ERROR"@, red_color(), "F"@), ms[0]))
            } else {
                Err(e)
            },
            Ok(p) => Ok(p),
        };
        match head {
            Err(e) => Err(e),
            Ok(p) => match column_fold(ms.drop_first(), snap) {
                Err(e) => Err(e),
                Ok(rest) => Ok((seq![p.0] + rest.0, seq![p.1] + rest.1)),
            },
        }
    }
}

proof fn lemma_column_fold_concat(a: Seq<Module>, b: Seq<Module>, snap: Snapshot)
    ensures
        column_fold(a + b, snap) == match column_fold(a, snap) {
            Err(e) => Err::<(Seq<Seq<char>>, Seq<Module>), BarError>(e),
            Ok(x) => match column_fold(b, snap) {
                Err(e) => Err(e),
                Ok(y) => Ok((x.0 + y.0, x.1 + y.1)),
            },
        },
    decreases a.len(),
{
    if a.len() == 0 {
        assert(a + b =~= b);
        match column_fold(b, snap) {
            Err(e) => {},
            Ok(y) => {
                assert(Seq::<Seq<char>>::empty() + y.0 =~= y.0);
                assert(Seq::<Module>::empty() + y.1 =~= y.1);
            },
        }
    } else {
        assert((a + b)[0] == a[0]);
        assert((a + b).drop_first() =~= a.drop_first() + b);
        lemma_column_fold_concat(a.drop_first(), b, snap);
        match column_fold(a + b, snap) {
            Err(e) => {},
            Ok(x) => {
                match (column_fold(a, snap), column_fold(b, snap)) {
                    (Ok(xa), Ok(yb)) => {
                        assert(seq![
                            module_head_frag(a[0], snap),
                        ] + (xa.0.drop_first() + yb.0) =~= (seq![
                            module_head_frag(a[0], snap),
                        ] + xa.0.drop_first()) + yb.0);
                        assert(x.0 =~= xa.0 + yb.0);
                        assert(x.1 =~= xa.1 + yb.1);
                    },
                    _ => {},
                }
            },
        }
    }
}

/// The fragment the head module contributes when it does not stop the
/// render.
pub open spec fn module_head_frag(m: Module, snap: Snapshot) -> Seq<char> {
    match module_render_spec(m, snap) {
        Err(e) => paint_spec("ERROR"@, red_color(), "F"@),
        Ok(p) => p.0,
    }
}

fn render_column(mods: &mut Vec<Module>, snap: &Snapshot) -> (r: Result<Vec<String>, BarError>)
    requires
        snap.time.wf(),
        forall|i: int| 0 <= i < old(mods)@.len() ==> (#[trigger] old(mods)@[i]).wf(),
    ensures
        final(mods)@.len() == old(mods)@.len(),
        forall|i: int| 0 <= i < final(mods)@.len() ==> (#[trigger] final(mods)@[i]).wf(),
        match r {
            Ok(frags) => column_fold(old(mods)@, *snap) == Ok::<
                (Seq<Seq<char>>, Seq<Module>),
                BarError,
            >((views_of(frags@), final(mods)@)),
            Err(e) => column_fold(old(mods)@, *snap) == Err::<
                (Seq<Seq<char>>, Seq<Module>),
                BarError,
            >(e),
        },
{
    let mut frags: Vec<String> = Vec::new();
    let n = mods.len();
    proof {
        assert(old(mods)@.take(0) =~= Seq::<Module>::empty());
        assert(views_of(frags@) =~= Seq::<Seq<char>>::empty());
        assert(mods@.take(0) =~= Seq::<Module>::empty());
    }
    let mut i: usize = 0;
    while i < n
        invariant
            0 <= i <= n,
            n == mods@.len(),
            mods@.len() == old(mods)@.len(),
            snap.time.wf(),
            frags@.len() == i,
            forall|j: int| 0 <= j < mods@.len() ==> (#[trigger] mods@[j]).wf(),
            forall|j: int| i <= j < n ==> mods@[j] == old(mods)@[j],
            column_fold(old(mods)@.take(i as int), *snap) == Ok::<
                (Seq<Seq<char>>, Seq<Module>),
                BarError,
            >((views_of(frags@), mods@.take(i as int))),
        decreases n - i,
    {
        let ghost pre_frags = views_of(frags@);
        let ghost pre_mods = mods@.take(i as int);
        proof {
            assert(old(mods)@.take(i as int + 1) =~= old(mods)@.take(i as int) + seq![
                old(mods)@[i as int],
            ]);
            lemma_column_fold_concat(old(mods)@.take(i as int), seq![old(mods)@[i as int]], *snap);
            assert(seq![old(mods)@[i as int]][0] == old(mods)@[i as int]);
            assert(seq![old(mods)@[i as int]].drop_first() =~= Seq::<Module>::empty());
        }
        let mut m = mods[i];
        let fr = match m.create_string(snap) {
            Ok(s) => s,
            Err(e) => {
                if e.recoverable() {
                    paint(crate::error_indicator(), red_color_str(), "F")
                } else {
                    proof {
                        assert(column_fold(old(mods)@.take(i as int + 1), *snap) == Err::<
                            (Seq<Seq<char>>, Seq<Module>),
                            BarError,
                        >(e));
                        assert(old(mods)@ =~= old(mods)@.take(i as int + 1) + old(mods)@.skip(
                            i as int + 1,
                        ));
                        lemma_column_fold_concat(
                            old(mods)@.take(i as int + 1),
                            old(mods)@.skip(i as int + 1),
                            *snap,
                        );
                    }
                    return Err(e);
                }
            },
        };
        mods.set(i, m);
        frags.push(fr);
        proof {
            assert(views_of(frags@) =~= pre_frags + seq![frags@[i as int]@]);
            assert(mods@.take(i as int + 1) =~= pre_mods + seq![mods@[i as int]]);
            assert(column_fold(Seq::<Module>::empty(), *snap) == Ok::<
                (Seq<Seq<char>>, Seq<Module>),
                BarError,
            >((Seq::empty(), Seq::empty())));
            assert(seq![frags@[i as int]@] + Seq::<Seq<char>>::empty() =~= seq![
                frags@[i as int]@,
            ]);
            assert(seq![mods@[i as int]] + Seq::<Module>::empty() =~= seq![mods@[i as int]]);
            assert(column_fold(seq![old(mods)@[i as int]], *snap) == Ok::<
                (Seq<Seq<char>>, Seq<Module>),
                BarError,
            >((seq![frags@[i as int]@], seq![mods@[i as int]])));
            assert(column_fold(old(mods)@.take(i as int + 1), *snap) == Ok::<
                (Seq<Seq<char>>, Seq<Module>),
                BarError,
            >((views_of(frags@), mods@.take(i as int + 1))));
        }
        i = i + 1;
    }
    proof {
        assert(old(mods)@.take(n as int) =~= old(mods)@);
        assert(mods@.take(n as int) =~= mods@);
    }
    Ok(frags)
}

/// The bar: three ordered module columns and the detail flag. Rendering
/// never reorders or drops a module, and a recoverable module failure
/// never aborts its siblings.
pub struct Bar {
    pub left: Vec<Module>,
    pub center: Vec<Module>,
    pub right: Vec<Module>,
    pub detailed: bool,
}

/// A successful render: the three columns each rendered in order, the
/// line is their fragments composed with the column markers, and the new
/// bar holds the modules' new states.
pub open spec fn bar_render_ok(pre: Bar, snap: Snapshot, line: Seq<char>, post: Bar) -> bool {
    match (column_fold(pre.left@, snap), column_fold(pre.center@, snap), column_fold(
        pre.right@,
        snap,
    )) {
        (Ok(l), Ok(c), Ok(r)) => line == bar_line_spec(l.0, c.0, r.0) && post.left@ == l.1
            && post.center@ == c.1 && post.right@ == r.1,
        _ => false,
    }
}

/// A failed render: the first column whose fold fails yields this error.
pub open spec fn bar_render_err(pre: Bar, snap: Snapshot, e: BarError) -> bool {
    match column_fold(pre.left@, snap) {
        Err(le) => e == le,
        Ok(_) => match column_fold(pre.center@, snap) {
            Err(ce) => e == ce,
            Ok(_) => match column_fold(pre.right@, snap) {
                Err(re) => e == re,
                Ok(_) => false,
            },
        },
    }
}

impl Bar {
    /// Every module's memory has the shape its kind demands.
    pub open spec fn wf(self) -> bool {
        (forall|i: int| 0 <= i < self.left@.len() ==> (#[trigger] self.left@[i]).wf()) && (forall|
            i: int,
        | 0 <= i < self.center@.len() ==> (#[trigger] self.center@[i]).wf()) && (forall|i: int|
            0 <= i < self.right@.len() ==> (#[trigger] self.right@[i]).wf())
    }

    /// Exec twin of [`Bar::wf`].
    pub fn check_wf(&self) -> (r: bool)
        ensures
            r == self.wf(),
    {
        check_column_wf(&self.left) && check_column_wf(&self.center) && check_column_wf(
            &self.right,
        )
    }

    /// A new bar from the three module columns, rendering compactly.
    pub fn new(left: Vec<Module>, center: Vec<Module>, right: Vec<Module>) -> (r: Bar)
        ensures
            r.left@ == left@,
            r.center@ == center@,
            r.right@ == right@,
            !r.detailed,
    {
        Bar { left, center, right, detailed: false }
    }

    /// Compose one line from the snapshot: the three columns rendered in
    /// order and joined with the column markers. A recoverable module
    /// failure contributes the error indicator; the first fatal failure
    /// is returned and ends the render.
    pub fn create_string(&mut self, snap: &Snapshot) -> (r: Result<String, BarError>)
        requires
            old(self).wf(),
            snap.time.wf(),
        ensures
            final(self).wf(),
            final(self).detailed == old(self).detailed,
            match r {
                Ok(s) => bar_render_ok(*old(self), *snap, s@, *final(self)),
                Err(e) => bar_render_err(*old(self), *snap, e),
            },
    {
        let lf = match render_column(&mut self.left, snap) {
            Err(e) => {
                return Err(e);
            },
            Ok(v) => v,
        };
        let cf = match render_column(&mut self.center, snap) {
            Err(e) => {
                return Err(e);
            },
            Ok(v) => v,
        };
        let rf = match render_column(&mut self.right, snap) {
            Err(e) => {
                return Err(e);
            },
            Ok(v) => v,
        };
        Ok(get_formatted_string(&lf, &cf, &rf))
    }

    /// Render and print one line to standard output.
    pub fn output_data(&mut self, snap: &Snapshot) -> (r: Result<(), BarError>)
        requires
            old(self).wf(),
            snap.time.wf(),
        ensures
            final(self).wf(),
            final(self).detailed == old(self).detailed,
            match r {
                Ok(u) => exists|line: Seq<char>|
                    #[trigger] bar_render_ok(*old(self), *snap, line, *final(self)),
                Err(e) => bar_render_err(*old(self), *snap, e),
            },
    {
        match self.create_string(snap) {
            Err(e) => Err(e),
            Ok(s) => {
                proof {
                    assert(bar_render_ok(*old(self), *snap, s@, *self));
                }
                print_line(&s);
                Ok(())
            },
        }
    }

    /// Propagate the detail flag to every module of every column.
    pub fn set_detailed(&mut self, detailed: bool)
        ensures
            final(self).detailed == detailed,
            final(self).left@.len() == old(self).left@.len(),
            final(self).center@.len() == old(self).center@.len(),
            final(self).right@.len() == old(self).right@.len(),
            forall|i: int|
                0 <= i < old(self).left@.len() ==> final(self).left@[i] == (Module {
                    detailed,
                    ..old(self).left@[i]
                }),
            forall|i: int|
                0 <= i < old(self).center@.len() ==> final(self).center@[i] == (Module {
                    detailed,
                    ..old(self).center@[i]
                }),
            forall|i: int|
                0 <= i < old(self).right@.len() ==> final(self).right@[i] == (Module {
                    detailed,
                    ..old(self).right@[i]
                }),
            old(self).wf() ==> final(self).wf(),
    {
        set_column_detailed(&mut self.left, detailed);
        set_column_detailed(&mut self.center, detailed);
        set_column_detailed(&mut self.right, detailed);
        self.detailed = detailed;
    }

    /// Whether the bar renders detailed information.
    pub fn is_detailed(&self) -> (r: bool)
        ensures
            r == self.detailed,
    {
        self.detailed
    }
}

fn check_column_wf(mods: &Vec<Module>) -> (r: bool)
    ensures
        r == (forall|i: int| 0 <= i < mods@.len() ==> (#[trigger] mods@[i]).wf()),
{
    let mut i: usize = 0;
    while i < mods.len()
        invariant
            0 <= i <= mods@.len(),
            forall|j: int| 0 <= j < i ==> (#[trigger] mods@[j]).wf(),
        decreases mods@.len() - i,
    {
        if !mods[i].check_wf() {
            return false;
        }
        i = i + 1;
    }
    true
}

fn set_column_detailed(mods: &mut Vec<Module>, detailed: bool)
    ensures
        final(mods)@.len() == old(mods)@.len(),
        forall|i: int|
            0 <= i < old(mods)@.len() ==> final(mods)@[i] == (Module {
                detailed,
                ..old(mods)@[i]
            }),
{
    let n = mods.len();
    let mut i: usize = 0;
    while i < n
        invariant
            0 <= i <= n,
            n == mods@.len(),
            mods@.len() == old(mods)@.len(),
            forall|j: int|
                0 <= j < i ==> mods@[j] == (Module { detailed, ..old(mods)@[j] }),
            forall|j: int| i <= j < n ==> mods@[j] == old(mods)@[j],
        decreases n - i,
    {
        let mut m = mods[i];
        m.set_detailed(detailed);
        mods.set(i, m);
        i = i + 1;
    }
}

/// Relies on the writeln macro over std::io::stdout: writes the line and
/// a newline to standard output.
#[verifier::external_body]
fn print_line(s: &String) {
    let _ = writeln!(std::io::stdout(), "{}", s);
}

/// The keybinding command that turns detail mode on.
pub open spec fn show_detail_command() -> Seq<char> {
    "exec #show_bar_detail"@
}

/// The keybinding command that turns detail mode off.
pub open spec fn hide_detail_command() -> Seq<char> {
    "exec #hide_bar_detail"@
}

/// The decision for one keybinding event, as a pure function from the
/// current detail mode and the event's command: the new detail mode, and
/// whether a fresh line must be rendered. Repeating the current mode's
/// command renders nothing; any unrelated command renders without
/// changing the mode.
pub open spec fn binding_update_spec(detailed: bool, cmd: Seq<char>) -> (bool, bool) {
    if cmd == show_detail_command() {
        if detailed {
            (true, false)
        } else {
            (true, true)
        }
    } else if cmd == hide_detail_command() {
        if !detailed {
            (false, false)
        } else {
            (false, true)
        }
    } else {
        (detailed, true)
    }
}

/// Exec twin of [`binding_update_spec`].
pub fn binding_update(detailed: bool, command: &str) -> (r: (bool, bool))
    ensures
        r == binding_update_spec(detailed, command@),
{
    if crate::strutil::str_eq(command, "exec #show_bar_detail") {
        if detailed {
            (true, false)
        } else {
            (true, true)
        }
    } else if crate::strutil::str_eq(command, "exec #hide_bar_detail") {
        if !detailed {
            (false, false)
        } else {
            (false, true)
        }
    } else {
        (detailed, true)
    }
}

/// The interface every bar element offers: render a fragment from a
/// snapshot, and switch detail mode.
pub trait BarStr {
    /// The state the element must be in to render.
    spec fn inv(&self) -> bool;

    /// Create a lemonbar-formatted string representing the element.
    fn create_string(&mut self, snap: &Snapshot) -> (r: Result<String, BarError>)
        requires
            old(self).inv(),
            snap.time.wf(),
        ensures
            final(self).inv(),
    ;

    /// Set whether the element outputs detailed information.
    fn set_detailed(&mut self, detailed: bool);

    /// Whether the element outputs detailed information.
    fn is_detailed(&self) -> bool;
}

impl BarStr for Module {
    open spec fn inv(&self) -> bool {
        self.wf()
    }

    fn create_string(&mut self, snap: &Snapshot) -> (r: Result<String, BarError>) {
        Module::create_string(self, snap)
    }

    fn set_detailed(&mut self, detailed: bool) {
        Module::set_detailed(self, detailed);
    }

    fn is_detailed(&self) -> bool {
        Module::is_detailed(self)
    }
}

impl BarStr for Bar {
    open spec fn inv(&self) -> bool {
        self.wf()
    }

    fn create_string(&mut self, snap: &Snapshot) -> (r: Result<String, BarError>) {
        Bar::create_string(self, snap)
    }

    fn set_detailed(&mut self, detailed: bool) {
        Bar::set_detailed(self, detailed);
    }

    fn is_detailed(&self) -> bool {
        Bar::is_detailed(self)
    }
}

} // verus!
