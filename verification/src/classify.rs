//! Window classification: turns the ordered window list of one workspace
//! into a single icon string, remembering the media-player window across
//! renders by its id.

use vstd::prelude::*;
use crate::BarError;
use crate::strutil::{is_prefix, is_suffix, str_eq, starts_with, ends_with};

verus! {

/// The display name of the idle media player window.
pub open spec fn player_name() -> Seq<char> {
    "Spotify Premium"@
}

/// Exec twin of [`player_name`].
pub fn player_name_str() -> (r: &'static str)
    ensures
        r@ == player_name(),
{
    "Spotify Premium"
}

/// The icon shown for the idle media player.
pub open spec fn player_idle_icon() -> Seq<char> {
    "\u{f1bc}"@
}

/// Exec twin of [`player_idle_icon`].
pub fn player_idle_icon_str() -> (r: &'static str)
    ensures
        r@ == player_idle_icon(),
{
    "\u{f1bc}"
}

/// The icon prefixed to a playing title.
pub open spec fn play_icon() -> Seq<char> {
    "\u{f001}"@
}

/// Exec twin of [`play_icon`].
pub fn play_icon_str() -> (r: &'static str)
    ensures
        r@ == play_icon(),
{
    "\u{f001}"
}

/// One classification rule: a match text, the icon it assigns, and whether
/// the text must be a prefix (`true`) or a suffix (`false`) of the window
/// name.
pub struct Rule {
    pub text: Seq<char>,
    pub icon: Seq<char>,
    pub prefix: bool,
}

/// The classification rules, in order of priority: later rules override
/// earlier ones within one workspace scan.
pub open spec fn rules() -> Seq<Rule> {
    seq![
        Rule { text: ""@, icon: "\u{f61f}"@, prefix: true },
        Rule { text: "st"@, icon: "\u{f120}"@, prefix: true },
        Rule { text: "zsh"@, icon: "\u{f120}"@, prefix: true },
        Rule { text: "nvim"@, icon: "\u{f121}"@, prefix: true },
        Rule { text: "Discord"@, icon: "\u{f392}"@, prefix: false },
        Rule { text: "Telegram"@, icon: "\u{f3fe}"@, prefix: true },
        Rule { text: "Steam"@, icon: "\u{f1b6}"@, prefix: true },
        Rule { text: "Firefox"@, icon: "\u{f269}"@, prefix: false },
        Rule { text: "Brave"@, icon: "\u{f268}"@, prefix: false },
        Rule { text: "Spotify Premium"@, icon: "\u{f1bc}"@, prefix: true },
    ]
}

/// The match text, icon and mode of rule `i`.
fn rule_at(i: usize) -> (r: (&'static str, &'static str, bool))
    requires
        i < rules().len(),
    ensures
        r.0@ == rules()[i as int].text,
        r.1@ == rules()[i as int].icon,
        r.2 == rules()[i as int].prefix,
{
    match i {
        0 => ("", "\u{f61f}", true),
        1 => ("st", "\u{f120}", true),
        2 => ("zsh", "\u{f120}", true),
        3 => ("nvim", "\u{f121}", true),
        4 => ("Discord", "\u{f392}", false),
        5 => ("Telegram", "\u{f3fe}", true),
        6 => ("Steam", "\u{f1b6}", true),
        7 => ("Firefox", "\u{f269}", false),
        8 => ("Brave", "\u{f268}", false),
        _ => ("Spotify Premium", "\u{f1bc}", true),
    }
}

/// Whether a rule matches a window name.
pub open spec fn rule_matches(name: Seq<char>, r: Rule) -> bool {
    if r.prefix {
        is_prefix(name, r.text)
    } else {
        is_suffix(name, r.text)
    }
}

/// The highest rule index in `lo..=i` whose rule matches `name`, scanning
/// downward from `i`.
pub open spec fn find_rule(name: Seq<char>, i: int, lo: int) -> Option<int>
    decreases i + 1 - lo,
{
    if i < lo {
        None
    } else if rule_matches(name, rules()[i]) {
        Some(i)
    } else {
        find_rule(name, i - 1, lo)
    }
}

/// Scan the rules from the highest priority down to `lo`; the first match
/// wins.
fn scan_rules(name: &str, lo: usize) -> (r: Option<usize>)
    requires
        lo <= rules().len(),
    ensures
        match r {
            Some(j) => find_rule(name@, rules().len() - 1, lo as int) == Some(j as int) && lo
                <= j < rules().len(),
            None => find_rule(name@, rules().len() - 1, lo as int) is None,
        },
{
    let mut j: usize = 10;
    proof {
        assert(rules().len() == 10);
    }
    while j > lo
        invariant
            lo <= j <= 10,
            rules().len() == 10,
            find_rule(name@, rules().len() - 1, lo as int) == find_rule(
                name@,
                j as int - 1,
                lo as int,
            ),
        decreases j,
    {
        j = j - 1;
        let (text, _icon, pref) = rule_at(j);
        let m = if pref {
            starts_with(name, text)
        } else {
            ends_with(name, text)
        };
        if m {
            return Some(j);
        }
    }
    None
}

/// There is a separator `" - "` at position `i` of `s`.
pub open spec fn sep_at(s: Seq<char>, i: int) -> bool {
    0 <= i && i + 3 <= s.len() && s[i] == ' ' && s[i + 1] == '-' && s[i + 2] == ' '
}

/// The first separator position at or after `from`, if any.
pub open spec fn find_sep_from(s: Seq<char>, from: int) -> Option<int>
    decreases s.len() - from,
{
    if from < 0 || from + 3 > s.len() {
        None
    } else if sep_at(s, from) {
        Some(from)
    } else {
        find_sep_from(s, from + 1)
    }
}

/// A name split as `"Title - Artist"`: the part before the first separator
/// and the part between the first and the second separator (or the end).
pub open spec fn song_split(s: Seq<char>) -> Option<(Seq<char>, Seq<char>)> {
    match find_sep_from(s, 0) {
        None => None,
        Some(i) => {
            let end = match find_sep_from(s, i + 3) {
                None => s.len() as int,
                Some(j) => j,
            };
            Some((s.subrange(0, i), s.subrange(i + 3, end)))
        },
    }
}

fn find_sep(s: &str, from: usize) -> (r: Option<usize>)
    requires
        from <= s@.len(),
    ensures
        match r {
            Some(i) => find_sep_from(s@, from as int) == Some(i as int) && from <= i && i + 3
                <= s@.len(),
            None => find_sep_from(s@, from as int) is None,
        },
{
    let len = s.unicode_len();
    if len < 3 {
        return None;
    }
    let mut i = from;
    while i <= len - 3
        invariant
            from <= i,
            i <= len,
            len == s@.len(),
            len >= 3,
            find_sep_from(s@, from as int) == find_sep_from(s@, i as int),
        decreases len - i,
    {
        if s.get_char(i) == ' ' && s.get_char(i + 1) == '-' && s.get_char(i + 2) == ' ' {
            return Some(i);
        }
        proof {
            assert(find_sep_from(s@, i as int) == find_sep_from(s@, i as int + 1));
        }
        i = i + 1;
    }
    None
}

/// Split a window title into `(Title, Artist)` on the literal separator
/// `" - "`. Returns `None` exactly when no separator occurs.
pub fn split_song(s: &str) -> (r: Option<(String, String)>)
    ensures
        match r {
            Some(p) => song_split(s@) == Some((p.0@, p.1@)),
            None => song_split(s@) is None,
        },
{
    let len = s.unicode_len();
    match find_sep(s, 0) {
        None => None,
        Some(i) => {
            let title = String::from_str(s.substring_char(0, i));
            let end = match find_sep(s, i + 3) {
                None => len,
                Some(j) => j,
            };
            let artist = String::from_str(s.substring_char(i + 3, end));
            Some((title, artist))
        },
    }
}

/// The running state of one workspace scan: the icon chosen so far, the
/// lowest rule index still allowed to match, the remembered player id, and
/// whether the player was seen.
pub struct ClassSt {
    pub icon: Seq<char>,
    pub idx: int,
    pub pinned: i64,
    pub found: bool,
}

/// One window's effect on the scan state. A window recognized as the
/// player (by name, or by id remembered from an earlier render) pins its
/// id, marks the player found, blocks every rule from later demoting the
/// icon, and sets the icon: the idle icon on name equality, or the play
/// icon with `"Title - Artist"` when the title differs from the idle name.
/// A malformed non-idle title fails. Any other window takes the best rule
/// with index at least the running match index, if one matches.
pub open spec fn class_step(st: ClassSt, w: crate::tree::WinV) -> Result<ClassSt, BarError> {
    if w.name == player_name() || w.id == st.pinned {
        if w.name == player_name() {
            Ok(
                ClassSt {
                    icon: player_idle_icon(),
                    idx: rules().len() as int,
                    pinned: w.id,
                    found: true,
                },
            )
        } else {
            match song_split(w.name) {
                None => Err(BarError::BadSongFormat),
                Some(p) => Ok(
                    ClassSt {
                        icon: play_icon() + " "@ + p.0 + " - "@ + p.1,
                        idx: rules().len() as int,
                        pinned: w.id,
                        found: true,
                    },
                ),
            }
        }
    } else {
        match find_rule(w.name, rules().len() - 1, st.idx) {
            Some(i) => Ok(
                ClassSt { icon: rules()[i].icon, idx: i + 1, pinned: st.pinned, found: st.found },
            ),
            None => Ok(st),
        }
    }
}

/// [`class_step`] folded over a window list, stopping at the first failure.
pub open spec fn class_fold(ws: Seq<crate::tree::WinV>, st: ClassSt) -> Result<
    ClassSt,
    BarError,
>
    decreases ws.len(),
{
    if ws.len() == 0 {
        Ok(st)
    } else {
        match class_step(st, ws[0]) {
            Err(e) => Err(e),
            Ok(st2) => class_fold(ws.drop_first(), st2),
        }
    }
}

/// The classification of one workspace: the final icon padded with one
/// leading and one trailing space, the updated pinned id, and whether the
/// player was seen. The icon starts as the workspace name and is refined
/// window by window.
pub open spec fn classify_spec(v: crate::tree::WsV, pinned: i64) -> Result<
    (Seq<char>, i64, bool),
    BarError,
> {
    match class_fold(v.windows, ClassSt { icon: v.name, idx: 0, pinned, found: false }) {
        Err(e) => Err(e),
        Ok(st) => Ok((" "@ + st.icon + " "@, st.pinned, st.found)),
    }
}

/// Folding a list split in two folds the first part, then the second from
/// where the first ended.
pub proof fn lemma_class_fold_concat(a: Seq<crate::tree::WinV>, b: Seq<crate::tree::WinV>, st: ClassSt)
    ensures
        class_fold(a + b, st) == match class_fold(a, st) {
            Err(e) => Err(e),
            Ok(st2) => class_fold(b, st2),
        },
    decreases a.len(),
{
    if a.len() == 0 {
        assert(a + b =~= b);
    } else {
        assert((a + b)[0] == a[0]);
        assert((a + b).drop_first() =~= a.drop_first() + b);
        match class_step(st, a[0]) {
            Err(e) => {},
            Ok(st2) => {
                lemma_class_fold_concat(a.drop_first(), b, st2);
            },
        }
    }
}

/// Classify the windows of one workspace. Deterministic: the result is a
/// function of the window list, the workspace name and the pinned id
/// alone. Fails exactly when a recognized player window carries a
/// malformed non-idle title.
pub fn classify_workspace(ws: &crate::tree::WorkspaceView, pinned: i64) -> (r: Result<
    (String, i64, bool),
    BarError,
>)
    ensures
        match r {
            Ok(t) => classify_spec(ws@, pinned) == Ok::<(Seq<char>, i64, bool), BarError>(
                (t.0@, t.1, t.2),
            ),
            Err(e) => classify_spec(ws@, pinned) == Err::<(Seq<char>, i64, bool), BarError>(e),
        },
{
    let ghost wv = ws@.windows;
    let ghost st0 = ClassSt { icon: ws@.name, idx: 0, pinned, found: false };
    let mut icon = ws.name.clone();
    let mut idx: usize = 0;
    let mut pin: i64 = pinned;
    let mut fnd: bool = false;
    let n = ws.windows.len();
    proof {
        assert(rules().len() == 10);
        assert(wv.take(0) =~= Seq::<crate::tree::WinV>::empty());
    }
    let mut i: usize = 0;
    while i < n
        invariant
            0 <= i <= n,
            n == ws.windows@.len(),
            wv == ws@.windows,
            st0 == (ClassSt { icon: ws@.name, idx: 0, pinned, found: false }),
            rules().len() == 10,
            idx <= 10,
            class_fold(wv.take(i as int), st0) == Ok::<ClassSt, BarError>(
                ClassSt { icon: icon@, idx: idx as int, pinned: pin, found: fnd },
            ),
        decreases n - i,
    {
        let ghost pre = ClassSt { icon: icon@, idx: idx as int, pinned: pin, found: fnd };
        let w = &ws.windows[i];
        proof {
            assert(wv[i as int] == w@);
            assert(wv.take(i as int).push(wv[i as int]) =~= wv.take(i as int + 1));
            assert(wv.take(i as int + 1) =~= wv.take(i as int) + seq![wv[i as int]]);
            lemma_class_fold_concat(wv.take(i as int), seq![wv[i as int]], st0);
            assert(seq![wv[i as int]][0] == wv[i as int]);
            assert(seq![wv[i as int]].drop_first() =~= Seq::<crate::tree::WinV>::empty());
        }
        let is_player = str_eq(w.name.as_str(), player_name_str());
        if is_player || w.id == pin {
            pin = w.id;
            fnd = true;
            idx = 10;
            if is_player {
                icon = String::from_str(player_idle_icon_str());
            } else {
                match split_song(w.name.as_str()) {
                    None => {
                        proof {
                            assert(class_fold(wv.take(i as int + 1), st0) == Err::<
                                ClassSt,
                                BarError,
                            >(BarError::BadSongFormat));
                            assert(wv =~= wv.take(i as int + 1) + wv.skip(i as int + 1));
                            lemma_class_fold_concat(
                                wv.take(i as int + 1),
                                wv.skip(i as int + 1),
                                st0,
                            );
                        }
                        return Err(BarError::BadSongFormat);
                    },
                    Some(p) => {
                        let mut s = String::from_str(play_icon_str());
                        s.append(" ");
                        s.append(p.0.as_str());
                        s.append(" - ");
                        s.append(p.1.as_str());
                        proof {
                            let q = song_split(w@.name)->Some_0;
                            assert(s@ =~= play_icon() + " "@ + q.0 + " - "@ + q.1);
                        }
                        icon = s;
                    },
                }
            }
        } else {
            match scan_rules(w.name.as_str(), idx) {
                Some(j) => {
                    let rj = rule_at(j);
                    icon = String::from_str(rj.1);
                    idx = j + 1;
                },
                None => {},
            }
        }
        proof {
            assert(class_step(pre, wv[i as int]) == Ok::<ClassSt, BarError>(
                ClassSt { icon: icon@, idx: idx as int, pinned: pin, found: fnd },
            ));
            assert(class_fold(
                Seq::<crate::tree::WinV>::empty(),
                ClassSt { icon: icon@, idx: idx as int, pinned: pin, found: fnd },
            ) == Ok::<ClassSt, BarError>(
                ClassSt { icon: icon@, idx: idx as int, pinned: pin, found: fnd },
            ));
            assert(class_fold(wv.take(i as int + 1), st0) == Ok::<ClassSt, BarError>(
                ClassSt { icon: icon@, idx: idx as int, pinned: pin, found: fnd },
            ));
        }
        i = i + 1;
    }
    proof {
        assert(wv.take(n as int) =~= wv);
    }
    let mut out = String::from_str(" ");
    out.append(icon.as_str());
    out.append(" ");
    proof {
        assert(out@ =~= " "@ + icon@ + " "@);
    }
    Ok((out, pin, fnd))
}

/// Numbered-workspace mode: workspace names are expected to be the
/// numbers 1 and up, and unused numbers between used workspaces are shown
/// as clickable placeholders.
pub open spec fn ws_numbers() -> bool {
    true
}

/// Exec twin of [`ws_numbers`].
pub fn ws_numbers_enabled() -> (r: bool)
    ensures
        r == ws_numbers(),
{
    true
}

/// The markup of one synthesized placeholder for unused workspace `i`:
/// its number painted in the inactive color, clickable to switch there.
pub open spec fn placeholder(i: int) -> Seq<char> {
    crate::markup::buttonize_spec(
        crate::markup::paint_spec(
            " "@ + crate::strutil::dec_str(i as nat) + " "@,
            crate::markup::lightgrey_color(),
            "F"@,
        ),
        "workspace "@ + crate::strutil::dec_str(i as nat),
    )
}

/// The placeholders for every unused workspace number in `lo..hi`.
pub open spec fn placeholders(lo: int, hi: int) -> Seq<char>
    decreases hi - lo,
{
    if lo >= hi {
        Seq::empty()
    } else {
        placeholder(lo) + placeholders(lo + 1, hi)
    }
}

proof fn lemma_placeholders_snoc(lo: int, hi: int)
    requires
        lo <= hi,
    ensures
        placeholders(lo, hi + 1) == placeholders(lo, hi) + placeholder(hi),
    decreases hi - lo,
{
    if lo == hi {
        assert(placeholders(lo + 1, lo + 1) == Seq::<char>::empty());
        assert(placeholders(lo, hi + 1) =~= placeholders(lo, hi) + placeholder(hi));
    } else {
        lemma_placeholders_snoc(lo + 1, hi);
        assert(placeholders(lo, hi + 1) =~= placeholders(lo, hi) + placeholder(hi));
    }
}

/// The running state of one full workspace scan: the markup emitted so
/// far, the threaded pinned id, whether any workspace saw the player, and
/// the next expected workspace number.
pub struct WsAcc {
    pub out: Seq<char>,
    pub pinned: i64,
    pub found: bool,
    pub cur: int,
}

/// One workspace's contribution to the scan: its classified icon, made
/// clickable and highlighted when focused, preceded in numbered mode by
/// placeholders for the skipped numbers. In numbered mode a name that is
/// not a number fails.
pub open spec fn ws_step_spec(st: WsAcc, v: crate::tree::WsV) -> Result<WsAcc, BarError> {
    match classify_spec(v, st.pinned) {
        Err(e) => Err(e),
        Ok(t) => {
            let btn = crate::markup::buttonize_spec(t.0, "workspace "@ + v.name);
            let icon = if v.focused {
                crate::markup::paint_spec(btn, crate::markup::grey_color(), "B"@)
            } else {
                btn
            };
            if ws_numbers() {
                if !crate::strutil::is_digits(v.name) || crate::strutil::dec_val(v.name)
                    > u32::MAX {
                    Err(BarError::WorkspaceNameNotNumeric)
                } else {
                    let n = crate::strutil::dec_val(v.name) as int;
                    if n > st.cur {
                        Ok(
                            WsAcc {
                                out: st.out + placeholders(st.cur, n) + icon,
                                pinned: t.1,
                                found: st.found || t.2,
                                cur: n + 1,
                            },
                        )
                    } else {
                        Ok(
                            WsAcc {
                                out: st.out + icon,
                                pinned: t.1,
                                found: st.found || t.2,
                                cur: st.cur + 1,
                            },
                        )
                    }
                }
            } else {
                Ok(
                    WsAcc {
                        out: st.out + icon,
                        pinned: t.1,
                        found: st.found || t.2,
                        cur: st.cur,
                    },
                )
            }
        },
    }
}

/// [`ws_step_spec`] folded over the flattened workspaces, stopping at the
/// first failure.
pub open spec fn ws_fold(vs: Seq<crate::tree::WsV>, st: WsAcc) -> Result<WsAcc, BarError>
    decreases vs.len(),
{
    if vs.len() == 0 {
        Ok(st)
    } else {
        match ws_step_spec(st, vs[0]) {
            Err(e) => Err(e),
            Ok(st2) => ws_fold(vs.drop_first(), st2),
        }
    }
}

/// What the workspaces column shows for a tree and a remembered player
/// id: the scan over the flattened workspaces starting at number 1, or
/// the first failure. The returned pinned id is the id of the last window
/// recognized as the player, the bool says whether any was.
pub open spec fn render_workspaces_spec(t: crate::tree::Tree, pinned: i64) -> Result<
    (Seq<char>, i64, bool),
    BarError,
> {
    if !crate::tree::ws_named(t) {
        Err(BarError::UnnamedWorkspace)
    } else {
        match ws_fold(
            crate::tree::flatten_spec(t),
            WsAcc { out: Seq::empty(), pinned, found: false, cur: 1 },
        ) {
            Err(e) => Err(e),
            Ok(st) => Ok((st.out, st.pinned, st.found)),
        }
    }
}

/// Folding a workspace list split in two folds the first part, then the
/// second from where the first ended.
pub proof fn lemma_ws_fold_concat(a: Seq<crate::tree::WsV>, b: Seq<crate::tree::WsV>, st: WsAcc)
    ensures
        ws_fold(a + b, st) == match ws_fold(a, st) {
            Err(e) => Err(e),
            Ok(st2) => ws_fold(b, st2),
        },
    decreases a.len(),
{
    if a.len() == 0 {
        assert(a + b =~= b);
    } else {
        assert((a + b)[0] == a[0]);
        assert((a + b).drop_first() =~= a.drop_first() + b);
        match ws_step_spec(st, a[0]) {
            Err(e) => {},
            Ok(st2) => {
                lemma_ws_fold_concat(a.drop_first(), b, st2);
            },
        }
    }
}

fn placeholder_string(i: u64) -> (r: String)
    ensures
        r@ == placeholder(i as int),
{
    let mut name = String::from_str(" ");
    name.append(crate::strutil::u64_to_string(i).as_str());
    name.append(" ");
    let painted = crate::markup::paint(
        name.as_str(),
        crate::markup::lightgrey_color_str(),
        "F",
    );
    let mut cmd = String::from_str("workspace ");
    cmd.append(crate::strutil::u64_to_string(i).as_str());
    let r = crate::markup::buttonize(painted.as_str(), cmd.as_str());
    proof {
        reveal_strlit(" ");
        reveal_strlit("workspace ");
        assert(name@ =~= " "@ + crate::strutil::dec_str(i as nat) + " "@);
        assert(cmd@ =~= "workspace "@ + crate::strutil::dec_str(i as nat));
    }
    r
}

/// Render the whole workspaces column for one fetched tree: each
/// displayable workspace's classified icon, clickable, highlighted when
/// focused, with numbered gaps filled in. Returns the markup, the updated
/// pinned player id, and whether any workspace saw the player.
pub fn render_workspaces(tree: &crate::tree::Tree, pinned: i64) -> (r: Result<
    (String, i64, bool),
    BarError,
>)
    ensures
        match r {
            Ok(t) => render_workspaces_spec(*tree, pinned) == Ok::<(Seq<char>, i64, bool), BarError>(
                (t.0@, t.1, t.2),
            ),
            Err(e) => render_workspaces_spec(*tree, pinned) == Err::<
                (Seq<char>, i64, bool),
                BarError,
            >(e),
        },
{
    let views = match crate::tree::flatten(tree) {
        None => {
            return Err(BarError::UnnamedWorkspace);
        },
        Some(v) => v,
    };
    let ghost fv = crate::tree::flatten_spec(*tree);
    let ghost acc0 = WsAcc { out: Seq::empty(), pinned, found: false, cur: 1 };
    let mut out = String::new();
    let mut pin: i64 = pinned;
    let mut fnd: bool = false;
    let mut cur: u128 = 1;
    let n = views.len();
    proof {
        assert(fv.take(0) =~= Seq::<crate::tree::WsV>::empty());
    }
    let mut i: usize = 0;
    while i < n
        invariant
            0 <= i <= n,
            n == views@.len(),
            crate::tree::ws_named(*tree),
            fv == crate::tree::flatten_spec(*tree),
            crate::tree::wsv_views(views@) == fv,
            acc0 == (WsAcc { out: Seq::<char>::empty(), pinned, found: false, cur: 1int }),
            1 <= cur <= 4294967296u128 + i as u128,
            ws_fold(fv.take(i as int), acc0) == Ok::<WsAcc, BarError>(
                WsAcc { out: out@, pinned: pin, found: fnd, cur: cur as int },
            ),
        decreases n - i,
    {
        let ghost pre = WsAcc { out: out@, pinned: pin, found: fnd, cur: cur as int };
        let v = &views[i];
        proof {
            assert(fv[i as int] == v@);
            assert(fv.take(i as int).push(fv[i as int]) =~= fv.take(i as int + 1));
            assert(fv.take(i as int + 1) =~= fv.take(i as int) + seq![fv[i as int]]);
            lemma_ws_fold_concat(fv.take(i as int), seq![fv[i as int]], acc0);
            assert(seq![fv[i as int]][0] == fv[i as int]);
            assert(seq![fv[i as int]].drop_first() =~= Seq::<crate::tree::WsV>::empty());
        }
        match classify_workspace(v, pin) {
            Err(e) => {
                proof {
                    assert(ws_step_spec(pre, fv[i as int]) == Err::<WsAcc, BarError>(e));
                    assert(fv =~= fv.take(i as int + 1) + fv.skip(i as int + 1));
                    lemma_ws_fold_concat(fv.take(i as int + 1), fv.skip(i as int + 1), acc0);
                }
                return Err(e);
            },
            Ok(t) => {
                let (icon0, p, f) = t;
                let mut cmd = String::from_str("workspace ");
                cmd.append(v.name.as_str());
                proof {
                    reveal_strlit("workspace ");
                    assert(cmd@ =~= "workspace "@ + v@.name);
                }
                let btn = crate::markup::buttonize(icon0.as_str(), cmd.as_str());
                let icon = if v.focused {
                    crate::markup::paint(btn.as_str(), crate::markup::grey_color_str(), "B")
                } else {
                    btn
                };
                if ws_numbers_enabled() {
                    match crate::strutil::parse_u32(v.name.as_str()) {
                        None => {
                            proof {
                                assert(ws_step_spec(pre, fv[i as int]) == Err::<WsAcc, BarError>(
                                    BarError::WorkspaceNameNotNumeric,
                                ));
                                assert(fv =~= fv.take(i as int + 1) + fv.skip(i as int + 1));
                                lemma_ws_fold_concat(
                                    fv.take(i as int + 1),
                                    fv.skip(i as int + 1),
                                    acc0,
                                );
                            }
                            return Err(BarError::WorkspaceNameNotNumeric);
                        },
                        Some(nn) => {
                            let ghost cur0 = cur as int;
                            if (nn as u128) > cur {
                                let mut g: u64 = cur as u64;
                                proof {
                                    assert(placeholders(cur0, g as int) == Seq::<char>::empty());
                                    assert(out@ =~= pre.out + placeholders(cur0, g as int));
                                }
                                while g < nn as u64
                                    invariant
                                        cur0 <= g as int <= nn,
                                        nn <= u32::MAX,
                                        out@ == pre.out + placeholders(cur0, g as int),
                                    decreases nn as u64 - g,
                                {
                                    out.append(placeholder_string(g).as_str());
                                    proof {
                                        lemma_placeholders_snoc(cur0, g as int);
                                        assert(out@ =~= pre.out + placeholders(
                                            cur0,
                                            g as int + 1,
                                        ));
                                    }
                                    g = g + 1;
                                }
                                cur = nn as u128 + 1;
                            } else {
                                cur = cur + 1;
                                proof {
                                    assert(out@ =~= pre.out + placeholders(cur0, cur0));
                                }
                            }
                            out.append(icon.as_str());
                            pin = p;
                            fnd = fnd || f;
                            proof {
                                if crate::strutil::dec_val(v@.name) > pre.cur {
                                    assert(out@ =~= pre.out + placeholders(
                                        pre.cur,
                                        crate::strutil::dec_val(v@.name) as int,
                                    ) + icon@);
                                }
                                assert(ws_step_spec(pre, fv[i as int]) == Ok::<WsAcc, BarError>(
                                    WsAcc { out: out@, pinned: pin, found: fnd, cur: cur as int },
                                ));
                                assert(ws_fold(
                                    Seq::<crate::tree::WsV>::empty(),
                                    WsAcc { out: out@, pinned: pin, found: fnd, cur: cur as int },
                                ) == Ok::<WsAcc, BarError>(
                                    WsAcc { out: out@, pinned: pin, found: fnd, cur: cur as int },
                                ));
                                assert(ws_fold(fv.take(i as int + 1), acc0) == Ok::<
                                    WsAcc,
                                    BarError,
                                >(WsAcc { out: out@, pinned: pin, found: fnd, cur: cur as int }));
                            }
                        },
                    }
                } else {
                    out.append(icon.as_str());
                    pin = p;
                    fnd = fnd || f;
                    proof {
                        assert(ws_step_spec(pre, fv[i as int]) == Ok::<WsAcc, BarError>(
                            WsAcc { out: out@, pinned: pin, found: fnd, cur: cur as int },
                        ));
                        assert(ws_fold(
                            Seq::<crate::tree::WsV>::empty(),
                            WsAcc { out: out@, pinned: pin, found: fnd, cur: cur as int },
                        ) == Ok::<WsAcc, BarError>(
                            WsAcc { out: out@, pinned: pin, found: fnd, cur: cur as int },
                        ));
                        assert(ws_fold(fv.take(i as int + 1), acc0) == Ok::<WsAcc, BarError>(
                            WsAcc { out: out@, pinned: pin, found: fnd, cur: cur as int },
                        ));
                    }
                }
            },
        }
        i = i + 1;
    }
    proof {
        assert(fv.take(n as int) =~= fv);
    }
    Ok((out, pin, fnd))
}

/// Classification is deterministic: the same workspace view and pinned
/// id always yield the same icon, updated pinned id and found flag.
pub proof fn lemma_classify_deterministic(v1: crate::tree::WsV, p1: i64, v2: crate::tree::WsV, p2: i64)
    requires
        v1 == v2,
        p1 == p2,
    ensures
        classify_spec(v1, p1) == classify_spec(v2, p2),
{
}

proof fn lemma_find_rule_bounds(name: Seq<char>, i: int, lo: int)
    requires
        find_rule(name, i, lo) is Some,
    ensures
        lo <= find_rule(name, i, lo)->Some_0 <= i,
        rule_matches(name, rules()[find_rule(name, i, lo)->Some_0]),
    decreases i + 1 - lo,
{
    if !(i < lo) && !rule_matches(name, rules()[i]) {
        lemma_find_rule_bounds(name, i - 1, lo);
    }
}

/// Rule-index monotonicity over one window: the match index never
/// decreases, and when an ordinary window changes the state, the rule it
/// matched has index at least the running match index — no earlier rule
/// is ever applied after a later one.
pub proof fn lemma_rule_index_monotone(st: ClassSt, w: crate::tree::WinV)
    requires
        0 <= st.idx <= rules().len(),
    ensures
        match class_step(st, w) {
            Err(_) => true,
            Ok(st2) => st.idx <= st2.idx <= rules().len() && (st2 != st && !(w.name
                == player_name() || w.id == st.pinned) ==> st2.idx >= st.idx + 1 && st2.icon
                == rules()[st2.idx - 1].icon && rule_matches(w.name, rules()[st2.idx - 1])),
        },
{
    if !(w.name == player_name() || w.id == st.pinned) {
        match find_rule(w.name, rules().len() - 1, st.idx) {
            Some(i) => {
                lemma_find_rule_bounds(w.name, rules().len() - 1, st.idx);
            },
            None => {},
        }
    }
}

/// Rule-index monotonicity over a whole scan: folding any window list
/// from a valid state keeps the match index between its starting value
/// and the rule count.
pub proof fn lemma_scan_index_monotone(ws: Seq<crate::tree::WinV>, st: ClassSt)
    requires
        0 <= st.idx <= rules().len(),
    ensures
        match class_fold(ws, st) {
            Err(_) => true,
            Ok(st2) => st.idx <= st2.idx <= rules().len(),
        },
    decreases ws.len(),
{
    if ws.len() > 0 {
        lemma_rule_index_monotone(st, ws[0]);
        match class_step(st, ws[0]) {
            Err(_) => {},
            Ok(st2) => {
                lemma_scan_index_monotone(ws.drop_first(), st2);
            },
        }
    }
}

/// Rule-index monotonicity over consecutive windows: when one ordinary
/// window is classified by the rule at index `i` and a later ordinary
/// window changes the icon again, the rule applied then has an index
/// strictly above `i` — a rule below the one already applied never wins
/// again within the same workspace scan.
pub proof fn lemma_later_window_never_demotes(
    st: ClassSt,
    w1: crate::tree::WinV,
    w2: crate::tree::WinV,
)
    requires
        0 <= st.idx <= rules().len(),
        !(w1.name == player_name() || w1.id == st.pinned),
        class_step(st, w1) is Ok,
        class_step(st, w1)->Ok_0 != st,
        !(w2.name == player_name() || w2.id == class_step(st, w1)->Ok_0.pinned),
        class_step(class_step(st, w1)->Ok_0, w2) is Ok,
        class_step(class_step(st, w1)->Ok_0, w2)->Ok_0 != class_step(st, w1)->Ok_0,
    ensures
        class_step(class_step(st, w1)->Ok_0, w2)->Ok_0.idx - 1 > class_step(st, w1)->Ok_0.idx
            - 1,
        rule_matches(w2.name, rules()[class_step(class_step(st, w1)->Ok_0, w2)->Ok_0.idx - 1]),
{
    lemma_rule_index_monotone(st, w1);
    let st1 = class_step(st, w1)->Ok_0;
    lemma_rule_index_monotone(st1, w2);
}

/// Media-player recognition survives a title rename: a window whose id
/// is the remembered pinned id and whose title now splits as
/// `"Title - Artist"` is classified as the playing player, and the
/// pinned id is kept.
pub proof fn lemma_player_rename_survives(
    v: crate::tree::WsV,
    pinned: i64,
    w: crate::tree::WinV,
    t: Seq<char>,
    a: Seq<char>,
)
    requires
        v.windows == seq![w],
        w.id == pinned,
        w.name != player_name(),
        song_split(w.name) == Some((t, a)),
    ensures
        classify_spec(v, pinned) == Ok::<(Seq<char>, i64, bool), BarError>(
            (" "@ + play_icon() + " "@ + t + " - "@ + a + " "@, pinned, true),
        ),
{
    let st0 = ClassSt { icon: v.name, idx: 0, pinned, found: false };
    let st2 = ClassSt {
        icon: play_icon() + " "@ + t + " - "@ + a,
        idx: rules().len() as int,
        pinned: w.id,
        found: true,
    };
    assert(seq![w][0] == w);
    assert(class_step(st0, w) == Ok::<ClassSt, BarError>(st2));
    assert(seq![w].drop_first() =~= Seq::<crate::tree::WinV>::empty());
    assert(class_fold(Seq::<crate::tree::WinV>::empty(), st2) == Ok::<ClassSt, BarError>(st2));
    assert(class_fold(seq![w], st0) == Ok::<ClassSt, BarError>(st2));
    assert(" "@ + st2.icon + " "@ =~= " "@ + play_icon() + " "@ + t + " - "@ + a + " "@);
}

proof fn lemma_fold_no_player(ws: Seq<crate::tree::WinV>, st: ClassSt)
    requires
        forall|k: int|
            0 <= k < ws.len() ==> (#[trigger] ws[k]).name != player_name() && ws[k].id
                != st.pinned,
    ensures
        class_fold(ws, st) matches Ok(st2) && st2.pinned == st.pinned && st2.found == st.found,
    decreases ws.len(),
{
    if ws.len() > 0 {
        match class_step(st, ws[0]) {
            Err(_) => {
                assert(false);
            },
            Ok(st2) => {
                assert(st2.pinned == st.pinned && st2.found == st.found);
                assert(forall|k: int|
                    0 <= k < ws.drop_first().len() ==> #[trigger] ws.drop_first()[k] == ws[k
                        + 1]);
                lemma_fold_no_player(ws.drop_first(), st2);
            },
        }
    }
}

proof fn lemma_ws_fold_no_player(vs: Seq<crate::tree::WsV>, st: WsAcc)
    requires
        forall|i: int, j: int|
            0 <= i < vs.len() && 0 <= j < (#[trigger] vs[i]).windows.len() ==> (
            #[trigger] vs[i].windows[j]).name != player_name() && vs[i].windows[j].id
                != st.pinned,
    ensures
        match ws_fold(vs, st) {
            Err(_) => true,
            Ok(st2) => st2.pinned == st.pinned && st2.found == st.found,
        },
    decreases vs.len(),
{
    if vs.len() > 0 {
        lemma_fold_no_player(
            vs[0].windows,
            ClassSt { icon: vs[0].name, idx: 0, pinned: st.pinned, found: false },
        );
        match ws_step_spec(st, vs[0]) {
            Err(_) => {},
            Ok(st2) => {
                assert(st2.pinned == st.pinned && st2.found == st.found);
                assert(forall|i: int|
                    0 <= i < vs.drop_first().len() ==> #[trigger] vs.drop_first()[i] == vs[i
                        + 1]);
                lemma_ws_fold_no_player(vs.drop_first(), st2);
            },
        }
    }
}

/// Media-player forgetting: when no window of any displayable workspace
/// matches the idle player name or the remembered id, a successful
/// workspace render reports the player as not found and leaves the
/// threaded id untouched — so the caller resets the memory to absence.
pub proof fn lemma_player_forgotten(t: crate::tree::Tree, pinned: i64)
    requires
        forall|i: int, j: int|
            0 <= i < crate::tree::flatten_spec(t).len() && 0 <= j < (
            #[trigger] crate::tree::flatten_spec(t)[i]).windows.len() ==> (
            #[trigger] crate::tree::flatten_spec(t)[i].windows[j]).name != player_name()
                && crate::tree::flatten_spec(t)[i].windows[j].id != pinned,
    ensures
        match render_workspaces_spec(t, pinned) {
            Err(_) => true,
            Ok(p) => p.1 == pinned && p.2 == false,
        },
{
    if crate::tree::ws_named(t) {
        lemma_ws_fold_no_player(
            crate::tree::flatten_spec(t),
            WsAcc { out: Seq::empty(), pinned, found: false, cur: 1 },
        );
    }
}

} // verus!
