//! System readings turned into markup: battery charge, network link state
//! and processor load. The file contents arrive as plain text; all parsing
//! and formatting is verified.

use vstd::prelude::*;
use crate::BarError;
use crate::markup::{
    paint, paint_spec, text_color, red_color, red_color_str, green_color, green_color_str,
    lightbrown_color, orange_color, text_color_str, lightbrown_color_str, orange_color_str,
};
use crate::strutil::{
    trim, trimmed, str_eq, is_digits, dec_val, dec_str, parse_u32, parse_u64, u64_to_string,
};
use vstd::arithmetic::div_mod::lemma_multiply_divide_lt;

verus! {

/// The battery color for a capacity percentage: green when nearly full,
/// down to red when nearly empty.
pub open spec fn bat_color(c: nat) -> Seq<char> {
    if c >= 90 {
        green_color()
    } else if c >= 50 {
        text_color()
    } else if c >= 35 {
        lightbrown_color()
    } else if c >= 20 {
        orange_color()
    } else {
        red_color()
    }
}

fn bat_color_str(c: u32) -> (r: &'static str)
    ensures
        r@ == bat_color(c as nat),
{
    if c >= 90 {
        green_color_str()
    } else if c >= 50 {
        text_color_str()
    } else if c >= 35 {
        lightbrown_color_str()
    } else if c >= 20 {
        orange_color_str()
    } else {
        red_color_str()
    }
}

/// The battery markup for the two file readings: the discharging or
/// charging icon painted by capacity, and in detail mode the capacity
/// number. Fails when the capacity file does not hold a number.
pub open spec fn battery_markup(
    capacity_text: Seq<char>,
    status_text: Seq<char>,
    detailed: bool,
) -> Result<Seq<char>, BarError> {
    let ct = trimmed(capacity_text);
    if !is_digits(ct) || dec_val(ct) > u32::MAX {
        Err(BarError::BadNumber)
    } else {
        let c = dec_val(ct);
        let icon = if trimmed(status_text) == "Discharging"@ {
            "\u{f0e7}"@
        } else {
            "\u{f1e6}"@
        };
        let painted = paint_spec(icon, bat_color(c), "F"@);
        if detailed {
            Ok(painted + " "@ + dec_str(c))
        } else {
            Ok(painted)
        }
    }
}

/// Render the battery column from the capacity and status file contents.
pub fn render_battery(capacity_text: &str, status_text: &str, detailed: bool) -> (r: Result<
    String,
    BarError,
>)
    ensures
        match r {
            Ok(s) => battery_markup(capacity_text@, status_text@, detailed) == Ok::<
                Seq<char>,
                BarError,
            >(s@),
            Err(e) => battery_markup(capacity_text@, status_text@, detailed) == Err::<
                Seq<char>,
                BarError,
            >(e),
        },
{
    let ct = trim(capacity_text);
    match parse_u32(ct.as_str()) {
        None => Err(BarError::BadNumber),
        Some(c) => {
            let st = trim(status_text);
            let icon = if str_eq(st.as_str(), "Discharging") {
                "\u{f0e7}"
            } else {
                "\u{f1e6}"
            };
            let mut painted = paint(icon, bat_color_str(c), "F");
            if detailed {
                painted.append(" ");
                painted.append(u64_to_string(c as u64).as_str());
                proof {
                    assert(painted@ =~= paint_spec(
                        if trimmed(status_text@) == "Discharging"@ {
                            "\u{f0e7}"@
                        } else {
                            "\u{f1e6}"@
                        },
                        bat_color(dec_val(trimmed(capacity_text@))),
                        "F"@,
                    ) + " "@ + dec_str(dec_val(trimmed(capacity_text@))));
                }
            }
            Ok(painted)
        },
    }
}

/// The view of an optional reading.
pub open spec fn opt_view(o: Option<String>) -> Option<Seq<char>> {
    match o {
        Option::Some(s) => Some(s@),
        Option::None => None,
    }
}

/// The network markup. An unreadable wireless state paints an error
/// indicator; a wireless link that is exactly "up" paints the wireless
/// icon green; otherwise the ethernet state decides: unreadable is a
/// failure, "up" paints the ethernet icon green, anything else paints the
/// wireless icon red.
pub open spec fn network_markup(wl: Option<Seq<char>>, eth: Option<Seq<char>>) -> Result<
    Seq<char>,
    BarError,
> {
    match wl {
        None => Ok(paint_spec("ERROR"@, red_color(), "F"@)),
        Some(w) => if trimmed(w) == "up"@ {
            Ok(paint_spec("\u{f1eb}"@, green_color(), "F"@))
        } else {
            match eth {
                None => Err(BarError::MissingInput),
                Some(e) => if trimmed(e) == "up"@ {
                    Ok(paint_spec("\u{f796}"@, green_color(), "F"@))
                } else {
                    Ok(paint_spec("\u{f1eb}"@, red_color(), "F"@))
                },
            }
        },
    }
}

/// Render the network column from the operstate file contents, `None`
/// standing for an unreadable file.
pub fn render_network(wl: &Option<String>, eth: &Option<String>) -> (r: Result<String, BarError>)
    ensures
        match r {
            Ok(s) => network_markup(opt_view(*wl), opt_view(*eth)) == Ok::<Seq<char>, BarError>(
                s@,
            ),
            Err(e) => network_markup(opt_view(*wl), opt_view(*eth)) == Err::<Seq<char>, BarError>(
                e,
            ),
        },
{
    match wl {
        None => Ok(paint("ERROR", red_color_str(), "F")),
        Some(w) => {
            let wt = trim(w.as_str());
            if str_eq(wt.as_str(), "up") {
                Ok(paint("\u{f1eb}", green_color_str(), "F"))
            } else {
                match eth {
                    None => Err(BarError::MissingInput),
                    Some(e) => {
                        let et = trim(e.as_str());
                        if str_eq(et.as_str(), "up") {
                            Ok(paint("\u{f796}", green_color_str(), "F"))
                        } else {
                            Ok(paint("\u{f1eb}", red_color_str(), "F"))
                        }
                    },
                }
            }
        },
    }
}

/// The first space at or after `from`.
pub open spec fn find_space(s: Seq<char>, from: int) -> Option<int>
    decreases s.len() - from,
{
    if from < 0 || from >= s.len() {
        None
    } else if s[from] == ' ' {
        Some(from)
    } else {
        find_space(s, from + 1)
    }
}

proof fn lemma_find_space_bounds(s: Seq<char>, from: int)
    requires
        find_space(s, from) is Some,
    ensures
        from <= find_space(s, from)->Some_0 < s.len(),
        s[find_space(s, from)->Some_0] == ' ',
    decreases s.len() - from,
{
    if !(from < 0 || from >= s.len()) && s[from] != ' ' {
        lemma_find_space_bounds(s, from + 1);
    }
}

/// The fields of `s` from `from` on, split on single spaces: consecutive
/// spaces yield empty fields, as the source text format demands.
pub open spec fn split_sp_from(s: Seq<char>, from: int) -> Seq<Seq<char>>
    decreases s.len() - from + 1,
    via split_sp_from_decreases
{
    if !(0 <= from <= s.len()) {
        Seq::empty()
    } else {
        match find_space(s, from) {
            None => seq![s.subrange(from, s.len() as int)],
            Some(i) => seq![s.subrange(from, i)] + split_sp_from(s, i + 1),
        }
    }
}

#[via_fn]
proof fn split_sp_from_decreases(s: Seq<char>, from: int) {
    if 0 <= from <= s.len() {
        if find_space(s, from) is Some {
            lemma_find_space_bounds(s, from);
        }
    }
}

fn find_space_exec(s: &str, from: usize) -> (r: Option<usize>)
    requires
        from <= s@.len(),
    ensures
        match r {
            Some(i) => find_space(s@, from as int) == Some(i as int) && from <= i < s@.len(),
            None => find_space(s@, from as int) is None,
        },
{
    let len = s.unicode_len();
    let mut i = from;
    while i < len
        invariant
            from <= i <= len,
            len == s@.len(),
            find_space(s@, from as int) == find_space(s@, i as int),
        decreases len - i,
    {
        if s.get_char(i) == ' ' {
            return Some(i);
        }
        proof {
            assert(find_space(s@, i as int) == find_space(s@, i as int + 1));
        }
        i = i + 1;
    }
    None
}

/// Split on single spaces, as the system statistics format demands.
pub fn split_spaces(s: &str) -> (r: Vec<String>)
    ensures
        r@.map_values(|t: String| t@) == split_sp_from(s@, 0),
{
    let len = s.unicode_len();
    let mut out: Vec<String> = Vec::new();
    let mut pos: usize = 0;
    proof {
        assert(out@.map_values(|t: String| t@) =~= Seq::<Seq<char>>::empty());
    }
    loop
        invariant
            0 <= pos <= len,
            len == s@.len(),
            split_sp_from(s@, 0) == out@.map_values(|t: String| t@) + split_sp_from(
                s@,
                pos as int,
            ),
        decreases len - pos,
    {
        let ghost pre = out@.map_values(|t: String| t@);
        match find_space_exec(s, pos) {
            None => {
                let t = String::from_str(s.substring_char(pos, len));
                out.push(t);
                proof {
                    assert(out@.map_values(|t: String| t@) =~= pre + seq![s@.subrange(
                        pos as int,
                        len as int,
                    )]);
                    assert(split_sp_from(s@, pos as int) == seq![s@.subrange(
                        pos as int,
                        len as int,
                    )]);
                }
                return out;
            },
            Some(i) => {
                let t = String::from_str(s.substring_char(pos, i));
                out.push(t);
                proof {
                    assert(out@.map_values(|t: String| t@) =~= pre + seq![s@.subrange(
                        pos as int,
                        i as int,
                    )]);
                    assert(split_sp_from(s@, pos as int) == seq![s@.subrange(pos as int, i as int)]
                        + split_sp_from(s@, i as int + 1));
                    assert(pre + (seq![s@.subrange(pos as int, i as int)] + split_sp_from(
                        s@,
                        i as int + 1,
                    )) =~= (pre + seq![s@.subrange(pos as int, i as int)]) + split_sp_from(
                        s@,
                        i as int + 1,
                    ));
                }
                pos = i + 1;
            },
        }
    }
}

/// The statistics line is usable: at least nine space-separated fields,
/// fields two through eight each one or more digits fitting a machine
/// word, and their sum fitting too.
pub open spec fn stat_ok(toks: Seq<Seq<char>>) -> bool {
    toks.len() >= 9 && (forall|k: int|
        2 <= k < 9 ==> is_digits(#[trigger] toks[k]) && dec_val(toks[k]) <= u64::MAX)
        && stat_total(toks) <= u64::MAX
}

/// The total time: the sum of parsed fields two through eight.
pub open spec fn stat_total(toks: Seq<Seq<char>>) -> int {
    dec_val(toks[2]) + dec_val(toks[3]) + dec_val(toks[4]) + dec_val(toks[5]) + dec_val(toks[6])
        + dec_val(toks[7]) + dec_val(toks[8]) as int
}

/// The idle time: parsed field index three of the seven, field five of the
/// line.
pub open spec fn stat_idle(toks: Seq<Seq<char>>) -> int {
    dec_val(toks[5]) as int
}

/// The load color: green when idle, through to red when saturated.
pub open spec fn cpu_color(load: int) -> Seq<char> {
    if load >= 80 {
        red_color()
    } else if load >= 40 {
        orange_color()
    } else if load >= 20 {
        lightbrown_color()
    } else if load >= 10 {
        text_color()
    } else {
        green_color()
    }
}

fn cpu_color_str(load: u64) -> (r: &'static str)
    ensures
        r@ == cpu_color(load as int),
{
    if load >= 80 {
        red_color_str()
    } else if load >= 40 {
        orange_color_str()
    } else if load >= 20 {
        lightbrown_color_str()
    } else if load >= 10 {
        text_color_str()
    } else {
        green_color_str()
    }
}

/// The processor markup for one statistics reading against the previous
/// sample: the load is one hundred minus the idle share of the elapsed
/// time, rounded to the nearest percent (computed in integers). Fails
/// with a parse error when the line is unusable, and with a sample error
/// when the counters did not advance consistently.
pub open spec fn cpu_markup(
    stat: Seq<char>,
    last_idle: u64,
    last_total: u64,
    detailed: bool,
) -> Result<(Seq<char>, u64, u64), BarError> {
    let toks = split_sp_from(stat, 0);
    if !stat_ok(toks) {
        Err(BarError::BadNumber)
    } else {
        let idle = stat_idle(toks);
        let total = stat_total(toks);
        if total <= last_total || idle < last_idle || idle - last_idle > total - last_total {
            Err(BarError::BadCpuSample)
        } else {
            let di = idle - last_idle;
            let dt = total - last_total;
            let load = 100 - (200 * di + dt) / (2 * dt);
            let painted = paint_spec("\u{f2db}"@, cpu_color(load), "F"@);
            let s = if detailed {
                painted + " "@ + dec_str(load as nat)
            } else {
                painted
            };
            Ok((s, idle as u64, total as u64))
        }
    }
}

/// Render the processor column from the statistics line and the previous
/// sample; returns the markup and the new sample.
pub fn render_cpu(stat_text: &str, last_idle: u64, last_total: u64, detailed: bool) -> (r: Result<
    (String, u64, u64),
    BarError,
>)
    ensures
        match r {
            Ok(t) => cpu_markup(stat_text@, last_idle, last_total, detailed) == Ok::<
                (Seq<char>, u64, u64),
                BarError,
            >((t.0@, t.1, t.2)),
            Err(e) => cpu_markup(stat_text@, last_idle, last_total, detailed) == Err::<
                (Seq<char>, u64, u64),
                BarError,
            >(e),
        },
{
    let ghost toks = split_sp_from(stat_text@, 0);
    let fields = split_spaces(stat_text);
    if fields.len() < 9 {
        return Err(BarError::BadNumber);
    }
    let mut vals: Vec<u64> = Vec::new();
    let mut k: usize = 0;
    let mut total: u64 = 0;
    while k < 7
        invariant
            0 <= k <= 7,
            toks == split_sp_from(stat_text@, 0),
            fields@.map_values(|t: String| t@) == toks,
            fields@.len() >= 9,
            vals@.len() == k,
            forall|j: int|
                2 <= j < k + 2 ==> is_digits(#[trigger] toks[j]) && dec_val(toks[j]) <= u64::MAX
                    && vals@[j - 2] == dec_val(toks[j]),
            total as int == partial_total(toks, k as int),
        decreases 7 - k,
    {
        proof {
            assert(toks[k as int + 2] == fields@[k as int + 2]@);
        }
        match parse_u64(fields[k + 2].as_str()) {
            None => {
                return Err(BarError::BadNumber);
            },
            Some(v) => {
                if total as u128 + v as u128 > 0xFFFFFFFFFFFFFFFFu128 {
                    proof {
                        assert(partial_total(toks, k as int + 1) > u64::MAX);
                        lemma_partial_total_grows(toks, k as int + 1);
                        lemma_partial_is_total(toks);
                    }
                    return Err(BarError::BadNumber);
                }
                vals.push(v);
                total = total + v;
            },
        }
        k = k + 1;
    }
    proof {
        assert(partial_total(toks, 0) == 0);
        assert(partial_total(toks, 1) == partial_total(toks, 0) + dec_val(toks[2]));
        assert(partial_total(toks, 2) == partial_total(toks, 1) + dec_val(toks[3]));
        assert(partial_total(toks, 3) == partial_total(toks, 2) + dec_val(toks[4]));
        assert(partial_total(toks, 4) == partial_total(toks, 3) + dec_val(toks[5]));
        assert(partial_total(toks, 5) == partial_total(toks, 4) + dec_val(toks[6]));
        assert(partial_total(toks, 6) == partial_total(toks, 5) + dec_val(toks[7]));
        assert(partial_total(toks, 7) == partial_total(toks, 6) + dec_val(toks[8]));
        assert(partial_total(toks, 7) == stat_total(toks));
        assert(stat_ok(toks));
    }
    let idle = vals[3];
    if total <= last_total || idle < last_idle || idle - last_idle > total - last_total {
        return Err(BarError::BadCpuSample);
    }
    let di = idle - last_idle;
    let dt = total - last_total;
    let q128 = (200u128 * (di as u128) + (dt as u128)) / (2u128 * (dt as u128));
    proof {
        assert(200 * (di as int) + (dt as int) < (2 * (dt as int)) * 101) by {
            assert(200 * (di as int) <= 200 * (dt as int));
        }
        lemma_multiply_divide_lt(200 * (di as int) + (dt as int), 2 * (dt as int), 101);
        assert(q128 as int == (200 * (di as int) + (dt as int)) / (2 * (dt as int)));
        assert(q128 <= 100);
    }
    let q = q128 as u64;
    let load = 100 - q;
    let painted = paint("\u{f2db}", cpu_color_str(load), "F");
    if detailed {
        let mut s = painted;
        s.append(" ");
        s.append(u64_to_string(load).as_str());
        proof {
            assert(s@ =~= paint_spec("\u{f2db}"@, cpu_color(load as int), "F"@) + " "@ + dec_str(
                load as nat,
            ));
        }
        Ok((s, idle, total))
    } else {
        Ok((painted, idle, total))
    }
}

/// The sum of the first `k` of the seven parsed fields.
pub open spec fn partial_total(toks: Seq<Seq<char>>, k: int) -> int
    decreases k,
{
    if k <= 0 {
        0
    } else {
        partial_total(toks, k - 1) + dec_val(toks[k + 1])
    }
}

/// The running sum over all seven fields is the total.
proof fn lemma_partial_is_total(toks: Seq<Seq<char>>)
    ensures
        partial_total(toks, 7) == stat_total(toks),
{
    assert(partial_total(toks, 0) == 0);
    assert(partial_total(toks, 1) == partial_total(toks, 0) + dec_val(toks[2]));
    assert(partial_total(toks, 2) == partial_total(toks, 1) + dec_val(toks[3]));
    assert(partial_total(toks, 3) == partial_total(toks, 2) + dec_val(toks[4]));
    assert(partial_total(toks, 4) == partial_total(toks, 3) + dec_val(toks[5]));
    assert(partial_total(toks, 5) == partial_total(toks, 4) + dec_val(toks[6]));
    assert(partial_total(toks, 6) == partial_total(toks, 5) + dec_val(toks[7]));
    assert(partial_total(toks, 7) == partial_total(toks, 6) + dec_val(toks[8]));
}

/// Each parsed field only adds to the total.
proof fn lemma_partial_total_grows(toks: Seq<Seq<char>>, k: int)
    requires
        0 <= k <= 7,
    ensures
        partial_total(toks, 7) >= partial_total(toks, k),
    decreases 7 - k,
{
    if k < 7 {
        lemma_partial_total_grows(toks, k + 1);
    }
}

} // verus!
