//! System readings: battery, network and processor markup, with every
//! failure case.

use bardata::BarError;
use bardata::sysmod::{render_battery, render_network, render_cpu, split_spaces};

#[test]
fn battery_discharging_middle_capacity() {
    let r = render_battery("42\n", "Discharging\n", false).unwrap();
    assert_eq!(r, "%{F#f4cf86}\u{f0e7}%{F#f8f6f2}");
}

#[test]
fn battery_charging_icon_and_detail() {
    let r = render_battery("97\n", "Charging\n", true).unwrap();
    assert_eq!(r, "%{F#aeee00}\u{f1e6}%{F#f8f6f2} 97");
}

#[test]
fn battery_thresholds_pick_colors() {
    assert!(render_battery("5", "Discharging", false).unwrap().contains("#ff2c4b"));
    assert!(render_battery("20", "Discharging", false).unwrap().contains("#ffa724"));
    assert!(render_battery("35", "Discharging", false).unwrap().contains("#f4cf86"));
    assert!(render_battery("50", "Discharging", false).unwrap().contains("#f8f6f2"));
    assert!(render_battery("90", "Discharging", false).unwrap().contains("#aeee00"));
}

#[test]
fn battery_rejects_non_numeric_capacity() {
    assert_eq!(
        render_battery("not a number\n", "Discharging\n", false),
        Err(BarError::BadNumber)
    );
}

#[test]
fn network_wireless_up() {
    let r = render_network(&Some("up\n".to_string()), &None).unwrap();
    assert_eq!(r, "%{F#aeee00}\u{f1eb}%{F#f8f6f2}");
}

#[test]
fn network_falls_back_to_ethernet() {
    let r = render_network(&Some("down\n".to_string()), &Some("up\n".to_string())).unwrap();
    assert_eq!(r, "%{F#aeee00}\u{f796}%{F#f8f6f2}");
}

#[test]
fn network_all_down_paints_wireless_red() {
    let r = render_network(&Some("down\n".to_string()), &Some("down\n".to_string())).unwrap();
    assert_eq!(r, "%{F#ff2c4b}\u{f1eb}%{F#f8f6f2}");
}

#[test]
fn network_unreadable_wireless_is_error_fragment() {
    let r = render_network(&None, &None).unwrap();
    assert_eq!(r, "%{F#ff2c4b}ERROR%{F#f8f6f2}");
}

#[test]
fn network_unreadable_ethernet_is_fatal() {
    assert_eq!(
        render_network(&Some("down\n".to_string()), &None),
        Err(BarError::MissingInput)
    );
}

#[test]
fn split_spaces_keeps_empty_fields() {
    let toks = split_spaces("cpu  1 2");
    assert_eq!(toks, vec!["cpu", "", "1", "2"]);
    assert_eq!(split_spaces(""), vec![""]);
}

#[test]
fn cpu_load_rounded_from_counters() {
    // Fields: user 10, nice 0, system 10, idle 70, iowait 0, irq 0,
    // softirq 10. Total 100, idle 70, so the load is 30.
    let stat = "cpu  10 0 10 70 0 0 10 0 0 0\ncpu0 1 2 3";
    let (s, idle, total) = render_cpu(stat, 0, 0, true).unwrap();
    assert_eq!(idle, 70);
    assert_eq!(total, 100);
    assert_eq!(s, "%{F#f4cf86}\u{f2db}%{F#f8f6f2} 30");
}

#[test]
fn cpu_second_sample_uses_deltas() {
    let first = "cpu  10 0 10 70 0 0 10 x";
    let (_, idle, total) = render_cpu(first, 0, 0, false).unwrap();
    // Ten more ticks, nine of them idle: the load rounds to 10.
    let second = "cpu  11 0 10 79 0 0 10 x";
    let (s, idle2, total2) = render_cpu(second, idle, total, false).unwrap();
    assert_eq!(idle2, 79);
    assert_eq!(total2, 110);
    assert_eq!(s, "%{F#f8f6f2}\u{f2db}%{F#f8f6f2}");
}

#[test]
fn cpu_rejects_short_or_bad_line() {
    assert_eq!(render_cpu("cpu 1 2 3", 0, 0, false), Err(BarError::BadNumber));
    assert_eq!(
        render_cpu("cpu  a 0 0 0 0 0 0 0 0", 0, 0, false),
        Err(BarError::BadNumber)
    );
}

#[test]
fn cpu_rejects_backwards_counters() {
    let stat = "cpu  10 0 10 70 0 0 10 0 0 0";
    assert_eq!(render_cpu(stat, 0, 200, false), Err(BarError::BadCpuSample));
    assert_eq!(render_cpu(stat, 99, 50, false), Err(BarError::BadCpuSample));
}
