use crest::bar::{
    bar_y, monitors_or_default, parse_color_argb, target_monitors, wheel_event, window_action, zone_indices, Rect,
    WindowAction, WindowMessage, MODULE_TICK_TIMER_ID,
};
use crest::config::types::ModuleEntry;
use crest::module::cpu::cpu_time_split;
use crest::module::custom::{trim_output, CustomModule, CustomOutput};
use crest::module::memory::MemoryModule;
use crest::module::network::{
    traffic_totals, InterfaceCounters, NetworkModule, NetworkReading, IF_TYPE_SOFTWARE_LOOPBACK,
};
use crest::module::{BarRegion, ModuleEvent};
use crest::text::{parse_unsigned, push_decimal};

fn rect(x: i32, y: i32, w: u32, h: u32) -> Rect {
    Rect::new(x, y, w, h)
}

#[test]
fn test_bar_position() {
    let m = rect(0, 0, 1920, 1080);
    assert_eq!(bar_y("top", m, 32), 0);
    assert_eq!(bar_y("bottom", m, 32), 1048);
    assert_eq!(bar_y("middle", m, 32), 0);
    let m2 = rect(1920, -200, 1280, 1024);
    assert_eq!(bar_y("bottom", m2, 30), 794);
}

#[test]
fn test_target_monitors() {
    let ms = vec![rect(1920, 0, 1280, 1024), rect(0, 0, 1920, 1080), rect(-1280, 0, 1280, 1024)];
    let all = target_monitors(ms.clone(), true);
    assert_eq!(all.len(), 3);
    let primary = target_monitors(ms.clone(), false);
    assert_eq!(primary.len(), 1);
    assert_eq!((primary[0].x, primary[0].y, primary[0].width), (0, 0, 1920));
    let none = target_monitors(vec![rect(100, 100, 800, 600)], false);
    assert_eq!(none.len(), 1);
    assert_eq!((none[0].x, none[0].y, none[0].width, none[0].height), (0, 0, 1920, 32));
    let d = monitors_or_default(vec![]);
    assert_eq!((d[0].width, d[0].height), (1920, 1080));
    assert_eq!(monitors_or_default(ms).len(), 3);
}

#[test]
fn test_wheel_direction() {
    assert_eq!(wheel_event(120), ModuleEvent::ScrollUp);
    assert_eq!(wheel_event(-120), ModuleEvent::ScrollDown);
    assert_eq!(wheel_event(0), ModuleEvent::ScrollDown);
}

#[test]
fn test_cpu_time_split() {
    assert_eq!(cpu_time_split((0, 100, 0), (100, 200, 0)), (0, 100));
    assert_eq!(cpu_time_split((0, 0, 0), (100, 150, 50)), (100, 200));
    assert_eq!(cpu_time_split((0, 0, 0), (0, 100, 50)), (150, 150));
    assert_eq!(cpu_time_split((5, 5, 5), (5, 5, 5)), (0, 0));
    // counters that went backwards count as no time
    assert_eq!(cpu_time_split((50, 50, 50), (10, 60, 40)), (10, 10));
}

#[test]
fn test_memory_snapshot() {
    let m = MemoryModule::new(&ModuleEntry::default());
    let s = m.snapshot(Some("4.0/16.0 GB".to_string()));
    assert_eq!(s.text, "4.0/16.0 GB");
    assert_eq!(s.region, BarRegion::Right);
    assert_eq!(m.snapshot(None).text, "MEM ?");
}

#[test]
fn test_custom_output() {
    assert_eq!(trim_output("  hello \n"), "hello");
    let mut e = ModuleEntry::default();
    e.extra.insert("command".to_string(), "echo hi".to_string());
    let m = CustomModule::new(&e);
    assert_eq!(m.command_text(), "echo hi");
    let plain = m.output_snapshot("hi".to_string(), None);
    assert_eq!(plain.text, "hi");
    let json = CustomOutput { text: Some("from json".to_string()), fg: Some("#ff0000".to_string()) };
    let s = m.output_snapshot("{}".to_string(), Some(json));
    assert_eq!(s.text, "from json");
    assert_eq!(s.fg, Some("#ff0000".to_string()));
}

#[test]
fn test_network_rates() {
    let mut m = NetworkModule::new(&ModuleEntry::default(), Some((1000, 500)));
    match m.observe(Some((3048, 1500)), true) {
        NetworkReading::Delta { rx_bytes, tx_bytes } => {
            assert_eq!(rx_bytes, 2048);
            assert_eq!(tx_bytes, 1000);
        }
        _ => panic!("a second sample gives a delta"),
    }
    let s = m.show("↓ 2 kB/s ↑ 1000 B/s".to_string());
    assert_eq!(s.text, "↓ 2 kB/s ↑ 1000 B/s");
    match m.observe(None, true) {
        NetworkReading::Text(t) => assert_eq!(t, "no network"),
        _ => panic!("a failed sample shows no network"),
    }
    match m.observe(Some((4000, 2000)), false) {
        NetworkReading::Text(t) => assert_eq!(t, "↓ 2 kB/s ↑ 1000 B/s"),
        _ => panic!("no time passed: the last text stays"),
    }
    assert_eq!(m.initial().text, "↓ 2 kB/s ↑ 1000 B/s");
}

#[test]
fn test_decimal_text_round_trip() {
    let mut s = String::new();
    push_decimal(&mut s, 0);
    s.push(' ');
    push_decimal(&mut s, 18446744073709551615);
    assert_eq!(s, "0 18446744073709551615");
    let digits: Vec<char> = "4096".chars().collect();
    assert_eq!(parse_unsigned(&digits, u32::MAX as u64), Some(4096));
    let big: Vec<char> = "4294967296".chars().collect();
    assert_eq!(parse_unsigned(&big, u32::MAX as u64), None);
    let bad: Vec<char> = "12a".chars().collect();
    assert_eq!(parse_unsigned(&bad, u64::MAX), None);
}

struct ColorF {
    r: f32,
    g: f32,
    b: f32,
    a: f32,
}

/// The colour as the renderer uses it: each component over 255.
fn parse_color(hex: &str) -> ColorF {
    let (a, r, g, b) = parse_color_argb(hex);
    ColorF { r: r as f32 / 255.0, g: g as f32 / 255.0, b: b as f32 / 255.0, a: a as f32 / 255.0 }
}

#[test]
fn test_parse_color_rrggbb() {
    let c = parse_color("#ffffff");
    assert!((c.r - 1.0).abs() < 0.01);
    assert!((c.g - 1.0).abs() < 0.01);
    assert!((c.b - 1.0).abs() < 0.01);
    assert!((c.a - 1.0).abs() < 0.01);
}

#[test]
fn test_parse_color_aarrggbb() {
    let c = parse_color("#ee1e1e1e");
    assert!((c.a - 0xEE as f32 / 255.0).abs() < 0.01);
    assert!((c.r - 0x1e as f32 / 255.0).abs() < 0.01);
}

#[test]
fn test_parse_color_default_config_bg() {
    let c = parse_color("#1e1e1eee");
    assert!((c.a - 0x1e as f32 / 255.0).abs() < 0.01);
    assert!((c.r - 0x1e as f32 / 255.0).abs() < 0.01);
}

#[test]
fn test_parse_color_components() {
    assert_eq!(parse_color_argb("#7fc8ff"), (0xFF, 0x7F, 0xC8, 0xFF));
    assert_eq!(parse_color_argb("  ##80FF8000 "), (0x80, 0xFF, 0x80, 0x00));
    assert_eq!(parse_color_argb("#abc"), (0xFF, 0, 0, 0));
    assert_eq!(parse_color_argb("#fff"), (0xFF, 0, 0, 0));
    assert_eq!(parse_color_argb("#12345g"), (0xFF, 0, 0, 0));
    assert_eq!(parse_color_argb("not a colour"), (0xFF, 0, 0, 0));
    assert_eq!(parse_color_argb(""), (0xFF, 0, 0, 0));
    assert_eq!(parse_color_argb("#123456789"), (0xFF, 0, 0, 0));
    assert_eq!(parse_color_argb("+ff0000"), (0xFF, 0, 0, 0));
    assert_eq!(parse_color_argb("ff0000"), (0xFF, 0xFF, 0x00, 0x00));
}

#[test]
fn test_window_actions() {
    assert_eq!(window_action(WindowMessage::Timer { id: MODULE_TICK_TIMER_ID }), WindowAction::TickModules);
    assert_eq!(window_action(WindowMessage::Timer { id: 99 }), WindowAction::Nothing);
    assert_eq!(window_action(WindowMessage::Paint), WindowAction::Paint);
    assert_eq!(
        window_action(WindowMessage::Size { width: 800, height: 32 }),
        WindowAction::Resize { width: 800, height: 32 }
    );
    assert_eq!(window_action(WindowMessage::Size { width: 0, height: 32 }), WindowAction::Nothing);
    assert_eq!(
        window_action(WindowMessage::ButtonUp { event: ModuleEvent::RightClick, x: 12 }),
        WindowAction::Dispatch { x: 12, event: ModuleEvent::RightClick }
    );
    assert_eq!(
        window_action(WindowMessage::Wheel { delta: -120, x: 5 }),
        WindowAction::Dispatch { x: 5, event: ModuleEvent::ScrollDown }
    );
    assert_eq!(window_action(WindowMessage::Destroy), WindowAction::Quit);
    assert_eq!(window_action(WindowMessage::Other), WindowAction::Default);
    assert_eq!(window_action(WindowMessage::Create), WindowAction::Nothing);
}

#[test]
fn test_zone_indices() {
    let mk = |region: BarRegion| crest::module::ModuleSnapshot { text: String::new(), fg: None, icon: None, region };
    let snaps = vec![mk(BarRegion::Right), mk(BarRegion::Left), mk(BarRegion::Right), mk(BarRegion::Center)];
    assert_eq!(zone_indices(&snaps, BarRegion::Left), vec![1]);
    assert_eq!(zone_indices(&snaps, BarRegion::Right), vec![0, 2]);
    assert_eq!(zone_indices(&snaps, BarRegion::Center), vec![3]);
    assert_eq!(zone_indices(&vec![], BarRegion::Left), Vec::<usize>::new());
}

/// The usage as the CPU module shows it: busy over total time, in percent.
fn cpu_percent(prev: (u64, u64, u64), curr: (u64, u64, u64)) -> f64 {
    let (busy, total) = cpu_time_split(prev, curr);
    if total == 0 {
        return 0.0;
    }
    (busy as f64 / total as f64) * 100.0
}

#[test]
fn test_cpu_delta_idle() {
    let prev = (0, 100, 0);
    let curr = (100, 200, 0);
    assert_eq!(cpu_percent(prev, curr), 0.0);
}

#[test]
fn test_cpu_delta_half() {
    let prev = (0, 0, 0);
    let curr = (100, 150, 50);
    let pct = cpu_percent(prev, curr);
    assert!((pct - 50.0).abs() < 0.01, "expected 50%, got {}", pct);
}

#[test]
fn test_cpu_delta_full() {
    let prev = (0, 0, 0);
    let curr = (0, 100, 50);
    let pct = cpu_percent(prev, curr);
    assert!((pct - 100.0).abs() < 0.01);
}

#[test]
fn test_cpu_delta_zero_total() {
    assert_eq!(cpu_percent((5, 5, 5), (5, 5, 5)), 0.0);
}

#[test]
fn test_traffic_totals_skip_loopback() {
    let rows = vec![
        InterfaceCounters { if_type: 6, in_octets: 1000, out_octets: 200 },
        InterfaceCounters { if_type: IF_TYPE_SOFTWARE_LOOPBACK, in_octets: 50, out_octets: 50 },
        InterfaceCounters { if_type: 71, in_octets: u32::MAX, out_octets: 3 },
    ];
    assert_eq!(traffic_totals(&rows), (1000 + u32::MAX as u64, 203));
    assert_eq!(traffic_totals(&vec![]), (0, 0));
}
