use std::sync::{Arc, RwLock};
use std::time::Duration;

use crest::config::types::ModuleEntry;
use crest::module::battery::{BatteryModule, AC_ONLINE, BATTERY_FLAG_NO_BATTERY};
use crest::module::clock::ClockModule;
use crest::module::focused_window::{truncate, FocusedWindowModule};
use crest::module::workspaces::{next_workspace, workspaces_text_of, WorkspacesModule};
use crest::module::{BarRegion, Module, ModuleEvent, ModuleRegistry, ModuleSnapshot, WiriState};

struct StaticModule {
    text: String,
}

impl Module for StaticModule {
    fn kind(&self) -> &'static str {
        "static"
    }
    fn initial(&self) -> ModuleSnapshot {
        ModuleSnapshot { text: self.text.clone(), fg: None, icon: None, region: BarRegion::Left }
    }
    fn tick(&mut self) -> ModuleSnapshot {
        self.initial()
    }
    fn on_event(&mut self, _event: ModuleEvent) -> Option<String> {
        None
    }
    fn interval(&self) -> Duration {
        Duration::from_secs(1)
    }
}

fn entry_with(pairs: &[(&str, &str)]) -> ModuleEntry {
    let mut e = ModuleEntry::default();
    for (k, v) in pairs {
        e.extra.insert(k.to_string(), v.to_string());
    }
    e
}

fn make_state(workspaces: Vec<&str>, focused: usize) -> Arc<RwLock<WiriState>> {
    Arc::new(RwLock::new(WiriState {
        workspaces: workspaces.iter().map(|s| s.to_string()).collect(),
        focused_workspace: focused,
        focused_window_hwnd: None,
        focused_window_title: String::new(),
    }))
}

// ---------------------------------------------------------------------------
// Module trait and registry
// ---------------------------------------------------------------------------

#[test]
fn test_module_trait_dyn() {
    let mut m: Box<dyn Module> = Box::new(StaticModule { text: "hello".to_string() });
    let snap = m.initial();
    assert_eq!(snap.text, "hello");
    assert_eq!(snap.region, BarRegion::Left);
    let tick_snap = m.tick();
    assert_eq!(tick_snap.text, "hello");
    assert!(m.on_event(ModuleEvent::LeftClick).is_none());
    assert_eq!(m.interval(), Duration::from_secs(1));
}

#[test]
fn test_registry_fallback_on_unknown_kind() {
    let registry = ModuleRegistry::new();
    let entry = ModuleEntry { kind: "nonexistent-module-kind".to_string(), ..Default::default() };
    assert!(registry.build(&entry).is_none());
}

#[test]
fn test_registry_builds_registered_kind() {
    let mut registry = ModuleRegistry::new();
    registry.register(
        "static",
        Box::new(|e: &ModuleEntry| -> Box<dyn Module> { Box::new(StaticModule { text: e.format.clone() }) }),
    );
    let entry = ModuleEntry { kind: "static".to_string(), format: "abc".to_string(), ..Default::default() };
    let built = registry.build(&entry);
    assert!(built.is_some());
    assert_eq!(built.unwrap().initial().text, "abc");
    let other = ModuleEntry { kind: "statics".to_string(), ..Default::default() };
    assert!(registry.build(&other).is_none());
}

#[test]
fn test_registry_register_again_replaces_only_that_kind() {
    let mut registry = ModuleRegistry::new();
    registry.register("a", Box::new(|_e: &ModuleEntry| -> Box<dyn Module> { Box::new(StaticModule { text: "first".to_string() }) }));
    registry.register("b", Box::new(|_e: &ModuleEntry| -> Box<dyn Module> { Box::new(StaticModule { text: "other".to_string() }) }));
    registry.register("a", Box::new(|_e: &ModuleEntry| -> Box<dyn Module> { Box::new(StaticModule { text: "second".to_string() }) }));
    let a = ModuleEntry { kind: "a".to_string(), ..Default::default() };
    let b = ModuleEntry { kind: "b".to_string(), ..Default::default() };
    assert_eq!(registry.build(&a).unwrap().initial().text, "second");
    assert_eq!(registry.build(&b).unwrap().initial().text, "other");
}

// ---------------------------------------------------------------------------
// Battery
// ---------------------------------------------------------------------------

fn make_battery() -> BatteryModule {
    BatteryModule::new(&ModuleEntry::default())
}

#[test]
fn test_battery_low_critical() {
    let m = make_battery();
    let snap = m.render(0, 0, 5);
    assert_eq!(snap.fg, Some("#ff5555".to_string()));
    assert!(snap.text.contains("5%"));
    assert!(snap.text.contains("🔋"));
}

#[test]
fn test_battery_warning() {
    let m = make_battery();
    let snap = m.render(0, 0, 15);
    assert_eq!(snap.fg, Some("#ffb86c".to_string()));
}

#[test]
fn test_battery_charging() {
    let m = make_battery();
    let snap = m.render(0, AC_ONLINE, 78);
    assert!(snap.text.contains('⚡'));
    assert!(snap.text.contains("78%"));
    assert_eq!(snap.fg, None);
}

#[test]
fn test_battery_no_battery() {
    let m = make_battery();
    let snap = m.render(BATTERY_FLAG_NO_BATTERY, AC_ONLINE, 255);
    assert_eq!(snap.text, "AC");
}

#[test]
fn test_battery_full_ok() {
    let m = make_battery();
    let snap = m.render(0, 0, 80);
    assert_eq!(snap.fg, None);
}

#[test]
fn test_battery_thresholds_are_inclusive() {
    let m = make_battery();
    assert_eq!(m.render(0, 0, 10).fg, Some("#ff5555".to_string()));
    assert_eq!(m.render(0, 0, 11).fg, Some("#ffb86c".to_string()));
    assert_eq!(m.render(0, 0, 20).fg, Some("#ffb86c".to_string()));
    assert_eq!(m.render(0, 0, 21).fg, None);
    assert_eq!(m.render(0, 0, 100).text, "🔋 100%");
    assert_eq!(m.render(0, 0, 0).text, "🔋 0%");
}

#[test]
fn test_battery_settings_from_entry() {
    let m = BatteryModule::new(&entry_with(&[("warning", "50"), ("critical", "30"), ("region", "left")]));
    let snap = m.render(0, 0, 40);
    assert_eq!(snap.fg, Some("#ffb86c".to_string()));
    assert_eq!(snap.region, BarRegion::Left);
    assert_eq!(m.render(0, 0, 30).fg, Some("#ff5555".to_string()));
    // a setting that does not read as a number keeps the default
    let d = BatteryModule::new(&entry_with(&[("warning", "lots"), ("critical", "300")]));
    assert_eq!(d.render(0, 0, 10).fg, Some("#ff5555".to_string()));
    assert_eq!(d.render(0, 0, 21).fg, None);
}

// ---------------------------------------------------------------------------
// Clock
// ---------------------------------------------------------------------------

#[test]
fn test_clock_interval_without_seconds() {
    let entry = ModuleEntry { format: "%H:%M".to_string(), ..Default::default() };
    let m = ClockModule::new(&entry);
    assert_eq!(m.interval(), Duration::from_secs(30));
}

#[test]
fn test_clock_interval_with_seconds() {
    let entry = ModuleEntry { format: "%H:%M:%S".to_string(), ..Default::default() };
    let m = ClockModule::new(&entry);
    assert_eq!(m.interval(), Duration::from_secs(1));
}

#[test]
fn test_clock_snapshot_nonempty() {
    let entry = ModuleEntry::default();
    let m = ClockModule::new(&entry);
    let snap = m.initial();
    assert!(!snap.text.is_empty());
}

#[test]
fn test_clock_format_from_extra_and_time_shorthand() {
    let m = ClockModule::new(&entry_with(&[("format", "%T")]));
    assert_eq!(m.interval_ms(), 1000);
    let text = m.initial().text;
    assert_eq!(text.len(), 8);
    assert_eq!(text.as_bytes()[2], b':');
    assert_eq!(m.kind(), "clock");
    assert_eq!(m.initial().region, BarRegion::Right);
}

// ---------------------------------------------------------------------------
// Focused window
// ---------------------------------------------------------------------------

#[test]
fn test_truncate_exact() {
    assert_eq!(truncate("hello", 5), "hello");
}

#[test]
fn test_truncate_long() {
    let s = "a".repeat(70);
    let result = truncate(&s, 60);
    assert_eq!(result.chars().count(), 60);
    assert!(result.ends_with('…'));
}

#[test]
fn test_truncate_short() {
    assert_eq!(truncate("hi", 60), "hi");
}

#[test]
fn test_truncate_edges() {
    assert_eq!(truncate("hello", 0), "");
    assert_eq!(truncate("hello", 1), "…");
    assert_eq!(truncate("hello", 4), "hel…");
    assert_eq!(truncate("héllo wörld", 6), "héllo…");
    let once = truncate("abcdefgh", 5);
    assert_eq!(truncate(&once, 5), once);
}

#[test]
fn test_focused_window_snapshot() {
    let state = Arc::new(RwLock::new(WiriState {
        focused_window_title: "Visual Studio Code".to_string(),
        ..Default::default()
    }));
    let entry = ModuleEntry::default();
    let m = FocusedWindowModule::new(&entry, state);
    assert_eq!(m.initial().text, "Visual Studio Code");
}

#[test]
fn test_focused_window_settings() {
    let state = Arc::new(RwLock::new(WiriState {
        focused_window_title: "A rather long window title".to_string(),
        ..Default::default()
    }));
    let m = FocusedWindowModule::new(&entry_with(&[("max-length", "8"), ("region", "right")]), state);
    let snap = m.initial();
    assert_eq!(snap.text, "A rathe…");
    assert_eq!(snap.region, BarRegion::Right);
    let t = m.title_snapshot("short");
    assert_eq!(t.text, "short");
    assert_eq!(t.fg, None);
}

// ---------------------------------------------------------------------------
// Workspaces
// ---------------------------------------------------------------------------

#[test]
fn test_workspace_format_active() {
    let state = make_state(vec!["1", "2", "3", "4", "5"], 2);
    let entry = ModuleEntry::default();
    let m = WorkspacesModule::new(&entry, state);
    let snap = m.initial();
    assert_eq!(snap.text, "1 2 [3] 4 5");
}

#[test]
fn test_workspace_format_empty() {
    let state = make_state(vec![], 0);
    let entry = ModuleEntry::default();
    let m = WorkspacesModule::new(&entry, state);
    assert_eq!(m.initial().text, "—");
}

#[test]
fn test_workspace_text_first_and_none_focused() {
    let s = WiriState {
        workspaces: vec!["web".to_string(), "code".to_string()],
        focused_workspace: 0,
        focused_window_hwnd: None,
        focused_window_title: String::new(),
    };
    assert_eq!(workspaces_text_of(&s), "[web] code");
    let t = WiriState { focused_workspace: 7, ..s };
    assert_eq!(workspaces_text_of(&t), "web code");
}

#[test]
fn test_workspace_switch_targets() {
    assert_eq!(next_workspace(5, 2, ModuleEvent::LeftClick), Some(3));
    assert_eq!(next_workspace(5, 4, ModuleEvent::ScrollDown), Some(0));
    assert_eq!(next_workspace(5, 0, ModuleEvent::RightClick), Some(4));
    assert_eq!(next_workspace(5, 3, ModuleEvent::ScrollUp), Some(2));
    assert_eq!(next_workspace(5, 3, ModuleEvent::MiddleClick), None);
    assert_eq!(next_workspace(0, 0, ModuleEvent::LeftClick), None);
    // scrolling down then up comes back
    let down = next_workspace(3, 2, ModuleEvent::ScrollDown).unwrap();
    assert_eq!(next_workspace(3, down, ModuleEvent::ScrollUp), Some(2));
    let m = WorkspacesModule::new(&ModuleEntry::default(), make_state(vec!["a", "b"], 1));
    assert_eq!(m.switch_target(ModuleEvent::LeftClick), Some(0));
    assert_eq!(m.interval(), Duration::from_millis(500));
    let e = WorkspacesModule::new(&ModuleEntry::default(), make_state(vec![], 0));
    assert_eq!(e.switch_target(ModuleEvent::LeftClick), None);
}

#[test]
fn test_clock_format_hm() {
    // 2024-06-01 14:35:00 at offset 0
    let entry = ModuleEntry { format: "%H:%M".to_string(), ..Default::default() };
    let m = ClockModule::new(&entry);
    assert_eq!(m.snapshot_at(1717252500, 0, 0).text, "14:35");
    assert_eq!(m.snapshot_at(1717252500, 0, 3600).text, "15:35");
    let d = ClockModule::new(&ModuleEntry { format: "%Y-%m-%d %T".to_string(), ..Default::default() });
    assert_eq!(d.snapshot_at(1717252500, 0, 0).text, "2024-06-01 14:35:00");
}
