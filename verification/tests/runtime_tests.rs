use std::time::Duration;

use crest::config::types::{ModuleEntry, ModulesConfig};
use crest::module::runtime::{coarse_zone, ModuleRuntime};
use crest::module::{BarRegion, Module, ModuleEvent, ModuleRegistry, ModuleSnapshot};

struct EchoModule {
    text: String,
}

impl Module for EchoModule {
    fn kind(&self) -> &'static str {
        "echo"
    }
    fn initial(&self) -> ModuleSnapshot {
        ModuleSnapshot { text: self.text.clone(), fg: None, icon: None, region: BarRegion::Left }
    }
    fn tick(&mut self) -> ModuleSnapshot {
        self.initial()
    }
    fn interval(&self) -> Duration {
        Duration::from_secs(1)
    }
    fn on_event(&mut self, _event: ModuleEvent) -> Option<String> {
        None
    }
}

struct SlowModule {
    ticked: bool,
}

impl Module for SlowModule {
    fn kind(&self) -> &'static str {
        "slow"
    }
    fn initial(&self) -> ModuleSnapshot {
        ModuleSnapshot { text: "init".to_string(), ..Default::default() }
    }
    fn tick(&mut self) -> ModuleSnapshot {
        self.ticked = true;
        ModuleSnapshot { text: "ticked".to_string(), ..Default::default() }
    }
    fn interval(&self) -> Duration {
        Duration::from_secs(10)
    }
    fn on_event(&mut self, _event: ModuleEvent) -> Option<String> {
        None
    }
}

struct ClickModule;

impl Module for ClickModule {
    fn kind(&self) -> &'static str {
        "clicker"
    }
    fn initial(&self) -> ModuleSnapshot {
        ModuleSnapshot::default()
    }
    fn tick(&mut self) -> ModuleSnapshot {
        ModuleSnapshot::default()
    }
    fn on_event(&mut self, event: ModuleEvent) -> Option<String> {
        if event == ModuleEvent::LeftClick {
            Some("echo clicked".to_string())
        } else {
            None
        }
    }
    fn interval(&self) -> Duration {
        Duration::from_secs(1)
    }
}

fn make_entry(kind: &str) -> ModuleEntry {
    ModuleEntry { kind: kind.to_string(), ..Default::default() }
}

fn make_registry_with_echo() -> ModuleRegistry {
    let mut reg = ModuleRegistry::new();
    reg.register(
        "echo",
        Box::new(|_entry: &ModuleEntry| -> Box<dyn Module> { Box::new(EchoModule { text: "hello".to_string() }) }),
    );
    reg
}

const START_MS: u64 = 1_000_000;

#[test]
fn test_module_runtime_initial_populates_snapshots() {
    let registry = make_registry_with_echo();
    let config = ModulesConfig { left: vec![make_entry("echo")], center: vec![], right: vec![] };
    let runtime = ModuleRuntime::new(&config, &registry, START_MS);
    let snaps = runtime.snapshots();
    assert_eq!(snaps.len(), 1);
    assert_eq!(snaps[0].text, "hello");
    assert_eq!(snaps[0].region, BarRegion::Left);
}

#[test]
fn test_module_runtime_tick_respects_interval() {
    let mut reg = ModuleRegistry::new();
    reg.register(
        "slow",
        Box::new(|_entry: &ModuleEntry| -> Box<dyn Module> { Box::new(SlowModule { ticked: false }) }),
    );
    let config = ModulesConfig { left: vec![make_entry("slow")], center: vec![], right: vec![] };
    let mut runtime = ModuleRuntime::new(&config, &reg, START_MS);

    let changed = runtime.tick(START_MS);
    assert!(!changed, "tick should not fire within the 10 s interval");

    let changed = runtime.tick(START_MS + 10_000 + 1);
    assert!(changed, "tick should fire once next_tick has elapsed");
    assert_eq!(runtime.snapshots()[0].text, "ticked");
}

#[test]
fn test_dispatch_event_left_zone() {
    let mut reg = ModuleRegistry::new();
    reg.register("clicker", Box::new(|_e: &ModuleEntry| -> Box<dyn Module> { Box::new(ClickModule) }));

    let config = ModulesConfig {
        left: vec![make_entry("clicker")],
        center: vec![],
        right: vec![make_entry("clicker")],
    };
    let mut runtime = ModuleRuntime::new(&config, &reg, START_MS);
    let bar_w = 1200u32;

    let result = runtime.dispatch_event(0, bar_w, ModuleEvent::LeftClick);
    assert_eq!(result.as_deref(), Some("echo clicked"));

    let result_right = runtime.dispatch_event(1100, bar_w, ModuleEvent::LeftClick);
    assert_eq!(result_right.as_deref(), Some("echo clicked"));
}

#[test]
fn test_unknown_kinds_are_left_out_and_zones_ordered() {
    let registry = make_registry_with_echo();
    let config = ModulesConfig {
        left: vec![make_entry("missing"), make_entry("echo")],
        center: vec![make_entry("echo")],
        right: vec![make_entry("echo"), make_entry("missing")],
    };
    let runtime = ModuleRuntime::new(&config, &registry, 0);
    let snaps = runtime.snapshots();
    assert_eq!(snaps.len(), 3);
    assert_eq!(snaps[0].region, BarRegion::Left);
    assert_eq!(snaps[1].region, BarRegion::Center);
    assert_eq!(snaps[2].region, BarRegion::Right);
}

#[test]
fn test_tick_unchanged_text_reports_no_change() {
    let registry = make_registry_with_echo();
    let config = ModulesConfig { left: vec![make_entry("echo")], center: vec![], right: vec![] };
    let mut runtime = ModuleRuntime::new(&config, &registry, START_MS);
    // the echo module is due after one second, but shows the same text
    assert!(!runtime.tick(START_MS + 5_000));
    assert_eq!(runtime.snapshots()[0].text, "hello");
}

#[test]
fn test_configured_command_comes_first() {
    let mut reg = ModuleRegistry::new();
    reg.register("clicker", Box::new(|_e: &ModuleEntry| -> Box<dyn Module> { Box::new(ClickModule) }));
    let mut entry = make_entry("clicker");
    entry.on_click = Some("notepad".to_string());
    entry.on_scroll_up = Some("vol-up".to_string());
    let config = ModulesConfig { left: vec![], center: vec![entry], right: vec![] };
    let mut runtime = ModuleRuntime::new(&config, &reg, 0);
    assert_eq!(runtime.dispatch_event(600, 1200, ModuleEvent::LeftClick).as_deref(), Some("notepad"));
    assert_eq!(runtime.dispatch_event(600, 1200, ModuleEvent::ScrollUp).as_deref(), Some("vol-up"));
    // no configured command and the module ignores it
    assert_eq!(runtime.dispatch_event(600, 1200, ModuleEvent::ScrollDown), None);
    // nothing in the left zone
    assert_eq!(runtime.dispatch_event(10, 1200, ModuleEvent::LeftClick), None);
}

#[test]
fn test_coarse_zone_thirds() {
    assert_eq!(coarse_zone(0, 1200), BarRegion::Left);
    assert_eq!(coarse_zone(399, 1200), BarRegion::Left);
    assert_eq!(coarse_zone(400, 1200), BarRegion::Center);
    assert_eq!(coarse_zone(799, 1200), BarRegion::Center);
    assert_eq!(coarse_zone(800, 1200), BarRegion::Right);
    assert_eq!(coarse_zone(-5, 1200), BarRegion::Left);
    assert_eq!(coarse_zone(5000, 1200), BarRegion::Right);
}
