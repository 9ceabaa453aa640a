use crest::config::parse::{
    apply_bar_property, apply_module_property, apply_style_property, is_module_section,
    is_true_word, parse_bool, parse_kdl_config, parse_property, strip_inline_comment, try_parse_section_open,
    DEFAULT_CONFIG_KDL,
};
use crest::config::types::{BarConfig, ModuleEntry, StringMap, StyleConfig};

fn parse(text: &str) -> crest::config::types::Config {
    match parse_kdl_config(text) {
        Ok(c) => c,
        Err(_) => panic!("the configuration should parse"),
    }
}

/// The font size as the bar reads it: the last `font-size` that reads as a
/// number, 10 points when none does.
fn font_size(style: &StyleConfig) -> f32 {
    let mut size = 10.0_f32;
    for t in &style.font_size_pt_texts {
        if let Ok(v) = t.parse::<f32>() {
            size = v;
        }
    }
    size
}

const SAMPLE_KDL: &str = r##"// crest configuration
log-level "info"

bar {
    position "top"
    height 32
    multi-monitor false
}

style {
    background "#1e1e1eee"
    foreground "#e0e0e0"
    font-family "Segoe UI"
    font-size-pt 10
    padding-px 8
}

modules-left {
    workspaces {
    }
}

modules-center {
    focused-window {
        max-length 60
    }
}

modules-right {
    clock {
        format "%H:%M"
    }
    battery {
        warning 20 // percent
    }
}
"##;

#[test]
fn test_config_sample_parses() {
    let cfg = parse(SAMPLE_KDL);
    assert_eq!(cfg.bar.position, "top");
    assert_eq!(cfg.bar.height, 32);
    assert!(!cfg.bar.multi_monitor);
    assert_eq!(cfg.style.font_family, "Segoe UI");
    assert!((font_size(&cfg.style) - 10.0).abs() < f32::EPSILON);
    assert_eq!(cfg.style.padding_px, 8);
    assert_eq!(cfg.modules.left.len(), 1);
    assert_eq!(cfg.modules.left[0].kind, "workspaces");
    assert_eq!(cfg.modules.center.len(), 1);
    assert_eq!(cfg.modules.center[0].kind, "focused-window");
    assert_eq!(cfg.modules.right.len(), 2);
    assert_eq!(cfg.modules.right[0].kind, "clock");
    assert_eq!(cfg.modules.right[1].kind, "battery");
    assert_eq!(cfg.modules.right[0].format, "%H:%M");
    assert_eq!(cfg.modules.right[1].extra.get("warning"), Some("20".to_string()));
    assert_eq!(cfg.modules.center[0].extra.get("max-length"), Some("60".to_string()));
}

#[test]
fn test_config_default_parses() {
    let cfg = parse(DEFAULT_CONFIG_KDL);
    assert_eq!(cfg.bar.position, "top");
    assert_eq!(cfg.bar.height, 32);
    assert!(!cfg.bar.multi_monitor);
    assert_eq!(cfg.style.font_family, "Segoe UI");
    assert!((font_size(&cfg.style) - 10.0).abs() < f32::EPSILON);
    assert_eq!(cfg.style.padding_px, 8);
    assert_eq!(cfg.modules.left.len(), 1);
    assert_eq!(cfg.modules.left[0].kind, "workspaces");
    assert_eq!(cfg.modules.center.len(), 1);
    assert_eq!(cfg.modules.center[0].kind, "focused-window");
    assert_eq!(cfg.modules.right.len(), 2);
    assert_eq!(cfg.modules.right[0].kind, "clock");
    assert_eq!(cfg.modules.right[1].kind, "battery");
}

#[test]
fn test_inline_comment_stripped() {
    let line = r#"height 32 // this is a comment"#;
    let stripped = strip_inline_comment(line);
    assert_eq!(stripped.trim(), "height 32");
}

#[test]
fn test_parse_property_kdl_style() {
    let result = parse_property(r#"font-family "Segoe UI""#);
    assert_eq!(result, Some(("font-family".to_string(), "Segoe UI".to_string())));
}

#[test]
fn test_parse_property_equals_style() {
    let result = parse_property(r#"height=32"#);
    assert_eq!(result, Some(("height".to_string(), "32".to_string())));
}

#[test]
fn test_comment_inside_quotes_is_kept() {
    assert_eq!(strip_inline_comment(r#"on-click "open http://x" // go"#), r#"on-click "open http://x""#);
    assert_eq!(strip_inline_comment("// whole line"), "");
    assert_eq!(strip_inline_comment("plain"), "plain");
}

#[test]
fn test_parse_property_rejects_non_properties() {
    assert_eq!(parse_property(""), None);
    assert_eq!(parse_property("bar {"), Some(("bar".to_string(), "{".to_string())));
    assert_eq!(parse_property("}"), None);
    assert_eq!(parse_property("lonely"), None);
    assert_eq!(parse_property("  padding-px   8  "), Some(("padding-px".to_string(), "8".to_string())));
    assert_eq!(parse_property(r#"font = "Fira""#), Some(("font".to_string(), "Fira".to_string())));
    assert_eq!(parse_property(r#"format "a=b""#), Some(("format".to_string(), "a=b".to_string())));
    assert_eq!(parse_property(r#"on-click "x" = y"#), Some((r#"on-click "x""#.to_string(), "y".to_string())));
}

#[test]
fn test_section_open() {
    assert_eq!(try_parse_section_open("bar {"), Some("bar".to_string()));
    assert_eq!(try_parse_section_open("  modules   {"), Some("modules".to_string()));
    assert_eq!(try_parse_section_open("height 32"), None);
    assert_eq!(try_parse_section_open("{"), None);
}

#[test]
fn test_parse_bool_words() {
    assert!(parse_bool("true"));
    assert!(parse_bool("YES"));
    assert!(parse_bool("1"));
    assert!(parse_bool("On"));
    assert!(!parse_bool("false"));
    assert!(!parse_bool("maybe"));
    assert!(!parse_bool(""));
}

#[test]
fn test_module_section_names() {
    assert!(is_module_section("modules-left.workspaces"));
    assert!(is_module_section("modules-center.clock"));
    assert!(is_module_section("modules-right.battery"));
    assert!(!is_module_section("modules-left"));
    assert!(!is_module_section("bar"));
}

#[test]
fn test_apply_bar_property() {
    let mut bar = BarConfig::default();
    apply_bar_property("position", "bottom", &mut bar);
    apply_bar_property("height", "40", &mut bar);
    apply_bar_property("height", "not-a-number", &mut bar);
    apply_bar_property("multi-monitor", "true", &mut bar);
    apply_bar_property("click-through", "yes", &mut bar);
    apply_bar_property("unknown", "x", &mut bar);
    assert_eq!(bar.position, "bottom");
    assert_eq!(bar.height, 40);
    assert!(bar.multi_monitor);
    assert!(bar.click_through);
}

#[test]
fn test_apply_style_property() {
    let mut style = StyleConfig::default();
    apply_style_property("background", "#000000", &mut style);
    apply_style_property("font-size-pt", "12.5", &mut style);
    apply_style_property("padding_px", "4", &mut style);
    apply_style_property("module-spacing-px", "6", &mut style);
    assert_eq!(style.background, "#000000");
    assert!((font_size(&style) - 12.5).abs() < f32::EPSILON);
    assert_eq!(style.padding_px, 4);
    assert_eq!(style.module_spacing_px, 6);
}

#[test]
fn test_apply_module_property() {
    let mut m = ModuleEntry::default();
    apply_module_property("format", "%H", &mut m);
    apply_module_property("interval-ms", "250", &mut m);
    apply_module_property("on-click", "notepad", &mut m);
    apply_module_property("on-scroll-up", "vol+", &mut m);
    apply_module_property("on-scroll-down", "vol-", &mut m);
    apply_module_property("region", "left", &mut m);
    assert_eq!(m.format, "%H");
    assert_eq!(m.interval_ms, 250);
    assert_eq!(m.on_click, Some("notepad".to_string()));
    assert_eq!(m.on_scroll_up, Some("vol+".to_string()));
    assert_eq!(m.on_scroll_down, Some("vol-".to_string()));
    assert_eq!(m.extra.get("region"), Some("left".to_string()));
}

#[test]
fn test_empty_config_gives_defaults() {
    let cfg = parse("");
    let d = crest::config::types::Config::default();
    assert_eq!(cfg.bar.position, d.bar.position);
    assert_eq!(cfg.bar.height, d.bar.height);
    assert_eq!(cfg.style.font_family, d.style.font_family);
    assert!(cfg.modules.left.is_empty());
    assert!(cfg.modules.center.is_empty());
    assert!(cfg.modules.right.is_empty());
    assert_eq!(cfg.log_level, d.log_level);
}

#[test]
fn test_log_level_and_unknown_lines() {
    let cfg = parse("log-level \"debug\"\nthis line means nothing\n");
    assert_eq!(cfg.log_level, "debug");
}

#[test]
fn test_later_setting_wins() {
    let cfg = parse("bar {\n height 20\n}\nbar {\n height 24\n}\n");
    assert_eq!(cfg.bar.height, 24);
}

#[test]
fn test_string_map_later_assignment_wins() {
    let mut m = StringMap::new();
    assert_eq!(m.get("k"), None);
    assert_eq!(m.first_entry(), None);
    m.insert("k".to_string(), "1".to_string());
    m.insert("other".to_string(), "x".to_string());
    m.insert("k".to_string(), "2".to_string());
    assert_eq!(m.get("k"), Some("2".to_string()));
    assert_eq!(m.get("other"), Some("x".to_string()));
    assert_eq!(m.first_entry(), Some(("k".to_string(), "2".to_string())));
}

#[test]
fn test_zones_of_joined_configs() {
    let a = "modules-left {\n    workspaces {\n    }\n}\nmodules-right {\n    clock {\n    }\n}";
    let b = "modules-left {\n    custom {\n        command \"echo hi\"\n    }\n}\nmodules-right {\n    battery {\n    }\n}";
    let joined = parse(&format!("{a}\n{b}"));
    let kinds = |v: &Vec<ModuleEntry>| v.iter().map(|e| e.kind.clone()).collect::<Vec<_>>();
    assert_eq!(kinds(&joined.modules.left), vec!["workspaces", "custom"]);
    assert_eq!(kinds(&joined.modules.right), vec!["clock", "battery"]);
    assert_eq!(kinds(&parse(a).modules.left), vec!["workspaces"]);
    assert_eq!(kinds(&parse(b).modules.right), vec!["battery"]);
}

#[test]
fn test_is_true_word() {
    assert!(is_true_word("true"));
    assert!(is_true_word("1"));
    assert!(is_true_word("yes"));
    assert!(is_true_word("on"));
    assert!(!is_true_word("Yes"));
    assert!(!is_true_word("off"));
    assert!(!is_true_word(""));
}

#[test]
fn test_parse_property_stray_quote_in_key() {
    assert_eq!(parse_property(r#"a"b=c"#), Some(("a\"b".to_string(), "c".to_string())));
    assert_eq!(parse_property(r#"format "a=b""#), Some(("format".to_string(), "a=b".to_string())));
}
