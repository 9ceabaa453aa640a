//! Battery module: charge level, charging state and low-charge colours.
//!
//! Reading the power status is left to the caller, which hands the three
//! fields of `SYSTEM_POWER_STATUS` to `render`.
use vstd::prelude::*;

use super::{region_of, region_setting, BarRegion, ModuleSnapshot, SnapshotView};
use crate::config::types::{ModuleEntry, StringMap};
use crate::text::{chars_of, decimal_text, parse_unsigned, parse_unsigned_spec, push_decimal, string_of};

verus! {

pub const DEFAULT_WARNING: u8 = 20;

pub const DEFAULT_CRITICAL: u8 = 10;

/// `ACLineStatus` when the machine runs on mains power.
pub const AC_ONLINE: u8 = 1;

/// `BatteryFlag` bit set when the machine has no battery.
pub const BATTERY_FLAG_NO_BATTERY: u8 = 128;

pub const CHARGING_ICON: char = '\u{26A1}';

pub const BATTERY_ICON: char = '\u{1F50B}';

pub struct BatteryModule {
    warning: u8,
    critical: u8,
    region: BarRegion,
}

/// A small unsigned setting from `extra`: its value when it reads as a
/// number that fits, `default` otherwise.
pub open spec fn number_setting(
    extra: Map<Seq<char>, Seq<char>>,
    key: Seq<char>,
    max: nat,
    default: nat,
) -> nat {
    if extra.contains_key(key) && parse_unsigned_spec(extra[key], max) is Some {
        parse_unsigned_spec(extra[key], max)->0
    } else {
        default
    }
}

/// Reads the setting `key` of `extra` as a number no greater than `max`.
pub fn number_of(extra: &StringMap, key: &str, max: u64, default: u64) -> (r: u64)
    requires
        default <= max,
    ensures
        r as nat == number_setting(extra.view(), key@, max as nat, default as nat),
        r <= max,
{
    match extra.get(key) {
        Some(v) => {
            let c = chars_of(v.as_str());
            match parse_unsigned(&c, max) {
                Some(n) => n,
                None => default,
            }
        },
        None => default,
    }
}

/// The colour for a charge level: red at or below `critical`, orange at or
/// below `warning`, none above.
pub open spec fn battery_color(percent: u8, warning: u8, critical: u8) -> Option<Seq<char>> {
    if percent <= critical {
        Some("#ff5555"@)
    } else if percent <= warning {
        Some("#ffb86c"@)
    } else {
        None
    }
}

/// The text shown for a charge level: the icon, a space, the percentage.
pub open spec fn battery_text(icon: char, percent: u8) -> Seq<char> {
    seq![icon, ' '] + decimal_text(percent as nat) + seq!['%']
}

impl BatteryModule {
    pub closed spec fn warning(&self) -> u8 {
        self.warning
    }

    pub closed spec fn critical(&self) -> u8 {
        self.critical
    }

    pub closed spec fn region(&self) -> BarRegion {
        self.region
    }

    pub fn new(entry: &ModuleEntry) -> (m: Self)
        ensures
            m.warning() as nat == number_setting(entry@.extra, "warning"@, 255, 20),
            m.critical() as nat == number_setting(entry@.extra, "critical"@, 255, 10),
            m.region() == region_setting(entry@.extra, BarRegion::Right),
    {
        let warning = number_of(&entry.extra, "warning", 255, DEFAULT_WARNING as u64) as u8;
        let critical = number_of(&entry.extra, "critical", 255, DEFAULT_CRITICAL as u64) as u8;
        BatteryModule { warning, critical, region: region_of(entry, BarRegion::Right) }
    }

    /// The snapshot for a power status: `AC` without a battery, otherwise the
    /// charge with a charging or battery icon and the low-charge colour.
    pub fn render(&self, flags: u8, ac_status: u8, percent: u8) -> (r: ModuleSnapshot)
        ensures
            flags & BATTERY_FLAG_NO_BATTERY != 0 ==> r@ == (SnapshotView {
                text: "AC"@,
                fg: None,
                icon: None,
                region: self.region(),
            }),
            flags & BATTERY_FLAG_NO_BATTERY == 0 ==> {
                let icon = if ac_status == AC_ONLINE {
                    CHARGING_ICON
                } else {
                    BATTERY_ICON
                };
                r@ == (SnapshotView {
                    text: battery_text(icon, percent),
                    fg: battery_color(percent, self.warning(), self.critical()),
                    icon: Some(icon),
                    region: self.region(),
                })
            },
    {
        if flags & BATTERY_FLAG_NO_BATTERY != 0 {
            return ModuleSnapshot {
                text: string_of(&chars_of("AC")),
                fg: None,
                icon: None,
                region: self.region,
            };
        }
        let charging = ac_status == AC_ONLINE;
        let icon = if charging {
            CHARGING_ICON
        } else {
            BATTERY_ICON
        };
        let mut text = String::new();
        text.push(icon);
        text.push(' ');
        push_decimal(&mut text, percent as u64);
        text.push('%');
        assert(text@ =~= battery_text(icon, percent));
        let fg = self.color_for(percent);
        ModuleSnapshot { text, fg, icon: Some(icon), region: self.region }
    }

    /// The colour for a charge level, `None` when the level is fine.
    pub fn color_for(&self, percent: u8) -> (r: Option<String>)
        ensures
            crate::config::types::opt_view(r) == battery_color(percent, self.warning(), self.critical()),
    {
        if percent <= self.critical {
            Some(string_of(&chars_of("#ff5555")))
        } else if percent <= self.warning {
            Some(string_of(&chars_of("#ffb86c")))
        } else {
            None
        }
    }
}

} // verus!
