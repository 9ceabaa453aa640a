//! Focused-window module: the title of the focused window, shortened to a
//! maximum number of characters.
use std::sync::{Arc, RwLock};
use std::time::Duration;

use vstd::prelude::*;

use super::{
    duration_of_millis, plain_snapshot, BarRegion, Module, ModuleEvent, ModuleSnapshot, SnapshotView,
    WiriState,
};
use crate::config::types::ModuleEntry;
use crate::module::battery::{number_of, number_setting};
use crate::text::{chars_of, string_of};
use crate::wiri_ipc::read_wiri_state;

verus! {

pub const DEFAULT_MAX_LENGTH: usize = 60;

pub const ELLIPSIS: char = '\u{2026}';

/// `s` cut to `max` characters, the last of them an ellipsis when it was
/// cut.
pub open spec fn truncate_spec(s: Seq<char>, max: nat) -> Seq<char> {
    if max == 0 {
        Seq::empty()
    } else if s.len() <= max {
        s
    } else {
        s.take(max - 1).push(ELLIPSIS)
    }
}

/// Truncates `s` to `max` characters, ending in `…` when it was cut.
pub fn truncate(s: &str, max: usize) -> (r: String)
    ensures
        r@ == truncate_spec(s@, max as nat),
{
    if max == 0 {
        return String::new();
    }
    let chars = chars_of(s);
    if chars.len() <= max {
        string_of(&chars)
    } else {
        let mut out = crate::text::string_of_range(&chars, 0, max - 1);
        out.push(ELLIPSIS);
        out
    }
}

/// A shortened title has at most `max` characters; a title that fits is
/// kept as it is, and one that does not keeps its first `max - 1`
/// characters before the ellipsis.
pub proof fn law_truncate_bounds(s: Seq<char>, max: nat)
    ensures
        truncate_spec(s, max).len() <= max,
        s.len() <= max && max > 0 ==> truncate_spec(s, max) == s,
        s.len() > max && max > 0 ==> truncate_spec(s, max).len() == max
            && truncate_spec(s, max).take(max - 1) == s.take(max - 1)
            && truncate_spec(s, max).last() == ELLIPSIS,
{
    if s.len() > max && max > 0 {
        assert(truncate_spec(s, max).take(max - 1) =~= s.take(max - 1));
    }
}

/// Shortening a shortened title again changes nothing.
pub proof fn law_truncate_idempotent(s: Seq<char>, max: nat)
    ensures
        truncate_spec(truncate_spec(s, max), max) == truncate_spec(s, max),
{
    law_truncate_bounds(s, max);
}

/// The region of the focused-window module: `center` and `right` are
/// honoured, anything else means the center.
pub open spec fn focused_region(extra: Map<Seq<char>, Seq<char>>) -> BarRegion {
    if extra.contains_key("region"@) && extra["region"@] == "right"@ {
        BarRegion::Right
    } else {
        BarRegion::Center
    }
}

pub struct FocusedWindowModule {
    state: Arc<RwLock<WiriState>>,
    max_length: usize,
    region: BarRegion,
}

impl FocusedWindowModule {
    pub closed spec fn max_length(&self) -> usize {
        self.max_length
    }

    pub closed spec fn region(&self) -> BarRegion {
        self.region
    }

    pub fn new(entry: &ModuleEntry, state: Arc<RwLock<WiriState>>) -> (m: Self)
        ensures
            m.max_length() as nat == number_setting(
                entry@.extra,
                "max-length"@,
                usize::MAX as nat,
                DEFAULT_MAX_LENGTH as nat,
            ),
            m.region() == focused_region(entry@.extra),
    {
        let max_length = number_of(
            &entry.extra,
            "max-length",
            usize::MAX as u64,
            DEFAULT_MAX_LENGTH as u64,
        ) as usize;
        let region = match entry.extra.get("region") {
            Some(v) => {
                let c = chars_of(v.as_str());
                if crate::text::chars_eq_str(&c, "right") {
                    BarRegion::Right
                } else {
                    BarRegion::Center
                }
            },
            None => BarRegion::Center,
        };
        FocusedWindowModule { state, max_length, region }
    }

    /// The snapshot for a window title.
    pub fn title_snapshot(&self, title: &str) -> (r: ModuleSnapshot)
        ensures
            r@.text == truncate_spec(title@, self.max_length() as nat),
            r@.fg is None,
            r@.icon is None,
            r@.region == self.region(),
    {
        plain_snapshot(truncate(title, self.max_length), self.region)
    }

    /// The focused window's title from the shared state; empty when a
    /// writer panicked while holding the state.
    fn snapshot(&self) -> (r: ModuleSnapshot)
        ensures
            r@.fg is None,
            r@.icon is None,
            r@.region == self.region(),
    {
        let title = match read_wiri_state(&self.state) {
            Ok(s) => s.focused_window_title,
            Err(_) => String::new(),
        };
        self.title_snapshot(title.as_str())
    }
}

impl Module for FocusedWindowModule {
    open spec fn shows_initially(&self, s: SnapshotView) -> bool {
        s.fg is None && s.icon is None && s.region == self.region()
    }

    open spec fn shows_after_tick(&self, s: SnapshotView) -> bool {
        s.fg is None && s.icon is None && s.region == self.region()
    }

    open spec fn ticks_every(&self, d: Duration) -> bool {
        d == duration_of_millis(1000)
    }

    /// Clicks and scrolls run nothing.
    open spec fn answers(&self, event: ModuleEvent, r: Option<Seq<char>>) -> bool {
        r is None
    }

    fn kind(&self) -> (r: &'static str)
        ensures
            r@ == "focused-window"@,
    {
        "focused-window"
    }

    fn initial(&self) -> (r: ModuleSnapshot)
        ensures
            r@.fg is None,
            r@.icon is None,
            r@.region == self.region(),
    {
        self.snapshot()
    }

    fn tick(&mut self) -> (r: ModuleSnapshot)
        ensures
            r@.fg is None,
            r@.icon is None,
            r@.region == old(self).region(),
    {
        self.snapshot()
    }

    fn on_event(&mut self, _event: ModuleEvent) -> (r: Option<String>) {
        None
    }

    fn interval(&self) -> (d: Duration)
        ensures
            d == duration_of_millis(1000),
    {
        Duration::from_millis(1000)
    }
}

} // verus!
