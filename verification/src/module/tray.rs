//! Tray module: a placeholder for system-tray icons; it shows nothing.
use std::time::Duration;

use vstd::prelude::*;

use super::{
    duration_of_millis, plain_snapshot, region_of, region_setting, BarRegion, Module,
    ModuleEvent, ModuleSnapshot, SnapshotView,
};
use crate::config::types::ModuleEntry;

verus! {

pub struct TrayModule {
    region: BarRegion,
}

impl TrayModule {
    pub closed spec fn region(&self) -> BarRegion {
        self.region
    }

    pub fn new(entry: &ModuleEntry) -> (m: Self)
        ensures
            m.region() == region_setting(entry@.extra, BarRegion::Right),
    {
        TrayModule { region: region_of(entry, BarRegion::Right) }
    }
}

impl Module for TrayModule {
    open spec fn shows_initially(&self, s: SnapshotView) -> bool {
        s == (SnapshotView { text: Seq::empty(), fg: None, icon: None, region: self.region() })
    }

    open spec fn shows_after_tick(&self, s: SnapshotView) -> bool {
        s == (SnapshotView { text: Seq::empty(), fg: None, icon: None, region: self.region() })
    }

    open spec fn ticks_every(&self, d: Duration) -> bool {
        d == duration_of_millis(5000)
    }

    /// Clicks and scrolls run nothing.
    open spec fn answers(&self, event: ModuleEvent, r: Option<Seq<char>>) -> bool {
        r is None
    }

    fn kind(&self) -> (r: &'static str)
        ensures
            r@ == "tray"@,
    {
        "tray"
    }

    fn initial(&self) -> (r: ModuleSnapshot)
        ensures
            r@ == (SnapshotView { text: Seq::empty(), fg: None, icon: None, region: self.region() }),
    {
        plain_snapshot(String::new(), self.region)
    }

    fn tick(&mut self) -> (r: ModuleSnapshot)
        ensures
            r@ == (SnapshotView { text: Seq::empty(), fg: None, icon: None, region: old(self).region() }),
    {
        self.initial()
    }

    fn interval(&self) -> (d: Duration)
        ensures
            d == duration_of_millis(5000),
    {
        Duration::from_millis(5000)
    }

    fn on_event(&mut self, _event: ModuleEvent) -> (r: Option<String>) {
        None
    }
}

} // verus!
