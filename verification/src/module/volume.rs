//! Volume module: a placeholder that shows `VOL`.
use std::time::Duration;

use vstd::prelude::*;

use super::{
    duration_of_millis, plain_snapshot, region_of, region_setting, BarRegion, Module,
    ModuleEvent, ModuleSnapshot, SnapshotView,
};
use crate::config::types::ModuleEntry;

verus! {

pub struct VolumeModule {
    region: BarRegion,
}

impl VolumeModule {
    pub closed spec fn region(&self) -> BarRegion {
        self.region
    }

    pub fn new(entry: &ModuleEntry) -> (m: Self)
        ensures
            m.region() == region_setting(entry@.extra, BarRegion::Right),
    {
        VolumeModule { region: region_of(entry, BarRegion::Right) }
    }
}

impl Module for VolumeModule {
    open spec fn shows_initially(&self, s: SnapshotView) -> bool {
        s == (SnapshotView { text: "VOL"@, fg: None, icon: None, region: self.region() })
    }

    open spec fn shows_after_tick(&self, s: SnapshotView) -> bool {
        s == (SnapshotView { text: "VOL"@, fg: None, icon: None, region: self.region() })
    }

    open spec fn ticks_every(&self, d: Duration) -> bool {
        d == duration_of_millis(1000)
    }

    /// Clicks and scrolls run nothing.
    open spec fn answers(&self, event: ModuleEvent, r: Option<Seq<char>>) -> bool {
        r is None
    }

    fn kind(&self) -> (r: &'static str)
        ensures
            r@ == "volume"@,
    {
        "volume"
    }

    fn initial(&self) -> (r: ModuleSnapshot)
        ensures
            r@ == (SnapshotView { text: "VOL"@, fg: None, icon: None, region: self.region() }),
    {
        let t = crate::text::string_of(&crate::text::chars_of("VOL"));
        plain_snapshot(t, self.region)
    }

    fn tick(&mut self) -> (r: ModuleSnapshot)
        ensures
            r@ == (SnapshotView { text: "VOL"@, fg: None, icon: None, region: old(self).region() }),
    {
        self.initial()
    }

    fn on_event(&mut self, _event: ModuleEvent) -> (r: Option<String>) {
        None
    }

    fn interval(&self) -> (d: Duration)
        ensures
            d == duration_of_millis(1000),
    {
        Duration::from_millis(1000)
    }
}

} // verus!
