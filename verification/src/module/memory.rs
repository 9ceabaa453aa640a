//! Memory module: used and total physical memory.
//!
//! Reading the memory status and formatting gigabytes (a floating-point
//! computation) happen outside this library; the module decides what the
//! bar shows with the formatted reading.
use vstd::prelude::*;

use super::{plain_snapshot, region_of, region_setting, BarRegion, ModuleSnapshot, SnapshotView};
use crate::config::types::ModuleEntry;

verus! {

pub struct MemoryModule {
    region: BarRegion,
}

impl MemoryModule {
    pub closed spec fn region(&self) -> BarRegion {
        self.region
    }

    pub fn new(entry: &ModuleEntry) -> (m: Self)
        ensures
            m.region() == region_setting(entry@.extra, BarRegion::Right),
    {
        MemoryModule { region: region_of(entry, BarRegion::Right) }
    }

    /// The snapshot for a memory reading, given as its formatted text, or
    /// `MEM ?` when the reading failed.
    pub fn snapshot(&self, reading: Option<String>) -> (r: ModuleSnapshot)
        ensures
            r@ == (SnapshotView {
                text: match reading {
                    Some(t) => t@,
                    None => "MEM ?"@,
                },
                fg: None,
                icon: None,
                region: self.region(),
            }),
    {
        let text = match reading {
            Some(t) => t,
            None => crate::text::string_of(&crate::text::chars_of("MEM ?")),
        };
        plain_snapshot(text, self.region)
    }
}

} // verus!
