//! Network module: receive and transmit rates summed over the interfaces.
//!
//! Sampling the interface counters and the clock, and formatting rates (a
//! floating-point computation), happen outside this library; the module
//! keeps the counters and decides what each sample means.
use vstd::prelude::*;

use super::{plain_snapshot, region_of, region_setting, BarRegion, ModuleSnapshot, SnapshotView};
use crate::config::types::ModuleEntry;
use crate::text::{chars_of, string_of};

verus! {

/// The interface type of the software loopback interface.
pub const IF_TYPE_SOFTWARE_LOOPBACK: u32 = 24;

/// One interface row: its type and its received and sent byte counters.
#[derive(Debug, Clone, Copy)]
pub struct InterfaceCounters {
    pub if_type: u32,
    pub in_octets: u32,
    pub out_octets: u32,
}

/// Received and sent bytes summed over the rows that are not loopback.
pub open spec fn traffic_totals_spec(rows: Seq<InterfaceCounters>) -> (int, int)
    decreases rows.len(),
{
    if rows.len() == 0 {
        (0, 0)
    } else {
        let t = traffic_totals_spec(rows.drop_last());
        let r = rows.last();
        if r.if_type == IF_TYPE_SOFTWARE_LOOPBACK {
            t
        } else {
            (t.0 + r.in_octets, t.1 + r.out_octets)
        }
    }
}

proof fn lemma_totals_nonneg(rows: Seq<InterfaceCounters>)
    ensures
        traffic_totals_spec(rows).0 >= 0,
        traffic_totals_spec(rows).1 >= 0,
    decreases rows.len(),
{
    if rows.len() > 0 {
        lemma_totals_nonneg(rows.drop_last());
    }
}

proof fn lemma_totals_grow(rows: Seq<InterfaceCounters>, k: int)
    requires
        0 <= k <= rows.len(),
    ensures
        traffic_totals_spec(rows.take(k)).0 <= traffic_totals_spec(rows).0,
        traffic_totals_spec(rows.take(k)).1 <= traffic_totals_spec(rows).1,
    decreases rows.len() - k,
{
    if k < rows.len() {
        lemma_totals_grow(rows, k + 1);
        assert(rows.take(k + 1).drop_last() =~= rows.take(k));
    } else {
        assert(rows.take(k) =~= rows);
    }
}

/// The total bytes received and sent over all interfaces but loopback.
pub fn traffic_totals(rows: &Vec<InterfaceCounters>) -> (r: (u64, u64))
    requires
        traffic_totals_spec(rows@).0 <= u64::MAX,
        traffic_totals_spec(rows@).1 <= u64::MAX,
    ensures
        r.0 as int == traffic_totals_spec(rows@).0,
        r.1 as int == traffic_totals_spec(rows@).1,
{
    let mut rx: u64 = 0;
    let mut tx: u64 = 0;
    let mut i: usize = 0;
    assert(rows@.take(0) =~= Seq::<InterfaceCounters>::empty());
    while i < rows.len()
        invariant
            i <= rows.len(),
            traffic_totals_spec(rows@).0 <= u64::MAX,
            traffic_totals_spec(rows@).1 <= u64::MAX,
            rx as int == traffic_totals_spec(rows@.take(i as int)).0,
            tx as int == traffic_totals_spec(rows@.take(i as int)).1,
        decreases rows.len() - i,
    {
        assert(rows@.take(i + 1).drop_last() =~= rows@.take(i as int));
        proof {
            lemma_totals_grow(rows@, i + 1);
            lemma_totals_nonneg(rows@.take(i as int));
        }
        let row = rows[i];
        if row.if_type != IF_TYPE_SOFTWARE_LOOPBACK {
            rx = rx + row.in_octets as u64;
            tx = tx + row.out_octets as u64;
        }
        i = i + 1;
    }
    assert(rows@.take(rows.len() as int) =~= rows@);
    (rx, tx)
}

pub struct NetworkModule {
    prev_rx: u64,
    prev_tx: u64,
    last_text: String,
    region: BarRegion,
}

/// What a new sample of the byte counters means.
pub enum NetworkReading {
    /// Bytes received and sent since the previous sample; the caller divides
    /// by the elapsed time and shows the rates.
    Delta { rx_bytes: u64, tx_bytes: u64 },
    /// Text to show as it is.
    Text(String),
}

pub open spec fn sat_sub(a: u64, b: u64) -> u64 {
    if a >= b {
        (a - b) as u64
    } else {
        0
    }
}

impl NetworkModule {
    pub closed spec fn region(&self) -> BarRegion {
        self.region
    }

    pub closed spec fn counters(&self) -> (u64, u64) {
        (self.prev_rx, self.prev_tx)
    }

    pub closed spec fn last_text(&self) -> Seq<char> {
        self.last_text@
    }

    /// A module whose counters start at `sample` (zero when sampling failed).
    pub fn new(entry: &ModuleEntry, sample: Option<(u64, u64)>) -> (m: Self)
        ensures
            m.region() == region_setting(entry@.extra, BarRegion::Right),
            m.counters() == (match sample {
                Some(s) => s,
                None => (0u64, 0u64),
            }),
            m.last_text() == "no network"@,
    {
        let (prev_rx, prev_tx) = match sample {
            Some(s) => s,
            None => (0, 0),
        };
        NetworkModule {
            prev_rx,
            prev_tx,
            last_text: string_of(&chars_of("no network")),
            region: region_of(entry, BarRegion::Right),
        }
    }

    pub fn initial(&self) -> (r: ModuleSnapshot)
        ensures
            r@ == (SnapshotView { text: self.last_text(), fg: None, icon: None, region: self.region() }),
    {
        plain_snapshot(self.last_text.clone(), self.region)
    }

    /// Takes a new sample of the counters; `elapsed_positive` tells whether
    /// any time passed since the previous sample that was used.
    pub fn observe(&mut self, sample: Option<(u64, u64)>, elapsed_positive: bool) -> (r:
        NetworkReading)
        ensures
            final(self).region() == old(self).region(),
            final(self).last_text() == old(self).last_text(),
            match sample {
                Some(s) => if elapsed_positive {
                    final(self).counters() == s && r == (NetworkReading::Delta {
                        rx_bytes: sat_sub(s.0, old(self).counters().0),
                        tx_bytes: sat_sub(s.1, old(self).counters().1),
                    })
                } else {
                    final(self).counters() == old(self).counters() && (r matches NetworkReading::Text(
                        t,
                    ) && t@ == old(self).last_text())
                },
                None => final(self).counters() == old(self).counters() && (r matches NetworkReading::Text(
                    t,
                ) && t@ == "no network"@),
            },
    {
        match sample {
            Some((rx, tx)) => {
                if elapsed_positive {
                    let r = NetworkReading::Delta {
                        rx_bytes: rx.saturating_sub(self.prev_rx),
                        tx_bytes: tx.saturating_sub(self.prev_tx),
                    };
                    self.prev_rx = rx;
                    self.prev_tx = tx;
                    r
                } else {
                    NetworkReading::Text(self.last_text.clone())
                }
            },
            None => NetworkReading::Text(string_of(&chars_of("no network"))),
        }
    }

    /// Shows `text` and remembers it as the last text shown.
    pub fn show(&mut self, text: String) -> (r: ModuleSnapshot)
        ensures
            final(self).region() == old(self).region(),
            final(self).counters() == old(self).counters(),
            final(self).last_text() == text@,
            r@ == (SnapshotView { text: text@, fg: None, icon: None, region: old(self).region() }),
    {
        self.last_text = text.clone();
        plain_snapshot(text, self.region)
    }
}

} // verus!
