//! The module runtime: builds the configured modules, ticks each on its own
//! schedule and routes clicks and scrolls to them.
//!
//! Time is a count of milliseconds on a monotonic clock that the caller
//! reads and passes in.
use std::time::Duration;

use vstd::prelude::*;

use super::{BarRegion, BuiltModule, Module, ModuleEvent, ModuleRegistry, ModuleSnapshot, SnapshotView};
use crate::bar::{as_i32, lemma_as_i32};
use crate::config::types::{opt_view, EntryView, ModuleEntry, ModulesConfig};

verus! {

/// The whole milliseconds in a duration, as `Duration::as_millis` counts
/// them.
pub uninterp spec fn millis_of(d: Duration) -> u128;

/// `Duration::as_millis`: the whole milliseconds in `d`; `ms` for the
/// duration of `ms` milliseconds.
#[verifier::external_body]
fn duration_as_millis(d: Duration) -> (r: u128)
    ensures
        r == millis_of(d),
        forall|ms: u64| d == #[trigger] super::duration_of_millis(ms) ==> r == ms,
{
    d.as_millis()
}

/// The milliseconds in a duration, at most `u64::MAX`.
pub open spec fn capped_millis(d: Duration) -> u64 {
    if millis_of(d) > u64::MAX {
        u64::MAX
    } else {
        millis_of(d) as u64
    }
}

/// `a + b`, at most `u64::MAX`.
pub open spec fn add_capped(a: u64, b: u64) -> u64 {
    if a + b > u64::MAX {
        u64::MAX
    } else {
        (a + b) as u64
    }
}

/// Milliseconds in a duration, at most `u64::MAX`.
fn duration_millis(d: Duration) -> (r: u64)
    ensures
        r == capped_millis(d),
        forall|ms: u64| d == #[trigger] super::duration_of_millis(ms) ==> r == ms,
{
    let m = duration_as_millis(d);
    if m > 0xffff_ffff_ffff_ffffu128 {
        u64::MAX
    } else {
        m as u64
    }
}

/// `next` is one interval of `m` after `now`, at most `u64::MAX`.
pub open spec fn next_tick_after(m: &BuiltModule, now: u64, next: u64) -> bool {
    exists|d: Duration| #[trigger] m.ticks_every(d) && next == add_capped(now, capped_millis(d))
}

/// One live module slot.
struct ModuleInstance {
    module: BuiltModule,
    kind: String,
    region: BarRegion,
    next_tick: u64,
    on_click: Option<String>,
    on_scroll_up: Option<String>,
    on_scroll_down: Option<String>,
}

/// The configuration of a module slot: the kind of its module, its region
/// and its commands.
pub struct SlotView {
    pub kind: Seq<char>,
    pub region: BarRegion,
    pub on_click: Option<Seq<char>>,
    pub on_scroll_up: Option<Seq<char>>,
    pub on_scroll_down: Option<Seq<char>>,
}

impl ModuleInstance {
    fn new(module: BuiltModule, region: BarRegion, next_tick: u64, entry: &ModuleEntry) -> (r: Self)
        ensures
            r.view() == slot_of(entry@, region),
            r.next_tick == next_tick,
            r.module == module,
    {
        ModuleInstance {
            module,
            kind: entry.kind.clone(),
            region,
            next_tick,
            on_click: super::clone_opt_string(&entry.on_click),
            on_scroll_up: super::clone_opt_string(&entry.on_scroll_up),
            on_scroll_down: super::clone_opt_string(&entry.on_scroll_down),
        }
    }

    spec fn view(&self) -> SlotView {
        SlotView {
            kind: self.kind@,
            region: self.region,
            on_click: opt_view(self.on_click),
            on_scroll_up: opt_view(self.on_scroll_up),
            on_scroll_down: opt_view(self.on_scroll_down),
        }
    }
}

pub struct ModuleRuntime {
    instances: Vec<ModuleInstance>,
    snapshots: Vec<ModuleSnapshot>,
}

/// A snapshot moved into `region`.
pub open spec fn in_region(s: SnapshotView, region: BarRegion) -> SnapshotView {
    SnapshotView { region, ..s }
}

/// `shown` is the initial snapshot of `m`, moved into the region of `shown`.
pub open spec fn shows_initial(m: &BuiltModule, shown: SnapshotView) -> bool {
    exists|s: SnapshotView| #[trigger] m.shows_initially(s) && shown == in_region(s, shown.region)
}

/// `shown` is a snapshot that a tick of `m` gives, moved into the region
/// of `shown`.
pub open spec fn shows_tick(m: &BuiltModule, shown: SnapshotView) -> bool {
    exists|s: SnapshotView| #[trigger] m.shows_after_tick(s) && shown == in_region(s, shown.region)
}

/// The slot a configured module gets in `region`.
pub open spec fn slot_of(e: EntryView, region: BarRegion) -> SlotView {
    SlotView {
        kind: e.kind,
        region,
        on_click: e.on_click,
        on_scroll_up: e.on_scroll_up,
        on_scroll_down: e.on_scroll_down,
    }
}

/// The slots that a zone's entries give: one per entry whose kind has a
/// factory, in order.
pub open spec fn zone_slots(entries: Seq<EntryView>, region: BarRegion, kinds: Set<Seq<char>>) -> Seq<SlotView>
    decreases entries.len(),
{
    if entries.len() == 0 {
        Seq::empty()
    } else {
        let rest = zone_slots(entries.drop_last(), region, kinds);
        if kinds.contains(entries.last().kind) {
            rest.push(slot_of(entries.last(), region))
        } else {
            rest
        }
    }
}

/// The slots of the runtime built for a configuration: the left zone's,
/// then the center's, then the right's.
pub open spec fn planned_slots(c: crate::config::types::ModulesView, kinds: Set<Seq<char>>) -> Seq<SlotView> {
    zone_slots(c.left, BarRegion::Left, kinds) + zone_slots(c.center, BarRegion::Center, kinds)
        + zone_slots(c.right, BarRegion::Right, kinds)
}

/// The entries of a zone whose kind has a factory, in order: those that
/// get a slot.
pub open spec fn zone_entries(entries: Seq<ModuleEntry>, kinds: Set<Seq<char>>) -> Seq<ModuleEntry>
    decreases entries.len(),
{
    if entries.len() == 0 {
        Seq::empty()
    } else {
        let rest = zone_entries(entries.drop_last(), kinds);
        if kinds.contains(entries.last().kind@) {
            rest.push(entries.last())
        } else {
            rest
        }
    }
}

/// The entry behind each slot of the runtime built for a configuration.
pub open spec fn planned_entries(c: &ModulesConfig, kinds: Set<Seq<char>>) -> Seq<ModuleEntry> {
    zone_entries(c.left@, kinds) + zone_entries(c.center@, kinds) + zone_entries(c.right@, kinds)
}

/// How a slot is set up for `entry` at `now`: its module is one that the
/// registry builds for the entry, it shows that module's initial snapshot,
/// and it first ticks one interval of the module after `now`.
pub open spec fn set_up(
    registry: &ModuleRegistry,
    entry: &ModuleEntry,
    m: &BuiltModule,
    shown: SnapshotView,
    now: u64,
    next: u64,
) -> bool {
    &&& registry.built_for(entry, *m)
    &&& shows_initial(m, shown)
    &&& next_tick_after(m, now, next)
}

/// The command configured for an event on a slot: `on-click` for a left
/// click, `on-scroll-up` and `on-scroll-down` for scrolls.
pub open spec fn configured_command(s: SlotView, event: ModuleEvent) -> Option<Seq<char>> {
    match event {
        ModuleEvent::LeftClick => s.on_click,
        ModuleEvent::ScrollUp => s.on_scroll_up,
        ModuleEvent::ScrollDown => s.on_scroll_down,
        _ => None,
    }
}

/// `a / d` as Rust computes it on integers: the quotient rounded toward
/// zero.
pub open spec fn div_toward_zero(a: int, d: int) -> int {
    if a >= 0 {
        a / d
    } else {
        -((-a) / d)
    }
}

/// The third of a bar `w` pixels wide that the x coordinate `x` falls in.
pub open spec fn coarse_zone_spec(x: int, w: int) -> BarRegion {
    if x < div_toward_zero(w, 3) {
        BarRegion::Left
    } else if x < div_toward_zero(2 * w, 3) {
        BarRegion::Center
    } else {
        BarRegion::Right
    }
}

/// Whether the zone of `x` on a bar `w` pixels wide computes in `i32`:
/// `2 * w` is needed only past the first third.
pub open spec fn coarse_zone_computes(x: int, w: int) -> bool {
    x < div_toward_zero(w, 3) || (i32::MIN <= 2 * w && 2 * w <= i32::MAX)
}

/// Maps an x coordinate to a region by thirds of the bar; the width is
/// read as an `i32`.
pub fn coarse_zone(x: i32, bar_w: u32) -> (r: BarRegion)
    requires
        coarse_zone_computes(x as int, as_i32(bar_w)),
    ensures
        r == coarse_zone_spec(x as int, as_i32(bar_w)),
{
    proof {
        lemma_as_i32(bar_w);
    }
    let w = bar_w as i32;
    if x < w / 3 {
        BarRegion::Left
    } else if x < 2 * w / 3 {
        BarRegion::Center
    } else {
        BarRegion::Right
    }
}

/// Moving right along the bar never moves back a zone: left of a point in
/// the left third is the left third, right of a point in the right third is
/// the right third.
pub proof fn law_zones_ordered(x1: int, x2: int, w: int)
    requires
        x1 <= x2,
    ensures
        coarse_zone_spec(x2, w) == BarRegion::Left ==> coarse_zone_spec(x1, w) == BarRegion::Left,
        coarse_zone_spec(x1, w) == BarRegion::Right ==> coarse_zone_spec(x2, w) == BarRegion::Right,
{
}

/// Index of the first slot in `zone` at or after `i`.
pub open spec fn first_in_zone(slots: Seq<SlotView>, zone: BarRegion, i: int) -> Option<int>
    decreases slots.len() - i,
{
    if i < 0 || i >= slots.len() {
        None
    } else if slots[i].region == zone {
        Some(i)
    } else {
        first_in_zone(slots, zone, i + 1)
    }
}

proof fn lemma_entries_view_take(v: Seq<ModuleEntry>, i: int)
    requires
        0 <= i < v.len(),
    ensures
        crate::config::types::entries_view(v.take(i + 1)).drop_last()
            == crate::config::types::entries_view(v.take(i)),
        crate::config::types::entries_view(v.take(i + 1)).last() == v[i]@,
        crate::config::types::entries_view(v.take(i + 1)).len() > 0,
{
    assert(crate::config::types::entries_view(v.take(i + 1)).drop_last()
        =~= crate::config::types::entries_view(v.take(i)));
}

/// The configuration of each slot.
spec fn slots_of(insts: Seq<ModuleInstance>) -> Seq<SlotView> {
    insts.map_values(|i: ModuleInstance| i.view())
}

/// The module in each slot.
spec fn modules_of(insts: Seq<ModuleInstance>) -> Seq<BuiltModule> {
    insts.map_values(|i: ModuleInstance| i.module)
}

/// When each slot ticks next.
spec fn ticks_of(insts: Seq<ModuleInstance>) -> Seq<u64> {
    insts.map_values(|i: ModuleInstance| i.next_tick)
}

/// What each snapshot shows.
spec fn views_of(snaps: Seq<ModuleSnapshot>) -> Seq<SnapshotView> {
    snaps.map_values(|s: ModuleSnapshot| s@)
}

/// Every slot has its snapshot, and each snapshot is in its slot's region.
spec fn paired(insts: Seq<ModuleInstance>, snaps: Seq<ModuleSnapshot>) -> bool {
    &&& insts.len() == snaps.len()
    &&& forall|i: int| 0 <= i < snaps.len() ==> #[trigger] snaps[i].region == insts[i].region
}

proof fn lemma_paired(insts: Seq<ModuleInstance>, snaps: Seq<ModuleSnapshot>)
    requires
        paired(insts, snaps),
    ensures
        slots_of(insts).len() == views_of(snaps).len(),
        ticks_of(insts).len() == slots_of(insts).len(),
        modules_of(insts).len() == slots_of(insts).len(),
        forall|i: int| 0 <= i < slots_of(insts).len() ==> #[trigger] views_of(snaps)[i].region == slots_of(insts)[i].region,
{
    assert forall|i: int| 0 <= i < slots_of(insts).len() implies #[trigger] views_of(snaps)[i].region == slots_of(insts)[i].region by {
        assert(snaps[i].region == insts[i].region);
    }
}

/// Builds the modules of one zone and appends them.
fn add_zone(
    insts: &mut Vec<ModuleInstance>,
    snaps: &mut Vec<ModuleSnapshot>,
    entries: &Vec<ModuleEntry>,
    region: BarRegion,
    registry: &ModuleRegistry,
    now: u64,
)
    requires
        paired(old(insts)@, old(snaps)@),
    ensures
        paired(final(insts)@, final(snaps)@),
        slots_of(final(insts)@) == slots_of(old(insts)@) + zone_slots(
            crate::config::types::entries_view(entries@),
            region,
            registry.kinds(),
        ),
        zone_entries(entries@, registry.kinds()).len() == slots_of(final(insts)@).len() - slots_of(old(insts)@).len(),
        forall|k: int| 0 <= k < slots_of(old(insts)@).len() ==> {
            &&& #[trigger] modules_of(final(insts)@)[k] == modules_of(old(insts)@)[k]
            &&& views_of(final(snaps)@)[k] == views_of(old(snaps)@)[k]
            &&& ticks_of(final(insts)@)[k] == ticks_of(old(insts)@)[k]
        },
        forall|k: int| #![trigger modules_of(final(insts)@)[k]] slots_of(old(insts)@).len() <= k < slots_of(final(insts)@).len() ==> set_up(
            registry,
            &zone_entries(entries@, registry.kinds())[k - slots_of(old(insts)@).len()],
            &modules_of(final(insts)@)[k],
            views_of(final(snaps)@)[k],
            now,
            ticks_of(final(insts)@)[k],
        ),
{
    let ghost kinds = registry.kinds();
    let ghost start = slots_of(insts@);
    let ghost start_mods = modules_of(insts@);
    let ghost start_snaps = views_of(snaps@);
    let ghost start_ticks = ticks_of(insts@);
    let ghost n0 = start.len() as int;
    assert(crate::config::types::entries_view(entries@.take(0)) =~= Seq::<EntryView>::empty());
    assert(entries@.take(0) =~= Seq::<ModuleEntry>::empty());
    assert(start + zone_slots(Seq::<EntryView>::empty(), region, kinds) =~= start);
    let mut i: usize = 0;
    while i < entries.len()
        invariant
            i <= entries.len(),
            kinds == registry.kinds(),
            paired(insts@, snaps@),
            n0 == start.len(),
            start_mods.len() == n0,
            start_snaps.len() == n0,
            start_ticks.len() == n0,
            slots_of(insts@) == start + zone_slots(
                crate::config::types::entries_view(entries@.take(i as int)),
                region,
                kinds,
            ),
            zone_entries(entries@.take(i as int), kinds).len() == slots_of(insts@).len() - n0,
            forall|k: int| 0 <= k < n0 ==> {
                &&& #[trigger] modules_of(insts@)[k] == start_mods[k]
                &&& views_of(snaps@)[k] == start_snaps[k]
                &&& ticks_of(insts@)[k] == start_ticks[k]
            },
            forall|k: int| #![trigger modules_of(insts@)[k]] n0 <= k < slots_of(insts@).len() ==> set_up(
                registry,
                &zone_entries(entries@.take(i as int), kinds)[k - n0],
                &modules_of(insts@)[k],
                views_of(snaps@)[k],
                now,
                ticks_of(insts@)[k],
            ),
        decreases entries.len() - i,
    {
        let entry = &entries[i];
        proof {
            lemma_paired(insts@, snaps@);
            lemma_entries_view_take(entries@, i as int);
            assert(entries@.take(i + 1).drop_last() =~= entries@.take(i as int));
            assert(entries@.take(i + 1).last() == entries@[i as int]);
        }
        let ghost ze = zone_entries(entries@.take(i as int), kinds);
        let built = registry.build(entry);
        match built {
            Some(module) => {
                let d = module.interval();
                let ms = duration_millis(d);
                let inst = ModuleInstance::new(module, region, now.saturating_add(ms), entry);
                let mut snap = inst.module.initial();
                let ghost first = snap@;
                snap.region = region;
                let ghost before = slots_of(insts@);
                let ghost ticks = ticks_of(insts@);
                let ghost insts_before = insts@;
                let ghost mods = modules_of(insts@);
                let ghost views_before = views_of(snaps@);
                let ghost m = inst.module;
                let ghost sv = snap@;
                assert(shows_initial(&m, sv));
                assert(m.ticks_every(d));
                assert(next_tick_after(&m, now, now.saturating_add(ms)));
                assert(registry.built_for(entry, m));
                insts.push(inst);
                snaps.push(snap);
                assert(insts@ == insts_before.push(inst));
                assert(slots_of(insts@) =~= before.push(slot_of(entry@, region)));
                assert(ticks_of(insts@) =~= ticks.push(now.saturating_add(ms)));
                assert(views_of(snaps@) =~= views_before.push(sv));
                assert(modules_of(insts@).len() == mods.len() + 1);
                assert(modules_of(insts@)[mods.len() as int] == m);
                assert(forall|k: int| 0 <= k < mods.len() ==> modules_of(insts@)[k] == mods[k]);
                let ghost ze1 = zone_entries(entries@.take(i + 1), kinds);
                assert(ze1 == ze.push(*entry));
                assert forall|k: int| #![trigger modules_of(insts@)[k]] n0 <= k < slots_of(insts@).len() implies set_up(
                    registry,
                    &ze1[k - n0],
                    &modules_of(insts@)[k],
                    views_of(snaps@)[k],
                    now,
                    ticks_of(insts@)[k],
                ) by {
                    if k < mods.len() {
                        assert(mods[k] == modules_of(insts@)[k]);
                        assert(set_up(registry, &ze[k - n0], &mods[k], views_before[k], now, ticks[k]));
                        assert(ze1[k - n0] == ze[k - n0]);
                    } else {
                        assert(ze1[k - n0] == *entry);
                    }
                }
                assert forall|k: int| 0 <= k < n0 implies {
                    &&& #[trigger] modules_of(insts@)[k] == start_mods[k]
                    &&& views_of(snaps@)[k] == start_snaps[k]
                    &&& ticks_of(insts@)[k] == start_ticks[k]
                } by {
                    assert(mods[k] == start_mods[k]);
                    assert(modules_of(insts@)[k] == mods[k]);
                }
            },
            None => {
                assert(!kinds.contains(entry.kind@));
                assert(zone_entries(entries@.take(i + 1), kinds) == ze);
            },
        }
        i = i + 1;
    }
    assert(entries@.take(entries.len() as int) =~= entries@);
}


impl ModuleRuntime {
    /// The configuration of each slot, in bar order.
    pub closed spec fn slots(&self) -> Seq<SlotView> {
        slots_of(self.instances@)
    }

    /// The module in each slot.
    pub closed spec fn modules(&self) -> Seq<BuiltModule> {
        modules_of(self.instances@)
    }

    /// When each slot ticks next.
    pub closed spec fn next_ticks(&self) -> Seq<u64> {
        ticks_of(self.instances@)
    }

    /// The current snapshot of each slot.
    pub closed spec fn snapshot_views(&self) -> Seq<SnapshotView> {
        views_of(self.snapshots@)
    }

    /// Every slot has its snapshot, and each snapshot is in its slot's
    /// region.
    #[verifier::type_invariant]
    spec fn wf(&self) -> bool {
        paired(self.instances@, self.snapshots@)
    }

    /// Every slot has a snapshot, a module and a next tick, and each
    /// snapshot is in its slot's region.
    pub open spec fn consistent(&self) -> bool {
        &&& self.snapshot_views().len() == self.slots().len()
        &&& self.next_ticks().len() == self.slots().len()
        &&& self.modules().len() == self.slots().len()
        &&& forall|i: int| 0 <= i < self.slots().len() ==> #[trigger] self.snapshot_views()[i].region == self.slots()[i].region
    }

    /// Builds the modules of `config` that `registry` knows, in bar order,
    /// and takes each one's initial snapshot in its region: each slot shows
    /// what its module's `initial` gives.  A module first ticks one
    /// interval after `now`.
    pub fn new(config: &ModulesConfig, registry: &ModuleRegistry, now: u64) -> (r: Self)
        ensures
            r.consistent(),
            r.slots() == planned_slots(config@, registry.kinds()),
            planned_entries(config, registry.kinds()).len() == r.slots().len(),
            forall|i: int| 0 <= i < r.slots().len() ==> #[trigger] set_up(
                registry,
                &planned_entries(config, registry.kinds())[i],
                &r.modules()[i],
                r.snapshot_views()[i],
                now,
                r.next_ticks()[i],
            ),
    {
        let ghost kinds = registry.kinds();
        let ghost el = zone_entries(config.left@, kinds);
        let ghost ec = zone_entries(config.center@, kinds);
        let ghost er = zone_entries(config.right@, kinds);
        let mut instances: Vec<ModuleInstance> = Vec::new();
        let mut snapshots: Vec<ModuleSnapshot> = Vec::new();
        assert(slots_of(instances@) =~= Seq::<SlotView>::empty());
        add_zone(&mut instances, &mut snapshots, &config.left, BarRegion::Left, registry, now);
        let ghost i1 = instances@;
        let ghost s1 = snapshots@;
        add_zone(&mut instances, &mut snapshots, &config.center, BarRegion::Center, registry, now);
        let ghost i2 = instances@;
        let ghost s2 = snapshots@;
        add_zone(&mut instances, &mut snapshots, &config.right, BarRegion::Right, registry, now);
        proof {
            lemma_paired(instances@, snapshots@);
        }
        let rt = ModuleRuntime { instances, snapshots };
        assert(rt.slots() =~= planned_slots(config@, kinds));
        let ghost all = planned_entries(config, kinds);
        assert(all == el + ec + er);
        let ghost n1 = el.len() as int;
        let ghost n2 = n1 + ec.len();
        assert forall|i: int| 0 <= i < rt.slots().len() implies #[trigger] set_up(
            registry,
            &all[i],
            &rt.modules()[i],
            rt.snapshot_views()[i],
            now,
            rt.next_ticks()[i],
        ) by {
            if i < n1 {
                assert(modules_of(i1)[i] == modules_of(i1)[i]);
                assert(set_up(registry, &el[i - 0], &modules_of(i1)[i], views_of(s1)[i], now, ticks_of(i1)[i]));
                assert(modules_of(i2)[i] == modules_of(i1)[i]);
                assert(rt.modules()[i] == modules_of(i2)[i]);
                assert(all[i] == el[i]);
            } else if i < n2 {
                assert(modules_of(i2)[i] == modules_of(i2)[i]);
                assert(set_up(registry, &ec[i - n1], &modules_of(i2)[i], views_of(s2)[i], now, ticks_of(i2)[i]));
                assert(rt.modules()[i] == modules_of(i2)[i]);
                assert(all[i] == ec[i - n1]);
            } else {
                assert(rt.modules()[i] == rt.modules()[i]);
                assert(all[i] == er[i - n2]);
            }
        }
        rt
    }

    /// The current snapshots, in bar order, without copying them.
    pub fn snapshots_ref(&self) -> (r: &[ModuleSnapshot])
        ensures
            r@.map_values(|s: ModuleSnapshot| s@) == self.snapshot_views(),
    {
        self.snapshots.as_slice()
    }

    /// A copy of the current snapshots, in bar order.
    pub fn snapshots(&self) -> (r: Vec<ModuleSnapshot>)
        ensures
            r@.map_values(|s: ModuleSnapshot| s@) == self.snapshot_views(),
    {
        let mut r: Vec<ModuleSnapshot> = Vec::new();
        let mut i: usize = 0;
        while i < self.snapshots.len()
            invariant
                i <= self.snapshots.len(),
                r@.len() == i,
                forall|k: int| 0 <= k < i ==> #[trigger] r@[k]@ == self.snapshots@[k]@,
            decreases self.snapshots.len() - i,
        {
            r.push(self.snapshots[i].clone());
            i = i + 1;
        }
        assert(r@.map_values(|s: ModuleSnapshot| s@) =~= self.snapshot_views());
        r
    }
}

fn opt_string_eq(a: &Option<String>, b: &Option<String>) -> (r: bool)
    ensures
        r == (opt_view(*a) == opt_view(*b)),
{
    match (a, b) {
        (Some(x), Some(y)) => *x == *y,
        (None, None) => true,
        _ => false,
    }
}

/// Whether a tick changed what the bar shows: the text or the colour.
pub open spec fn shown_changed(before: SnapshotView, after: SnapshotView) -> bool {
    before.text != after.text || before.fg != after.fg
}

impl ModuleRuntime {
    /// Ticks every module whose time has come (`next tick <= now`): takes
    /// its new snapshot in its region and schedules its next tick one
    /// interval after `now`: the slot then shows what the module's `tick`
    /// gives.  The others, modules included, are left as they are.  Returns
    /// whether a new snapshot shows a different text or colour, in which
    /// case the bar should be repainted.
    pub fn tick(&mut self, now: u64) -> (changed: bool)
        ensures
            final(self).consistent(),
            final(self).slots() == old(self).slots(),
            final(self).next_ticks().len() == old(self).next_ticks().len(),
            forall|i: int| 0 <= i < old(self).next_ticks().len() ==> {
                if #[trigger] old(self).next_ticks()[i] <= now {
                    &&& next_tick_after(&final(self).modules()[i], now, final(self).next_ticks()[i])
                    &&& shows_tick(&old(self).modules()[i], final(self).snapshot_views()[i])
                } else {
                    &&& final(self).next_ticks()[i] == old(self).next_ticks()[i]
                    &&& final(self).snapshot_views()[i] == old(self).snapshot_views()[i]
                    &&& final(self).modules()[i] == old(self).modules()[i]
                }
            },
            changed == exists|i: int| 0 <= i < old(self).next_ticks().len() && #[trigger] old(self).next_ticks()[i] <= now
                && shown_changed(old(self).snapshot_views()[i], final(self).snapshot_views()[i]),
    {
        proof {
            use_type_invariant(&*self);
        }
        let mut taken = ModuleRuntime { instances: Vec::new(), snapshots: Vec::new() };
        std::mem::swap(self, &mut taken);
        let ModuleRuntime { mut instances, mut snapshots } = taken;
        let ghost old_snaps = views_of(snapshots@);
        let ghost old_ticks = ticks_of(instances@);
        let ghost old_slots = slots_of(instances@);
        let ghost old_mods = modules_of(instances@);
        let mut changed = false;
        let n = instances.len();
        let mut i: usize = 0;
        while i < n
            invariant
                n == instances@.len(),
                i <= n,
                paired(instances@, snapshots@),
                slots_of(instances@) == old_slots,
                ticks_of(instances@).len() == n,
                old_ticks.len() == n,
                old_snaps.len() == n,
                old_mods.len() == n,
                forall|k: int| i <= k < n ==> #[trigger] ticks_of(instances@)[k] == old_ticks[k],
                forall|k: int| i <= k < n ==> #[trigger] views_of(snapshots@)[k] == old_snaps[k],
                forall|k: int| i <= k < n ==> #[trigger] modules_of(instances@)[k] == old_mods[k],
                forall|k: int| 0 <= k < i ==> {
                    if #[trigger] old_ticks[k] <= now {
                        &&& next_tick_after(&modules_of(instances@)[k], now, ticks_of(instances@)[k])
                        &&& shows_tick(&old_mods[k], views_of(snapshots@)[k])
                    } else {
                        &&& ticks_of(instances@)[k] == old_ticks[k]
                        &&& views_of(snapshots@)[k] == old_snaps[k]
                        &&& modules_of(instances@)[k] == old_mods[k]
                    }
                },
                changed == exists|k: int| 0 <= k < i && #[trigger] old_ticks[k] <= now
                    && shown_changed(old_snaps[k], views_of(snapshots@)[k]),
            decreases n - i,
        {
            proof {
                lemma_paired(instances@, snapshots@);
            }
            let ghost ticks0 = ticks_of(instances@);
            let ghost snaps0 = views_of(snapshots@);
            let ghost insts0 = instances@;
            let ghost mods0 = modules_of(instances@);
            assert(ticks_of(instances@)[i as int] == old_ticks[i as int]);
            assert(mods0[i as int] == old_mods[i as int]);
            assert(snaps0[i as int] == old_snaps[i as int]);
            assert(insts0[i as int].next_tick == ticks0[i as int]);
            if now >= instances[i].next_tick {
                let mut new_snap = instances[i].module.tick();
                let ghost raw = new_snap@;
                assert(insts0[i as int].module.shows_after_tick(raw));
                new_snap.region = instances[i].region;
                let d = instances[i].module.interval();
                let ms = duration_millis(d);
                proof {
                    assert(instances@[i as int].module.ticks_every(d));
                }
                instances[i].next_tick = now.saturating_add(ms);
                let differs = !(snapshots[i].text == new_snap.text) || !opt_string_eq(
                    &snapshots[i].fg,
                    &new_snap.fg,
                );
                let ghost new_view = new_snap@;
                assert(instances@.len() == insts0.len());
                assert(forall|k: int| 0 <= k < n && k != i ==> instances@[k] == insts0[k]);
                assert(instances@[i as int].region == insts0[i as int].region);
                assert(new_view.region == insts0[i as int].region);
                snapshots[i] = new_snap;
                proof {
                    assert(slots_of(instances@) =~= old_slots);
                    assert(ticks_of(instances@) =~= ticks0.update(i as int, now.saturating_add(ms)));
                    assert(views_of(snapshots@) =~= snaps0.update(i as int, new_view));
                    assert forall|k: int| 0 <= k < snapshots@.len() implies #[trigger] snapshots@[k].region == instances@[k].region by {
                    }
                    assert(old_snaps[i as int] == snaps0[i as int]);
                    assert(differs == shown_changed(old_snaps[i as int], views_of(snapshots@)[i as int]));
                    assert(new_view == in_region(raw, new_view.region));
                    assert(shows_tick(&old_mods[i as int], views_of(snapshots@)[i as int]));
                    assert(forall|k: int| 0 <= k < n && k != i ==> #[trigger] modules_of(instances@)[k] == mods0[k]);
                }
                let ghost changed0 = changed;
                if differs {
                    changed = true;
                }
                proof {
                    if differs {
                        assert(old_ticks[i as int] <= now && shown_changed(old_snaps[i as int], views_of(snapshots@)[i as int]));
                    } else {
                        assert forall|k: int| 0 <= k < i + 1 && #[trigger] old_ticks[k] <= now
                            && shown_changed(old_snaps[k], views_of(snapshots@)[k]) implies 0 <= k < i
                            && old_ticks[k] <= now && shown_changed(old_snaps[k], snaps0[k]) by {
                        }
                        assert forall|k: int| 0 <= k < i && #[trigger] old_ticks[k] <= now
                            && shown_changed(old_snaps[k], snaps0[k]) implies shown_changed(old_snaps[k], views_of(snapshots@)[k]) by {
                        }
                    }
                    assert forall|k: int| 0 <= k < i + 1 implies {
                        if #[trigger] old_ticks[k] <= now {
                            &&& next_tick_after(&modules_of(instances@)[k], now, ticks_of(instances@)[k])
                            &&& shows_tick(&old_mods[k], views_of(snapshots@)[k])
                        } else {
                            &&& ticks_of(instances@)[k] == old_ticks[k]
                            &&& views_of(snapshots@)[k] == old_snaps[k]
                            &&& modules_of(instances@)[k] == old_mods[k]
                        }
                    } by {
                        if k < i {
                            assert(ticks0[k] == ticks_of(instances@)[k]);
                            assert(snaps0[k] == views_of(snapshots@)[k]);
                            assert(mods0[k] == modules_of(instances@)[k]);
                        }
                    }
                }
            } else {
                proof {
                    assert(old_ticks[i as int] > now);
                }
            }
            proof {
                assert forall|k: int| i + 1 <= k < n implies #[trigger] ticks_of(instances@)[k] == old_ticks[k] by {
                    assert(ticks0[k] == old_ticks[k]);
                    assert(ticks0[k] == ticks_of(instances@)[k]);
                }
                assert forall|k: int| i + 1 <= k < n implies #[trigger] views_of(snapshots@)[k] == old_snaps[k] by {
                    assert(snaps0[k] == old_snaps[k]);
                    assert(snaps0[k] == views_of(snapshots@)[k]);
                }
                assert forall|k: int| i + 1 <= k < n implies #[trigger] modules_of(instances@)[k] == old_mods[k] by {
                    assert(mods0[k] == old_mods[k]);
                    assert(mods0[k] == modules_of(instances@)[k]);
                }
            }
            i = i + 1;
        }
        proof {
            lemma_paired(instances@, snapshots@);
        }
        *self = ModuleRuntime { instances, snapshots };
        assert(old_ticks == old(self).next_ticks());
        assert(old_snaps == old(self).snapshot_views());
        assert(views_of(snapshots@) == self.snapshot_views());
        changed
    }

    /// Routes a click or scroll at `x` on a bar `bar_w` pixels wide to the
    /// first module in that third of the bar.  Its configured command for
    /// the event comes first; without one the module handles the event
    /// itself; no other module is touched.  Returns the command to run, if
    /// any.
    pub fn dispatch_event(&mut self, x: i32, bar_w: u32, event: ModuleEvent) -> (r: Option<String>)
        requires
            coarse_zone_computes(x as int, as_i32(bar_w)),
        ensures
            final(self).consistent(),
            final(self).slots() == old(self).slots(),
            final(self).next_ticks() == old(self).next_ticks(),
            final(self).snapshot_views() == old(self).snapshot_views(),
            final(self).modules().len() == old(self).modules().len(),
            match first_in_zone(old(self).slots(), coarse_zone_spec(x as int, as_i32(bar_w)), 0) {
                None => r is None && final(self).modules() == old(self).modules(),
                Some(i) => match configured_command(old(self).slots()[i], event) {
                    Some(c) => opt_view(r) == Some(c) && final(self).modules() == old(self).modules(),
                    None => {
                        &&& old(self).modules()[i].answers(event, opt_view(r))
                        &&& forall|k: int| 0 <= k < old(self).modules().len() && k != i
                            ==> #[trigger] final(self).modules()[k] == old(self).modules()[k]
                    },
                },
            },
    {
        proof {
            use_type_invariant(&*self);
        }
        let zone = coarse_zone(x, bar_w);
        let ghost slots = self.slots();
        let mut i: usize = 0;
        while i < self.instances.len()
            invariant
                i <= self.instances.len(),
                zone == coarse_zone_spec(x as int, as_i32(bar_w)),
                self.instances@ == old(self).instances@,
                self.snapshots@ == old(self).snapshots@,
                old(self).wf(),
                slots == self.slots(),
                first_in_zone(slots, zone, 0) == first_in_zone(slots, zone, i as int),
            decreases self.instances.len() - i,
        {
            if self.instances[i].region == zone {
                let cmd = match event {
                    ModuleEvent::LeftClick => super::clone_opt_string(&self.instances[i].on_click),
                    ModuleEvent::ScrollUp => super::clone_opt_string(&self.instances[i].on_scroll_up),
                    ModuleEvent::ScrollDown => super::clone_opt_string(&self.instances[i].on_scroll_down),
                    _ => None,
                };
                proof {
                    assert(slots[i as int] == self.instances@[i as int].view());
                    assert(first_in_zone(slots, zone, i as int) == Some(i as int));
                }
                if cmd.is_some() {
                    return cmd;
                }
                let mut taken = ModuleRuntime { instances: Vec::new(), snapshots: Vec::new() };
                std::mem::swap(self, &mut taken);
                let ModuleRuntime { mut instances, snapshots } = taken;
                let ghost before = instances@;
                let r = instances[i].module.on_event(event);
                proof {
                    assert(instances@.len() == before.len());
                    assert(forall|k: int| 0 <= k < before.len() && k != i ==> instances@[k] == before[k]);
                    assert(instances@[i as int].region == before[i as int].region);
                    assert forall|k: int| 0 <= k < snapshots@.len() implies #[trigger] snapshots@[k].region == instances@[k].region by {
                        assert(old(self).snapshots@[k].region == old(self).instances@[k].region);
                    }
                }
                *self = ModuleRuntime { instances, snapshots };
                proof {
                    assert(self.slots() =~= slots);
                    assert(self.next_ticks() =~= old(self).next_ticks());
                    assert(self.snapshot_views() =~= old(self).snapshot_views());
                    assert(self.modules().len() == old(self).modules().len());
                    assert(forall|k: int| 0 <= k < before.len() && k != i ==> #[trigger] self.modules()[k] == old(self).modules()[k]);
                    assert(old(self).modules()[i as int] == before[i as int].module);
                    lemma_paired(self.instances@, self.snapshots@);
                }
                return r;
            }
            i = i + 1;
        }
        None
    }
}

/// A slot is scheduled one interval of its module after the time it was set
/// up or last ticked: for a module whose interval is `d`, the next tick is
/// `now` plus the milliseconds of `d` (capped at `u64::MAX`), so a tick at
/// any earlier time leaves it alone.
pub proof fn law_next_tick_one_interval(m: &BuiltModule, now: u64, next: u64, d: Duration, later: u64)
    requires
        m.ticks_every(d),
        forall|e: Duration| #[trigger] m.ticks_every(e) ==> e == d,
        next_tick_after(m, now, next),
    ensures
        now + millis_of(d) <= u64::MAX ==> next == now + millis_of(d),
        now + millis_of(d) > u64::MAX ==> next == u64::MAX,
        later < now + millis_of(d) && later < u64::MAX ==> later < next,
{
    let e = choose|e: Duration| #[trigger] m.ticks_every(e) && next == add_capped(now, capped_millis(e));
    assert(e == d);
    assert(next == add_capped(now, capped_millis(d)));
    if millis_of(d) <= u64::MAX {
        assert(capped_millis(d) == millis_of(d));
    } else {
        assert(capped_millis(d) == u64::MAX);
    }
}

/// A click or scroll on a slot runs the command configured for it: a left
/// click its `on-click`, a scroll up its `on-scroll-up`, a scroll down its
/// `on-scroll-down`; right and middle clicks have none.
pub proof fn law_configured_command_per_event(s: SlotView)
    ensures
        configured_command(s, ModuleEvent::LeftClick) == s.on_click,
        configured_command(s, ModuleEvent::ScrollUp) == s.on_scroll_up,
        configured_command(s, ModuleEvent::ScrollDown) == s.on_scroll_down,
        configured_command(s, ModuleEvent::RightClick) is None,
        configured_command(s, ModuleEvent::MiddleClick) is None,
{
}

/// The slot an event goes to is the first one in the clicked region: it
/// lies in that region and no earlier slot does; with no slot in the region
/// there is none.
pub proof fn law_first_in_zone(slots: Seq<SlotView>, zone: BarRegion, i: int)
    requires
        0 <= i <= slots.len(),
    ensures
        match first_in_zone(slots, zone, i) {
            Some(j) => i <= j < slots.len() && slots[j].region == zone
                && forall|k: int| i <= k < j ==> slots[k].region != zone,
            None => forall|k: int| i <= k < slots.len() ==> slots[k].region != zone,
        },
    decreases slots.len() - i,
{
    if i < slots.len() && slots[i].region != zone {
        law_first_in_zone(slots, zone, i + 1);
    }
}

} // verus!
