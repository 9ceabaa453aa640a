//! Modules: the `Module` trait, the snapshots modules emit, the registry of
//! module kinds and the built-in modules.
use std::time::Duration;

use vstd::prelude::*;

use crate::config::types::ModuleEntry;
use crate::text::{chars_eq, chars_of};

pub mod aurora_wallpaper;
pub mod battery;
pub mod clock;
pub mod cpu;
pub mod custom;
pub mod focused_window;
pub mod memory;
pub mod network;
pub mod runtime;
pub mod tray;
pub mod volume;
pub mod workspaces;

verus! {

/// The length of time `Duration::from_millis(ms)` denotes.
pub uninterp spec fn duration_of_millis(ms: u64) -> Duration;

/// `Duration::from_millis` builds the duration of `millis` milliseconds.
pub assume_specification[ core::time::Duration::from_millis ](millis: u64) -> (d: Duration)
    ensures
        d == duration_of_millis(millis),
;

// ---------------------------------------------------------------------------
// WiriState: window-manager state shared over IPC
// ---------------------------------------------------------------------------

#[derive(Debug, Clone)]
pub struct WiriState {
    /// Ordered workspace names, e.g. ["1", "2", "3", "4", "5"].
    pub workspaces: Vec<String>,
    /// Index (0-based) of the focused workspace.
    pub focused_workspace: usize,
    /// HWND of the focused window, as wiri reports it.
    pub focused_window_hwnd: Option<isize>,
    /// Title of the focused window.
    pub focused_window_title: String,
}

pub struct WiriView {
    pub workspaces: Seq<Seq<char>>,
    pub focused_workspace: usize,
    pub focused_window_hwnd: Option<isize>,
    pub focused_window_title: Seq<char>,
}

impl View for WiriState {
    type V = WiriView;

    open spec fn view(&self) -> WiriView {
        WiriView {
            workspaces: self.workspaces@.map_values(|s: String| s@),
            focused_workspace: self.focused_workspace,
            focused_window_hwnd: self.focused_window_hwnd,
            focused_window_title: self.focused_window_title@,
        }
    }
}

impl Default for WiriState {
    fn default() -> (r: Self)
        ensures
            r@.workspaces.len() == 0,
            r@.focused_workspace == 0,
            r@.focused_window_hwnd is None,
            r@.focused_window_title.len() == 0,
    {
        WiriState {
            workspaces: Vec::new(),
            focused_workspace: 0,
            focused_window_hwnd: None,
            focused_window_title: String::new(),
        }
    }
}

// ---------------------------------------------------------------------------
// BarRegion: which third of the bar a module belongs to
// ---------------------------------------------------------------------------

#[derive(Debug, Clone, Copy, PartialEq, Eq, Structural)]
pub enum BarRegion {
    Left,
    Center,
    Right,
}

impl Default for BarRegion {
    fn default() -> (r: Self)
        ensures
            r == BarRegion::Left,
    {
        BarRegion::Left
    }
}

// ---------------------------------------------------------------------------
// ModuleSnapshot: the render state a module emits
// ---------------------------------------------------------------------------

#[derive(Debug)]
pub struct ModuleSnapshot {
    pub text: String,
    pub fg: Option<String>,
    pub icon: Option<char>,
    pub region: BarRegion,
}

pub struct SnapshotView {
    pub text: Seq<char>,
    pub fg: Option<Seq<char>>,
    pub icon: Option<char>,
    pub region: BarRegion,
}

impl View for ModuleSnapshot {
    type V = SnapshotView;

    open spec fn view(&self) -> SnapshotView {
        SnapshotView {
            text: self.text@,
            fg: crate::config::types::opt_view(self.fg),
            icon: self.icon,
            region: self.region,
        }
    }
}

pub fn clone_opt_string(o: &Option<String>) -> (r: Option<String>)
    ensures
        crate::config::types::opt_view(r) == crate::config::types::opt_view(*o),
{
    match o {
        Some(s) => Some(s.clone()),
        None => None,
    }
}

impl Clone for ModuleSnapshot {
    fn clone(&self) -> (r: Self)
        ensures
            r@ == self@,
    {
        ModuleSnapshot {
            text: self.text.clone(),
            fg: clone_opt_string(&self.fg),
            icon: self.icon,
            region: self.region,
        }
    }
}

impl Default for ModuleSnapshot {
    fn default() -> (r: Self)
        ensures
            r@ == (SnapshotView { text: Seq::empty(), fg: None, icon: None, region: BarRegion::Left }),
    {
        ModuleSnapshot { text: String::new(), fg: None, icon: None, region: BarRegion::Left }
    }
}

/// A snapshot with the given text in `region`, with no colour and no icon.
pub fn plain_snapshot(text: String, region: BarRegion) -> (r: ModuleSnapshot)
    ensures
        r@ == (SnapshotView { text: text@, fg: None, icon: None, region }),
{
    ModuleSnapshot { text, fg: None, icon: None, region }
}

// ---------------------------------------------------------------------------
// ModuleEvent: input events forwarded from the bar
// ---------------------------------------------------------------------------

#[derive(Debug, Clone, Copy, PartialEq, Eq, Structural)]
pub enum ModuleEvent {
    LeftClick,
    RightClick,
    MiddleClick,
    ScrollUp,
    ScrollDown,
}

// ---------------------------------------------------------------------------
// The Module trait
// ---------------------------------------------------------------------------

/// A bar module.  The bar calls `initial` once, then `tick` every
/// `interval`, and `on_event` on clicks and scrolls; a command that
/// `on_event` returns is run by the bar.
///
/// Each method's result is tied to a relation that the module type
/// defines; a type that does not define one leaves that result open.
pub trait Module: Send + Sync {
    /// What a snapshot from `initial` shows.
    open spec fn shows_initially(&self, s: SnapshotView) -> bool {
        true
    }

    /// What a snapshot from `tick` shows, the module before the tick.
    open spec fn shows_after_tick(&self, s: SnapshotView) -> bool {
        true
    }

    /// The time between ticks that `interval` gives.
    open spec fn ticks_every(&self, d: Duration) -> bool {
        true
    }

    /// What `on_event` answers to `event`, the module before the event.
    open spec fn answers(&self, event: ModuleEvent, r: Option<Seq<char>>) -> bool {
        true
    }

    fn kind(&self) -> &'static str;

    fn initial(&self) -> (r: ModuleSnapshot)
        ensures
            self.shows_initially(r@),
    ;

    fn tick(&mut self) -> (r: ModuleSnapshot)
        ensures
            old(self).shows_after_tick(r@),
    ;

    /// A click or scroll on the module: the command to run, if any.
    fn on_event(&mut self, event: ModuleEvent) -> (r: Option<String>)
        ensures
            old(self).answers(event, crate::config::types::opt_view(r)),
    ;

    fn interval(&self) -> (d: Duration)
        ensures
            self.ticks_every(d),
    ;
}

// ---------------------------------------------------------------------------
// Region settings
// ---------------------------------------------------------------------------

/// The region that an `extra` setting `region` names, if it names one.
pub open spec fn region_named(v: Seq<char>) -> Option<BarRegion> {
    if v == "left"@ {
        Some(BarRegion::Left)
    } else if v == "center"@ {
        Some(BarRegion::Center)
    } else if v == "right"@ {
        Some(BarRegion::Right)
    } else {
        None
    }
}

/// The region of a module configured by `extra`, `default` when `region`
/// is unset or names no region.
pub open spec fn region_setting(extra: Map<Seq<char>, Seq<char>>, default: BarRegion) -> BarRegion {
    if extra.contains_key("region"@) && region_named(extra["region"@]) is Some {
        region_named(extra["region"@])->0
    } else {
        default
    }
}

pub fn region_of(entry: &ModuleEntry, default: BarRegion) -> (r: BarRegion)
    ensures
        r == region_setting(entry@.extra, default),
{
    match entry.extra.get("region") {
        Some(v) => {
            let c = chars_of(v.as_str());
            if crate::text::chars_eq_str(&c, "left") {
                BarRegion::Left
            } else if crate::text::chars_eq_str(&c, "center") {
                BarRegion::Center
            } else if crate::text::chars_eq_str(&c, "right") {
                BarRegion::Right
            } else {
                default
            }
        },
        None => default,
    }
}

// ---------------------------------------------------------------------------
// ModuleRegistry: module kinds and the factories that build them
// ---------------------------------------------------------------------------

pub type BoxedModule = Box<dyn Module>;

/// A module freshly built by a factory.
pub struct BuiltModule(pub BoxedModule);

/// A built module is the module inside it.
impl Module for BuiltModule {
    open spec fn shows_initially(&self, s: SnapshotView) -> bool {
        self.0.shows_initially(s)
    }

    open spec fn shows_after_tick(&self, s: SnapshotView) -> bool {
        self.0.shows_after_tick(s)
    }

    open spec fn ticks_every(&self, d: Duration) -> bool {
        self.0.ticks_every(d)
    }

    open spec fn answers(&self, event: ModuleEvent, r: Option<Seq<char>>) -> bool {
        self.0.answers(event, r)
    }

    fn kind(&self) -> &'static str {
        self.0.kind()
    }

    fn initial(&self) -> (r: ModuleSnapshot) {
        self.0.initial()
    }

    fn tick(&mut self) -> (r: ModuleSnapshot) {
        self.0.tick()
    }

    fn on_event(&mut self, event: ModuleEvent) -> (r: Option<String>) {
        self.0.on_event(event)
    }

    fn interval(&self) -> (d: Duration) {
        self.0.interval()
    }
}

/// Builds a module from its configuration entry.
pub trait ModuleBuilder: Send + Sync {
    /// Whether `m` is a module that this builder may build for `entry`.
    open spec fn may_build(&self, entry: &ModuleEntry, m: BoxedModule) -> bool {
        true
    }

    fn build_module(&self, entry: &ModuleEntry) -> (m: BuiltModule)
        ensures
            self.may_build(entry, m.0),
    ;
}

/// Calls a factory closure on `entry`.  The contract is `may_build` of the
/// closure, which below is: where the closure's precondition holds for
/// `entry`, the module built is one that the closure's postcondition allows
/// for it (`call_requires` and `call_ensures`, Verus's own description of a
/// closure call).
#[verifier::external_body]
fn call_factory<F: Fn(&ModuleEntry) -> Box<dyn Module> + Send + Sync>(f: &F, entry: &ModuleEntry) -> (m: BuiltModule)
    ensures
        f.may_build(entry, m.0),
{
    BuiltModule(f(entry))
}

impl<F: Fn(&ModuleEntry) -> Box<dyn Module> + Send + Sync> ModuleBuilder for F {
    /// Where the closure accepts `entry`, a module that it returns for it.
    open spec fn may_build(&self, entry: &ModuleEntry, m: BoxedModule) -> bool {
        call_requires(*self, (entry,)) ==> call_ensures(*self, (entry,), m)
    }

    fn build_module(&self, entry: &ModuleEntry) -> (m: BuiltModule) {
        call_factory(self, entry)
    }
}

pub type ModuleFactory = Box<dyn ModuleBuilder>;

/// Factories by kind, the most recently registered first.
enum FactoryList {
    Empty,
    Entry { kind: String, factory: ModuleFactory, rest: Box<FactoryList> },
}

spec fn list_kinds(l: FactoryList) -> Set<Seq<char>>
    decreases l,
{
    match l {
        FactoryList::Empty => Set::empty(),
        FactoryList::Entry { kind, rest, .. } => list_kinds(*rest).insert(kind@),
    }
}

/// The factory of the most recent registration of `kind`.
spec fn list_factory(l: FactoryList, kind: Seq<char>) -> Option<ModuleFactory>
    decreases l,
{
    match l {
        FactoryList::Empty => None,
        FactoryList::Entry { kind: k, factory, rest } => if k@ == kind {
            Some(factory)
        } else {
            list_factory(*rest, kind)
        },
    }
}

proof fn lemma_factory_kinds(l: FactoryList, kind: Seq<char>)
    ensures
        list_factory(l, kind) is Some <==> list_kinds(l).contains(kind),
    decreases l,
{
    match l {
        FactoryList::Empty => {},
        FactoryList::Entry { rest, .. } => {
            lemma_factory_kinds(*rest, kind);
        },
    }
}

/// The kinds registered, oldest first.
spec fn list_registrations(l: FactoryList) -> Seq<Seq<char>>
    decreases l,
{
    match l {
        FactoryList::Empty => Seq::empty(),
        FactoryList::Entry { kind, rest, .. } => list_registrations(*rest).push(kind@),
    }
}

proof fn lemma_registrations_kinds(l: FactoryList)
    ensures
        forall|k: Seq<char>| #[trigger] list_kinds(l).contains(k) <==> list_registrations(l).contains(k),
    decreases l,
{
    match l {
        FactoryList::Empty => {},
        FactoryList::Entry { kind, rest, .. } => {
            lemma_registrations_kinds(*rest);
            let r = list_registrations(*rest);
            assert(list_kinds(l) == list_kinds(*rest).insert(kind@));
            assert(list_registrations(l) == r.push(kind@));
            assert forall|k: Seq<char>| #[trigger] list_kinds(l).contains(k) <==> list_registrations(l).contains(k) by {
                if r.contains(k) {
                    let j = choose|j: int| 0 <= j < r.len() && r[j] == k;
                    assert(r.push(kind@)[j] == k);
                }
                if r.push(kind@).contains(k) && k != kind@ {
                    let j = choose|j: int| 0 <= j < r.push(kind@).len() && r.push(kind@)[j] == k;
                    assert(r[j] == k);
                }
                if k == kind@ {
                    assert(r.push(kind@)[r.len() as int] == k);
                }
                if list_kinds(*rest).contains(k) {
                    assert(r.contains(k));
                }
            }
        },
    }
}

fn find_factory(l: &FactoryList, kind: &Vec<char>, entry: &ModuleEntry) -> (r: Option<BuiltModule>)
    ensures
        match list_factory(*l, kind@) {
            None => r is None,
            Some(f) => r is Some && f.may_build(entry, (r->0).0),
        },
    decreases l,
{
    match l {
        FactoryList::Empty => None,
        FactoryList::Entry { kind: k, factory, rest } => {
            let kc = chars_of(k.as_str());
            if chars_eq(&kc, kind) {
                Some(factory.build_module(entry))
            } else {
                find_factory(rest, kind, entry)
            }
        },
    }
}

/// Maps module kinds to the factories that build them.
pub struct ModuleRegistry {
    factories: FactoryList,
}

impl ModuleRegistry {
    /// The kinds that have a factory.
    pub closed spec fn kinds(&self) -> Set<Seq<char>> {
        list_kinds(self.factories)
    }

    /// The factory that builds the modules of `kind`: the one registered
    /// last for it.
    pub closed spec fn factory_for(&self, kind: Seq<char>) -> Option<ModuleFactory> {
        list_factory(self.factories, kind)
    }

    /// `m` is a module that the factory registered for `entry`'s kind may
    /// build for `entry`.
    pub open spec fn built_for(&self, entry: &ModuleEntry, m: BuiltModule) -> bool {
        match self.factory_for(entry.kind@) {
            Some(f) => f.may_build(entry, m.0),
            None => false,
        }
    }

    /// A kind has a factory exactly when it is one of the kinds.
    pub proof fn lemma_factory_kinds(&self, kind: Seq<char>)
        ensures
            self.factory_for(kind) is Some <==> self.kinds().contains(kind),
    {
        lemma_factory_kinds(self.factories, kind);
    }

    /// Every registration so far, by kind, oldest first; `build` uses the
    /// factory of the last registration of a kind.
    pub closed spec fn registrations(&self) -> Seq<Seq<char>> {
        list_registrations(self.factories)
    }

    /// A kind has a factory exactly when it was registered.
    pub proof fn lemma_kinds_registered(&self)
        ensures
            forall|k: Seq<char>| #[trigger] self.kinds().contains(k) <==> self.registrations().contains(k),
    {
        lemma_registrations_kinds(self.factories);
    }

    pub fn new() -> (r: Self)
        ensures
            r.kinds() == Set::<Seq<char>>::empty(),
            r.registrations() == Seq::<Seq<char>>::empty(),
    {
        ModuleRegistry { factories: FactoryList::Empty }
    }

    /// Registers `factory` for `kind`, replacing an earlier one.
    pub fn register(&mut self, kind: &str, factory: ModuleFactory)
        ensures
            final(self).kinds() == old(self).kinds().insert(kind@),
            final(self).registrations() == old(self).registrations().push(kind@),
            final(self).factory_for(kind@) is Some,
            forall|k: Seq<char>| k != kind@ ==> #[trigger] final(self).factory_for(k) == old(self).factory_for(k),
    {
        let k = crate::text::string_of(&chars_of(kind));
        let mut rest = FactoryList::Empty;
        std::mem::swap(&mut rest, &mut self.factories);
        self.factories = FactoryList::Entry { kind: k, factory, rest: Box::new(rest) };
    }

    /// Builds the module for `entry` with the factory last registered for
    /// its kind, handing it `entry`; `None` for a kind with no factory.
    pub fn build(&self, entry: &ModuleEntry) -> (r: Option<BuiltModule>)
        ensures
            r is Some <==> self.kinds().contains(entry.kind@),
            match self.factory_for(entry.kind@) {
                None => r is None,
                Some(f) => r is Some && f.may_build(entry, (r->0).0),
            },
    {
        proof {
            lemma_factory_kinds(self.factories, entry.kind@);
        }
        let k = chars_of(entry.kind.as_str());
        find_factory(&self.factories, &k, entry)
    }
}

// ---------------------------------------------------------------------------
// ModuleState: live render state of a module slot
// ---------------------------------------------------------------------------

/// The render state and pixel position of one module slot.
#[derive(Debug)]
pub struct ModuleState {
    pub snapshot: ModuleSnapshot,
    /// Pixel region occupied by the module, `(x_start, x_end)` in bar
    /// coordinates.
    pub pixel_range: (u32, u32),
}

impl Clone for ModuleState {
    fn clone(&self) -> (r: Self)
        ensures
            r.snapshot@ == self.snapshot@,
            r.pixel_range == self.pixel_range,
    {
        ModuleState { snapshot: self.snapshot.clone(), pixel_range: self.pixel_range }
    }
}

impl ModuleState {
    pub fn new(snapshot: ModuleSnapshot) -> (r: Self)
        ensures
            r.snapshot == snapshot,
            r.pixel_range == (0u32, 0u32),
    {
        ModuleState { snapshot, pixel_range: (0, 0) }
    }
}

} // verus!
