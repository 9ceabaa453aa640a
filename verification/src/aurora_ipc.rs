//! aurora IPC: the wallpaper shown on each monitor.
//!
//! Reading aurora's named pipe and decoding its JSON events happen outside
//! this library; `AuroraClient::handle_event` folds each decoded event into
//! the shared state, as `apply_wallpaper_event` decides.
use std::sync::Arc;

use parking_lot::RwLock;
use vstd::prelude::*;

use crate::config::types::StringMap;
use crate::text::chars_eq_str;
use crate::wiri_ipc::share;

verus! {

/// The current wallpaper path of each monitor, by monitor id.
#[derive(Debug, Clone)]
pub struct AuroraState {
    pub current_wallpapers: StringMap,
}

impl Default for AuroraState {
    fn default() -> (r: Self)
        ensures
            r.current_wallpapers.view() == Map::<Seq<char>, Seq<char>>::empty(),
    {
        AuroraState { current_wallpapers: StringMap::new() }
    }
}

/// What an event of type `kind` with the fields `monitor_id` and `path` (when
/// they are strings) does: a `wallpaper_changed` event with both fields
/// records the path for the monitor.
pub open spec fn wallpaper_event_spec(
    wallpapers: Map<Seq<char>, Seq<char>>,
    kind: Seq<char>,
    monitor: Option<Seq<char>>,
    path: Option<Seq<char>>,
) -> Map<Seq<char>, Seq<char>> {
    if kind == "wallpaper_changed"@ && monitor is Some && path is Some {
        wallpapers.insert(monitor->0, path->0)
    } else {
        wallpapers
    }
}

/// Applies an aurora event.  Returns `false` for a `wallpaper_changed`
/// event that lacks its monitor id or its path, which the caller may
/// report; `true` otherwise.
pub fn apply_wallpaper_event(
    state: &mut AuroraState,
    kind: &str,
    monitor: Option<String>,
    path: Option<String>,
) -> (complete: bool)
    ensures
        final(state).current_wallpapers.view() == wallpaper_event_spec(
            old(state).current_wallpapers.view(),
            kind@,
            crate::config::types::opt_view(monitor),
            crate::config::types::opt_view(path),
        ),
        complete == !(kind@ == "wallpaper_changed"@ && (monitor is None || path is None)),
{
    let k = crate::text::chars_of(kind);
    if !chars_eq_str(&k, "wallpaper_changed") {
        return true;
    }
    match (monitor, path) {
        (Some(m), Some(p)) => {
            state.current_wallpapers.insert(m, p);
            true
        },
        _ => false,
    }
}

#[verifier::external_type_specification]
#[verifier::external_body]
#[verifier::reject_recursive_types(R)]
#[verifier::reject_recursive_types(T)]
pub struct ExLockApiRwLock<R, T: ?Sized>(parking_lot::lock_api::RwLock<R, T>);

#[verifier::external_type_specification]
#[verifier::external_body]
pub struct ExRawRwLock(parking_lot::RawRwLock);

/// A fresh `parking_lot::RwLock` holding `value`, with `RwLock::new`.
#[verifier::external_body]
fn new_aurora_lock(value: AuroraState) -> RwLock<AuroraState> {
    RwLock::new(value)
}

/// A copy of the state behind the lock, taken under `RwLock::read`.  The
/// state is shared with other threads, so nothing is stated of the copy.
#[verifier::external_body]
pub(crate) fn read_aurora_state(state: &Arc<RwLock<AuroraState>>) -> AuroraState {
    state.read().clone()
}

/// What `serde_json` reads from `line` as a JSON value for the member
/// `key`: `None` when the line is not JSON, otherwise the member's text
/// when the value has that member and it is a string.
pub uninterp spec fn json_member_of(line: Seq<char>, key: Seq<char>) -> Option<Option<Seq<char>>>;

/// The string value of a member of a JSON object, as a plain value.
pub open spec fn opt_text(o: Option<String>) -> Option<Seq<char>> {
    match o {
        Some(s) => Some(s@),
        None => None,
    }
}

/// Reads `line` with `serde_json::from_str` into a `serde_json::Value` and
/// takes its member `key` with `Value::get` and `Value::as_str`.
#[verifier::external_body]
fn json_member(line: &str, key: &str) -> (r: Option<Option<String>>)
    ensures
        json_member_of(line@, key@) == match r {
            Some(m) => Some(opt_text(m)),
            None => None,
        },
{
    let value = serde_json::from_str::<serde_json::Value>(line).ok()?;
    Some(value.get(key).and_then(serde_json::Value::as_str).map(str::to_string))
}

/// The bar's side of aurora's event stream: the shared wallpaper state.
pub struct AuroraClient {
    state: Arc<RwLock<AuroraState>>,
}

impl AuroraClient {
    pub fn new() -> Self {
        AuroraClient { state: Arc::new(new_aurora_lock(AuroraState::default())) }
    }

    /// The lock that holds this client's state.
    pub closed spec fn handle(&self) -> Arc<RwLock<AuroraState>> {
        self.state
    }

    /// The shared state handle: the lock this client writes its events to.
    pub fn state(&self) -> (r: Arc<RwLock<AuroraState>>)
        ensures
            r == self.handle(),
    {
        share(&self.state)
    }
}

/// The event on one line of aurora's event stream: its `type` (empty when
/// absent), `monitor_id` and `path`.  Blank lines and lines that are not
/// JSON give `None`.
pub fn aurora_line_event(line: &str) -> (r: Option<(String, Option<String>, Option<String>)>)
    ensures
        crate::text::trim(line@).len() == 0 ==> r is None,
        crate::text::trim(line@).len() > 0 ==> match (
            json_member_of(line@, "type"@),
            json_member_of(line@, "monitor_id"@),
            json_member_of(line@, "path"@),
        ) {
            (Some(kind), Some(monitor), Some(path)) => {
                &&& r is Some
                &&& (r->0).0@ == match kind {
                    Some(k) => k,
                    None => Seq::empty(),
                }
                &&& opt_text((r->0).1) == monitor
                &&& opt_text((r->0).2) == path
            },
            _ => r is None,
        },
{
    let t = crate::text::trim_str(line);
    if t.len() == 0 {
        return None;
    }
    let kind = match json_member(line, "type") {
        Some(k) => k,
        None => {
            return None;
        },
    };
    let monitor = json_member(line, "monitor_id");
    let path = json_member(line, "path");
    match (monitor, path) {
        (Some(m), Some(p)) => {
            let k = match kind {
                Some(k) => k,
                None => String::new(),
            };
            Some((k, m, p))
        },
        _ => None,
    }
}

impl Default for AuroraClient {
    fn default() -> Self {
        Self::new()
    }
}

/// A `wallpaper_changed` event with a monitor id and a path records that
/// path for that monitor, whatever the monitor showed before, and leaves
/// every other monitor's wallpaper as it was.
pub proof fn law_wallpaper_changed_records_path(
    wallpapers: Map<Seq<char>, Seq<char>>,
    monitor: Seq<char>,
    path: Seq<char>,
    other: Seq<char>,
)
    ensures
        ({
            let w = wallpaper_event_spec(wallpapers, "wallpaper_changed"@, Some(monitor), Some(path));
            &&& w.contains_key(monitor)
            &&& w[monitor] == path
            &&& other != monitor ==> (w.contains_key(other) == wallpapers.contains_key(other)
                && w[other] == wallpapers[other])
        }),
{
}

/// Other events, and a `wallpaper_changed` event without its monitor id or
/// its path, leave the wallpapers as they were.
pub proof fn law_wallpaper_unchanged_otherwise(
    wallpapers: Map<Seq<char>, Seq<char>>,
    kind: Seq<char>,
    monitor: Option<Seq<char>>,
    path: Option<Seq<char>>,
)
    requires
        kind != "wallpaper_changed"@ || monitor is None || path is None,
    ensures
        wallpaper_event_spec(wallpapers, kind, monitor, path) == wallpapers,
{
}

} // verus!
