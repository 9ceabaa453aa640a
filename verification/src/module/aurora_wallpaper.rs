//! Aurora-wallpaper module: the file name of the wallpaper on a monitor.
use std::sync::Arc;
use std::time::Duration;

use parking_lot::RwLock;
use vstd::prelude::*;

use super::{
    duration_of_millis, plain_snapshot, BarRegion, Module, ModuleEvent, ModuleSnapshot, SnapshotView,
};
use crate::aurora_ipc::{read_aurora_state, AuroraState};
use crate::config::types::ModuleEntry;
use crate::module::battery::{number_of, number_setting};
use crate::text::{chars_of, string_of};

verus! {

pub const DEFAULT_WALLPAPER_MAX_LENGTH: usize = 40;

/// The final component of a path, with `Path::file_name`, when it has one
/// and it is valid Unicode.  How a path splits into components depends on
/// the platform, so nothing is stated of the result.
#[verifier::external_body]
fn file_name_of(path: &str) -> Option<String> {
    std::path::Path::new(path).file_name().and_then(|s| s.to_str()).map(|s| s.to_string())
}

/// The most characters the module shows: its `max-length` setting, 40 by
/// default.
pub fn wallpaper_max_length(entry: &ModuleEntry) -> (r: usize)
    ensures
        r as nat == number_setting(
            entry@.extra,
            "max-length"@,
            usize::MAX as nat,
            DEFAULT_WALLPAPER_MAX_LENGTH as nat,
        ),
{
    number_of(&entry.extra, "max-length", usize::MAX as u64, DEFAULT_WALLPAPER_MAX_LENGTH as u64) as usize
}

/// The length in bytes of the UTF-8 encoding of `s`, as `str::len`
/// reports it.
pub open spec fn utf8_len(s: Seq<char>) -> usize {
    vstd::utf8::encode_utf8(s).len() as usize
}

/// A file name shortened for the bar: when its UTF-8 encoding takes more
/// than `max` bytes, its first `max` characters followed by `…`.
pub open spec fn shortened_spec(file: Seq<char>, max: nat) -> Seq<char> {
    if utf8_len(file) > max {
        (if max < file.len() {
            file.take(max as int)
        } else {
            file
        }).push('\u{2026}')
    } else {
        file
    }
}

pub fn shorten_file_name(file: &str, max_length: usize) -> (r: String)
    ensures
        r@ == shortened_spec(file@, max_length as nat),
{
    if file.len() > max_length {
        let c = chars_of(file);
        let n = if max_length < c.len() {
            max_length
        } else {
            c.len()
        };
        let mut t = crate::text::string_of_range(&c, 0, n);
        assert(c@.subrange(0, n as int) == (if max_length < c@.len() {
            c@.take(max_length as int)
        } else {
            c@
        }));
        t.push('\u{2026}');
        t
    } else {
        string_of(&chars_of(file))
    }
}

/// The text shown for a wallpaper `path` whose file name, as the platform
/// reads it, is `file_name`: that name (the whole path when there is none),
/// shortened to `max`.
pub open spec fn label_spec(path: Seq<char>, file_name: Option<Seq<char>>, max: nat) -> Seq<char> {
    shortened_spec(
        match file_name {
            Some(f) => f,
            None => path,
        },
        max,
    )
}

pub fn wallpaper_label(path: String, file_name: Option<String>, max_length: usize) -> (r: String)
    ensures
        r@ == label_spec(path@, crate::config::types::opt_view(file_name), max_length as nat),
{
    let file = match file_name {
        Some(f) => f,
        None => path,
    };
    shorten_file_name(file.as_str(), max_length)
}

/// The text of the module: the label of the wallpaper of some monitor;
/// `(no wallpaper)` when no monitor has one.
pub fn wallpaper_text(state: &AuroraState, max_length: usize) -> (r: String)
    ensures
        state.current_wallpapers.view() == Map::<Seq<char>, Seq<char>>::empty() ==> r@
            == "(no wallpaper)"@,
        state.current_wallpapers.view() != Map::<Seq<char>, Seq<char>>::empty() ==> exists|
            k: Seq<char>,
            f: Option<Seq<char>>,
        |
            #![trigger state.current_wallpapers.view().contains_key(k), label_spec(state.current_wallpapers.view()[k], f, max_length as nat)]
            state.current_wallpapers.view().contains_key(k) && r@ == label_spec(
                state.current_wallpapers.view()[k],
                f,
                max_length as nat,
            ),
{
    match state.current_wallpapers.first_entry() {
        Some((key, path)) => {
            let file = file_name_of(path.as_str());
            let ghost fv = crate::config::types::opt_view(file);
            let ghost kv = key@;
            let r = wallpaper_label(path, file, max_length);
            assert(state.current_wallpapers.view().contains_key(kv) && r@ == label_spec(
                state.current_wallpapers.view()[kv],
                fv,
                max_length as nat,
            ));
            r
        },
        None => string_of(&chars_of("(no wallpaper)")),
    }
}

pub struct AuroraWallpaperModule {
    state: Arc<RwLock<AuroraState>>,
    region: BarRegion,
    max_length: usize,
}

impl AuroraWallpaperModule {
    pub closed spec fn max_length(&self) -> usize {
        self.max_length
    }

    pub closed spec fn region(&self) -> BarRegion {
        self.region
    }

    /// The module shows in the right zone, at most `max-length` characters
    /// of the name (40 by default).
    pub fn new(entry: &ModuleEntry, state: Arc<RwLock<AuroraState>>) -> (m: Self)
        ensures
            m.max_length() as nat == number_setting(
                entry@.extra,
                "max-length"@,
                usize::MAX as nat,
                DEFAULT_WALLPAPER_MAX_LENGTH as nat,
            ),
            m.region() == BarRegion::Right,
    {
        AuroraWallpaperModule { state, region: BarRegion::Right, max_length: wallpaper_max_length(entry) }
    }

    fn snapshot(&self) -> (r: ModuleSnapshot)
        ensures
            r@.fg is None,
            r@.icon is None,
            r@.region == self.region(),
    {
        let s = read_aurora_state(&self.state);
        plain_snapshot(wallpaper_text(&s, self.max_length), self.region)
    }
}

impl Module for AuroraWallpaperModule {
    open spec fn shows_initially(&self, s: SnapshotView) -> bool {
        s.fg is None && s.icon is None && s.region == self.region()
    }

    open spec fn shows_after_tick(&self, s: SnapshotView) -> bool {
        s.fg is None && s.icon is None && s.region == self.region()
    }

    open spec fn ticks_every(&self, d: Duration) -> bool {
        d == duration_of_millis(2000)
    }

    /// Clicks and scrolls run nothing.
    open spec fn answers(&self, event: ModuleEvent, r: Option<Seq<char>>) -> bool {
        r is None
    }

    fn kind(&self) -> (r: &'static str)
        ensures
            r@ == "aurora-wallpaper"@,
    {
        "aurora-wallpaper"
    }

    fn initial(&self) -> (r: ModuleSnapshot)
        ensures
            r@.fg is None,
            r@.icon is None,
            r@.region == self.region(),
    {
        self.snapshot()
    }

    fn tick(&mut self) -> (r: ModuleSnapshot)
        ensures
            r@.fg is None,
            r@.icon is None,
            r@.region == old(self).region(),
    {
        self.snapshot()
    }

    fn interval(&self) -> (d: Duration)
        ensures
            d == duration_of_millis(2000),
    {
        Duration::from_millis(2000)
    }

    fn on_event(&mut self, _event: ModuleEvent) -> (r: Option<String>) {
        None
    }
}

} // verus!
