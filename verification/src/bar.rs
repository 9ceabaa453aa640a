//! Bar geometry: monitor rectangles, which monitors get a bar, where a bar
//! stands, and how the mouse wheel reads.
use vstd::prelude::*;

use crate::module::{BarRegion, ModuleEvent, ModuleSnapshot};
use crate::text::{
    all_hex_digits, hex_digits_value, is_hex_digit, lemma_hex_fits_u32, parse_hex_u32, sub_chars, trim,
    trim_str,
};

verus! {

/// An axis-aligned rectangle in physical pixels.
#[derive(Debug, Clone, Copy, Default)]
pub struct Rect {
    pub x: i32,
    pub y: i32,
    pub width: u32,
    pub height: u32,
}

impl Rect {
    pub fn new(x: i32, y: i32, width: u32, height: u32) -> (r: Self)
        ensures
            r.x == x,
            r.y == y,
            r.width == width,
            r.height == height,
    {
        Rect { x, y, width, height }
    }
}

/// The value of a `u32` read as an `i32` (`as i32`): sizes past `i32::MAX`
/// wrap to negative values.
pub open spec fn as_i32(v: u32) -> int {
    if v <= 0x7fff_ffff {
        v as int
    } else {
        v - 0x1_0000_0000
    }
}

/// The cast `v as i32` has the value `as_i32(v)`.
pub proof fn lemma_as_i32(v: u32)
    ensures
        (v as i32) as int == as_i32(v),
{
    if v <= 0x7fff_ffff {
        assert((v as i32) as int == v as int) by (bit_vector)
            requires
                v <= 0x7fff_ffff,
        ;
    } else {
        assert((v as i32) as int == v as int - 0x1_0000_0000) by (bit_vector)
            requires
                v > 0x7fff_ffff,
        ;
    }
}

/// The top edge of a bar `height` pixels high on a monitor: the monitor's
/// bottom edge minus the height for `"bottom"`, its top edge otherwise.
pub open spec fn bar_y_spec(bottom: bool, monitor: Rect, height: u32) -> int {
    if bottom {
        monitor.y + as_i32(monitor.height) - as_i32(height)
    } else {
        monitor.y as int
    }
}

pub fn bar_y(position: &str, monitor: Rect, height: u32) -> (r: i32)
    requires
        position@ == "bottom"@ ==> i32::MIN <= monitor.y + as_i32(monitor.height) <= i32::MAX,
        position@ == "bottom"@ ==> i32::MIN <= bar_y_spec(true, monitor, height) <= i32::MAX,
    ensures
        r == bar_y_spec(position@ == "bottom"@, monitor, height),
{
    let p = crate::text::chars_of(position);
    if crate::text::chars_eq_str(&p, "bottom") {
        proof {
            lemma_as_i32(monitor.height);
            lemma_as_i32(height);
        }
        monitor.y + monitor.height as i32 - height as i32
    } else {
        monitor.y
    }
}

/// Whether a monitor is the primary one: it holds the origin.
pub open spec fn is_primary(r: Rect) -> bool {
    r.x <= 0 && r.y <= 0
}

/// The monitors that get a bar: all of them with `multi_monitor`, otherwise
/// the first that holds the origin, or a 1920×32 rectangle at the origin
/// when none does.
pub fn target_monitors(monitors: Vec<Rect>, multi_monitor: bool) -> (r: Vec<Rect>)
    ensures
        multi_monitor ==> r@ == monitors@,
        !multi_monitor ==> r@.len() == 1,
        !multi_monitor ==> (if exists|i: int| 0 <= i < monitors@.len() && is_primary(#[trigger] monitors@[i]) {
            is_primary(r@[0]) && exists|i: int| 0 <= i < monitors@.len() && r@[0] == #[trigger] monitors@[i]
                && forall|j: int| 0 <= j < i ==> !is_primary(#[trigger] monitors@[j])
        } else {
            r@[0] == Rect { x: 0, y: 0, width: 1920, height: 32 }
        }),
{
    if multi_monitor {
        return monitors;
    }
    let mut i: usize = 0;
    while i < monitors.len()
        invariant
            !multi_monitor,
            i <= monitors.len(),
            forall|j: int| 0 <= j < i ==> !is_primary(#[trigger] monitors@[j]),
        decreases monitors.len() - i,
    {
        let m = monitors[i];
        if m.x <= 0 && m.y <= 0 {
            let mut r = Vec::new();
            r.push(m);
            assert(r@[0] == monitors@[i as int]);
            return r;
        }
        i = i + 1;
    }
    let mut r = Vec::new();
    r.push(Rect::new(0, 0, 1920, 32));
    r
}

/// The monitors found, or a single 1920×1080 monitor at the origin when
/// none was.
pub fn monitors_or_default(found: Vec<Rect>) -> (r: Vec<Rect>)
    ensures
        found@.len() > 0 ==> r@ == found@,
        found@.len() == 0 ==> r@ == seq![Rect { x: 0, y: 0, width: 1920, height: 1080 }],
{
    if found.len() > 0 {
        return found;
    }
    let mut r = Vec::new();
    r.push(Rect::new(0, 0, 1920, 1080));
    assert(r@ =~= seq![Rect { x: 0, y: 0, width: 1920, height: 1080 }]);
    r
}

/// A turn of the mouse wheel: up when the delta is positive, down
/// otherwise.
pub fn wheel_event(delta: i16) -> (r: ModuleEvent)
    ensures
        r == (if delta > 0 {
            ModuleEvent::ScrollUp
        } else {
            ModuleEvent::ScrollDown
        }),
{
    if delta > 0 {
        ModuleEvent::ScrollUp
    } else {
        ModuleEvent::ScrollDown
    }
}

/// The id of the timer that drives module ticks.
pub const MODULE_TICK_TIMER_ID: usize = 1;

/// Milliseconds between module-tick timer messages: fine enough for the
/// fastest built-in module (100 ms) at negligible cost.
pub const MODULE_TICK_INTERVAL_MS: u32 = 250;

/// A window message of the bar, with its parameters decoded.
#[derive(Debug, Clone, Copy)]
pub enum WindowMessage {
    Create,
    Timer { id: usize },
    Paint,
    /// The new client size.
    Size { width: u32, height: u32 },
    /// A mouse button released at `x` in the bar.
    ButtonUp { event: ModuleEvent, x: i32 },
    /// A turn of the wheel by `delta` with the cursor at `x`.
    Wheel { delta: i16, x: i32 },
    Destroy,
    Other,
}

/// What the window does with a message.
#[derive(Debug, Clone, Copy, PartialEq, Eq, Structural)]
pub enum WindowAction {
    /// Nothing beyond answering that the message was handled.
    Nothing,
    /// Tick the modules, repainting when one changed.
    TickModules,
    /// Repaint the bar from the current snapshots.
    Paint,
    /// Remember the new width and resize the render target.
    Resize { width: u32, height: u32 },
    /// Route a click or scroll at `x` through the modules and run the
    /// command they answer.
    Dispatch { x: i32, event: ModuleEvent },
    /// End the message loop.
    Quit,
    /// Leave the message to the default window procedure.
    Default,
}

/// How the window procedure answers each message.
pub open spec fn window_action_spec(m: WindowMessage) -> WindowAction {
    match m {
        WindowMessage::Create => WindowAction::Nothing,
        WindowMessage::Timer { id } => if id == MODULE_TICK_TIMER_ID {
            WindowAction::TickModules
        } else {
            WindowAction::Nothing
        },
        WindowMessage::Paint => WindowAction::Paint,
        WindowMessage::Size { width, height } => if width > 0 && height > 0 {
            WindowAction::Resize { width, height }
        } else {
            WindowAction::Nothing
        },
        WindowMessage::ButtonUp { event, x } => WindowAction::Dispatch { x, event },
        WindowMessage::Wheel { delta, x } => WindowAction::Dispatch {
            x,
            event: if delta > 0 {
                ModuleEvent::ScrollUp
            } else {
                ModuleEvent::ScrollDown
            },
        },
        WindowMessage::Destroy => WindowAction::Quit,
        WindowMessage::Other => WindowAction::Default,
    }
}

pub fn window_action(m: WindowMessage) -> (a: WindowAction)
    ensures
        a == window_action_spec(m),
{
    match m {
        WindowMessage::Create => WindowAction::Nothing,
        WindowMessage::Timer { id } => if id == MODULE_TICK_TIMER_ID {
            WindowAction::TickModules
        } else {
            WindowAction::Nothing
        },
        WindowMessage::Paint => WindowAction::Paint,
        WindowMessage::Size { width, height } => if width > 0 && height > 0 {
            WindowAction::Resize { width, height }
        } else {
            WindowAction::Nothing
        },
        WindowMessage::ButtonUp { event, x } => WindowAction::Dispatch { x, event },
        WindowMessage::Wheel { delta, x } => WindowAction::Dispatch { x, event: wheel_event(delta) },
        WindowMessage::Destroy => WindowAction::Quit,
        WindowMessage::Other => WindowAction::Default,
    }
}

/// The positions, in order, of the regions in `regions` that are `zone`.
pub open spec fn zone_indices_spec(regions: Seq<BarRegion>, zone: BarRegion) -> Seq<int>
    decreases regions.len(),
{
    if regions.len() == 0 {
        Seq::empty()
    } else {
        let before = zone_indices_spec(regions.drop_last(), zone);
        if regions.last() == zone {
            before.push(regions.len() - 1)
        } else {
            before
        }
    }
}

/// The indices of the snapshots shown in `zone`, in bar order: the painter
/// draws the left zone in this order from the left edge, the right zone in
/// the reverse order from the right edge, and centres the center zone.
pub fn zone_indices(snapshots: &Vec<ModuleSnapshot>, zone: BarRegion) -> (r: Vec<usize>)
    ensures
        r@.map_values(|i: usize| i as int) == zone_indices_spec(
            snapshots@.map_values(|s: ModuleSnapshot| s.region),
            zone,
        ),
{
    let ghost regions = snapshots@.map_values(|s: ModuleSnapshot| s.region);
    let mut r: Vec<usize> = Vec::new();
    let mut i: usize = 0;
    assert(regions.take(0) =~= Seq::<BarRegion>::empty());
    assert(r@.map_values(|i: usize| i as int) =~= Seq::<int>::empty());
    while i < snapshots.len()
        invariant
            i <= snapshots.len(),
            regions == snapshots@.map_values(|s: ModuleSnapshot| s.region),
            r@.map_values(|i: usize| i as int) == zone_indices_spec(regions.take(i as int), zone),
        decreases snapshots.len() - i,
    {
        assert(regions.take(i + 1).drop_last() =~= regions.take(i as int));
        assert(regions.take(i + 1).last() == snapshots@[i as int].region);
        let ghost before = r@;
        if snapshots[i].region == zone {
            r.push(i);
            assert(r@.map_values(|i: usize| i as int) =~= before.map_values(|i: usize| i as int).push(
                i as int,
            ));
        }
        i = i + 1;
    }
    assert(regions.take(snapshots.len() as int) =~= regions);
    r
}

/// `s` without its leading `#` characters.
pub open spec fn strip_hashes(s: Seq<char>) -> Seq<char>
    decreases s.len(),
{
    if s.len() > 0 && s[0] == '#' {
        strip_hashes(s.drop_first())
    } else {
        s
    }
}

/// The `(alpha, red, green, blue)` components of a colour written as
/// `#AARRGGBB` (eight hexadecimal digits) or `#RRGGBB` (six, fully
/// opaque).  Surrounding whitespace and any number of leading `#` are
/// ignored; any other text reads as opaque black.
pub open spec fn color_spec(hex: Seq<char>) -> (u8, u8, u8, u8) {
    let s = strip_hashes(trim(hex));
    if (s.len() == 6 || s.len() == 8) && all_hex_digits(s) {
        let p = hex_digits_value(s);
        if s.len() == 8 {
            (
                ((p / 0x100_0000) % 0x100) as u8,
                ((p / 0x1_0000) % 0x100) as u8,
                ((p / 0x100) % 0x100) as u8,
                (p % 0x100) as u8,
            )
        } else {
            (0xFF, ((p / 0x1_0000) % 0x100) as u8, ((p / 0x100) % 0x100) as u8, (p % 0x100) as u8)
        }
    } else {
        (0xFF, 0, 0, 0)
    }
}

/// Reads a colour setting into its `(alpha, red, green, blue)` bytes.
pub fn parse_color_argb(hex: &str) -> (c: (u8, u8, u8, u8))
    ensures
        c == color_spec(hex@),
{
    let t = trim_str(hex);
    let mut k: usize = 0;
    assert(t@.subrange(0, t@.len() as int) =~= t@);
    while k < t.len() && t[k] == '#'
        invariant
            k <= t.len(),
            t@ == trim(hex@),
            strip_hashes(t@.subrange(k as int, t@.len() as int)) == strip_hashes(t@),
        decreases t.len() - k,
    {
        assert(t@.subrange(k + 1, t@.len() as int) =~= t@.subrange(k as int, t@.len() as int).drop_first());
        k = k + 1;
    }
    let s = sub_chars(&t, k, t.len());
    assert(strip_hashes(s@) == s@);
    let n = s.len();
    if (n == 6 || n == 8) && s[0] != '+' {
        proof {
            if all_hex_digits(s@) {
                lemma_hex_fits_u32(s@);
            }
        }
        match parse_hex_u32(&s) {
            Some(p) => {
                if n == 8 {
                    ((p / 0x100_0000 % 0x100) as u8, (p / 0x1_0000 % 0x100) as u8, (p / 0x100 % 0x100) as u8, (p % 0x100) as u8)
                } else {
                    (0xFF, (p / 0x1_0000 % 0x100) as u8, (p / 0x100 % 0x100) as u8, (p % 0x100) as u8)
                }
            },
            None => (0xFF, 0, 0, 0),
        }
    } else {
        proof {
            if n == 6 || n == 8 {
                assert(!is_hex_digit(s@[0]));
            }
        }
        (0xFF, 0, 0, 0)
    }
}

} // verus!
