//! Workspaces module: the window manager's workspaces with the focused one
//! in brackets, e.g. `1 2 [3] 4 5`.
//!
//! Clicking or scrolling switches workspace by running `wiri-ctl`; running
//! it happens outside this library, which decides the target workspace.
use std::sync::{Arc, RwLock};
use std::time::Duration;

use vstd::prelude::*;

use super::{
    duration_of_millis, plain_snapshot, region_of, region_setting, BarRegion, ModuleEvent,
    ModuleSnapshot, WiriState, WiriView,
};
use crate::config::types::ModuleEntry;
use crate::text::{join_spaced, string_of};
use crate::wiri_ipc::read_wiri_state;

verus! {

pub const EMPTY_MARK: char = '\u{2014}';

/// How workspace `i` is shown: its name, in brackets when focused.
pub open spec fn workspace_label(s: WiriView, i: int) -> Seq<char> {
    if i == s.focused_workspace {
        seq!['['] + s.workspaces[i] + seq![']']
    } else {
        s.workspaces[i]
    }
}

/// The text of the workspaces module: the labels separated by spaces, or
/// `—` when there are no workspaces.
pub open spec fn workspaces_text(s: WiriView) -> Seq<char> {
    if s.workspaces.len() == 0 {
        seq![EMPTY_MARK]
    } else {
        join_spaced(Seq::new(s.workspaces.len(), |i: int| workspace_label(s, i)))
    }
}

/// The workspace a click or scroll switches to, among `count` workspaces
/// with `current` focused: the next one (wrapping) on a left click or a
/// scroll down, the previous one (wrapping) on a right click or a scroll up.
pub open spec fn next_workspace_spec(count: nat, current: nat, event: ModuleEvent) -> Option<nat> {
    if count == 0 {
        None
    } else {
        match event {
            ModuleEvent::LeftClick | ModuleEvent::ScrollDown => Some((current + 1) % count),
            ModuleEvent::RightClick | ModuleEvent::ScrollUp => if current == 0 {
                Some((count - 1) as nat)
            } else {
                Some((current - 1) as nat)
            },
            ModuleEvent::MiddleClick => None,
        }
    }
}

proof fn lemma_succ_mod(c: int, n: int)
    requires
        n > 0,
        c >= 0,
    ensures
        ((c % n) + 1) % n == (c + 1) % n,
{
    vstd::arithmetic::div_mod::lemma_add_mod_noop_right(1, c, n);
    assert(1 + c % n == c % n + 1);
    assert(1 + c == c + 1);
}

pub fn next_workspace(count: usize, current: usize, event: ModuleEvent) -> (r: Option<usize>)
    ensures
        match next_workspace_spec(count as nat, current as nat, event) {
            Some(n) => r == Some(n as usize),
            None => r is None,
        },
{
    if count == 0 {
        return None;
    }
    match event {
        ModuleEvent::LeftClick | ModuleEvent::ScrollDown => {
            let r = (current % count + 1) % count;
            proof {
                lemma_succ_mod(current as int, count as int);
            }
            Some(r)
        },
        ModuleEvent::RightClick | ModuleEvent::ScrollUp => {
            if current == 0 {
                Some(count - 1)
            } else {
                Some(current - 1)
            }
        },
        ModuleEvent::MiddleClick => None,
    }
}

/// From a focused workspace, a click or scroll always lands on one of the
/// workspaces.
pub proof fn law_target_is_a_workspace(count: nat, current: nat, event: ModuleEvent)
    requires
        current < count,
    ensures
        next_workspace_spec(count, current, event) is Some ==> next_workspace_spec(
            count,
            current,
            event,
        )->0 < count,
{
}

/// Scrolling down and then up, or up and then down, comes back to the
/// focused workspace.
pub proof fn law_scroll_round_trip(count: nat, current: nat)
    requires
        current < count,
    ensures
        next_workspace_spec(count, current, ModuleEvent::ScrollDown) matches Some(n)
            && next_workspace_spec(count, n, ModuleEvent::ScrollUp) == Some(current),
        next_workspace_spec(count, current, ModuleEvent::ScrollUp) matches Some(n)
            && next_workspace_spec(count, n, ModuleEvent::ScrollDown) == Some(current),
{
    if current + 1 < count {
        assert((current + 1) % count == current + 1) by {
            vstd::arithmetic::div_mod::lemma_small_mod((current + 1) as nat, count);
        }
    } else {
        assert((current + 1) % count == 0) by {
            vstd::arithmetic::div_mod::lemma_mod_self_0(count as int);
        }
    }
    if current == 0 {
        if count == 1 {
            vstd::arithmetic::div_mod::lemma_mod_self_0(1);
        } else {
            assert(((count - 1) as nat + 1) % count == 0) by {
                vstd::arithmetic::div_mod::lemma_mod_self_0(count as int);
            }
        }
    } else {
        assert(((current - 1) as nat + 1) % count == current) by {
            vstd::arithmetic::div_mod::lemma_small_mod(current, count);
        }
    }
}

/// The arguments of `wiri-ctl` that focus the workspace at `index`; wiri
/// counts workspaces from 1.
pub fn focus_workspace_args(index: usize) -> (r: Vec<String>)
    requires
        index < usize::MAX,
    ensures
        r@.len() == 2,
        r@[0]@ == "focus-workspace"@,
        r@[1]@ == crate::text::decimal_text(index as nat + 1),
{
    let mut tag = String::new();
    crate::text::push_decimal(&mut tag, (index + 1) as u64);
    let mut r: Vec<String> = Vec::new();
    r.push(string_of(&crate::text::chars_of("focus-workspace")));
    r.push(tag);
    r
}

/// The text of the workspaces module for a state.
pub fn workspaces_text_of(s: &WiriState) -> (r: String)
    ensures
        r@ == workspaces_text(s@),
{
    let n = s.workspaces.len();
    if n == 0 {
        let mut t = String::new();
        t.push(EMPTY_MARK);
        assert(t@ =~= seq![EMPTY_MARK]);
        return t;
    }
    let ghost labels = Seq::new(s@.workspaces.len(), |i: int| workspace_label(s@, i));
    let mut t = String::new();
    let mut i: usize = 0;
    while i < n
        invariant
            n == s.workspaces.len(),
            n > 0,
            i <= n,
            labels == Seq::new(s@.workspaces.len(), |i: int| workspace_label(s@, i)),
            i > 0 ==> t@ == join_spaced(labels.take(i as int)),
            i == 0 ==> t@.len() == 0,
        decreases n - i,
    {
        let ghost before = t@;
        if i > 0 {
            t.push(' ');
        }
        let focused = i == s.focused_workspace;
        if focused {
            t.push('[');
        }
        t.append(s.workspaces[i].as_str());
        if focused {
            t.push(']');
        }
        proof {
            assert(s@.workspaces[i as int] == s.workspaces@[i as int]@);
            assert(labels.take(i + 1).drop_last() =~= labels.take(i as int));
            assert(labels.take(i + 1).last() == workspace_label(s@, i as int));
            if i == 0 {
                assert(labels.take(1) =~= seq![labels[0]]);
                assert(t@ =~= join_spaced(labels.take(1)));
            } else {
                assert(t@ =~= join_spaced(labels.take(i + 1)));
            }
        }
        i = i + 1;
    }
    assert(labels.take(n as int) =~= labels);
    t
}

pub struct WorkspacesModule {
    state: Arc<RwLock<WiriState>>,
    region: BarRegion,
}

impl WorkspacesModule {
    pub closed spec fn region(&self) -> BarRegion {
        self.region
    }

    pub fn new(entry: &ModuleEntry, state: Arc<RwLock<WiriState>>) -> (m: Self)
        ensures
            m.region() == region_setting(entry@.extra, BarRegion::Left),
    {
        WorkspacesModule { state, region: region_of(entry, BarRegion::Left) }
    }

    /// The snapshot for a window-manager state.
    pub fn state_snapshot(&self, s: &WiriState) -> (r: ModuleSnapshot)
        ensures
            r@.text == workspaces_text(s@),
            r@.fg is None,
            r@.icon is None,
            r@.region == self.region(),
    {
        plain_snapshot(workspaces_text_of(s), self.region)
    }

    /// The snapshot for the shared state (what a panicked writer left, if
    /// one did).
    fn snapshot(&self) -> (r: ModuleSnapshot)
        ensures
            r@.fg is None,
            r@.icon is None,
            r@.region == self.region(),
    {
        let s = match read_wiri_state(&self.state) {
            Ok(s) => s,
            Err(s) => s,
        };
        self.state_snapshot(&s)
    }

    pub fn kind(&self) -> (r: &'static str)
        ensures
            r@ == "workspaces"@,
    {
        "workspaces"
    }

    pub fn initial(&self) -> (r: ModuleSnapshot)
        ensures
            r@.fg is None,
            r@.icon is None,
            r@.region == self.region(),
    {
        self.snapshot()
    }

    pub fn tick(&mut self) -> (r: ModuleSnapshot)
        ensures
            r@.fg is None,
            r@.icon is None,
            r@.region == old(self).region(),
    {
        self.snapshot()
    }

    pub fn interval(&self) -> (d: Duration)
        ensures
            d == duration_of_millis(500),
    {
        Duration::from_millis(500)
    }

    /// The workspace a click or scroll switches to, for the shared state;
    /// `None` when there is nothing to switch to (or a writer panicked while
    /// holding the state).
    pub fn switch_target(&self, event: ModuleEvent) -> (r: Option<usize>)
        ensures
            r matches Some(n) ==> n < usize::MAX && exists|count: nat, current: nat|
                #[trigger] next_workspace_spec(count, current, event) == Some(n as nat),
    {
        match read_wiri_state(&self.state) {
            Ok(s) => next_workspace(s.workspaces.len(), s.focused_workspace, event),
            Err(_) => None,
        }
    }
}

} // verus!
