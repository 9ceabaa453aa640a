//! wiri IPC: the window manager's events and the state they build.
//!
//! Reading events from wiri's named pipe, and decoding their JSON, happen
//! outside this library; `WiriClient::apply_event` folds each decoded event
//! into the shared `WiriState`.
use std::sync::{Arc, RwLock};

use vstd::prelude::*;

use crate::module::WiriState;

verus! {

#[verifier::external_type_specification]
#[verifier::external_body]
#[verifier::reject_recursive_types(T)]
pub struct ExRwLock<T: ?Sized>(std::sync::RwLock<T>);

/// The state behind the lock, with `RwLock::read`.  `Ok` holds a copy of it;
/// when a writer panicked while holding the lock, `Err` holds a copy of what
/// it left.  The state is shared with other threads, so nothing is stated of
/// the copy.
#[verifier::external_body]
pub(crate) fn read_wiri_state(state: &Arc<RwLock<WiriState>>) -> Result<WiriState, WiriState> {
    match state.read() {
        Ok(guard) => Ok(guard.clone()),
        Err(poisoned) => Err(poisoned.into_inner().clone()),
    }
}

/// Another handle to the same shared value, with `Arc::clone`: both point
/// to one allocation.
#[verifier::external_body]
pub(crate) fn share<T>(handle: &Arc<T>) -> (r: Arc<T>)
    ensures
        r == *handle,
{
    Arc::clone(handle)
}

/// A fresh lock holding `value`, with `RwLock::new`.
#[verifier::external_body]
fn new_state_lock(value: WiriState) -> RwLock<WiriState> {
    RwLock::new(value)
}

/// A workspace as wiri describes it.
#[derive(Debug, Clone)]
pub struct WorkspaceInfo {
    pub name: String,
    pub id: u32,
    pub window_count: usize,
}

/// A window as wiri describes it.
#[derive(Debug, Clone)]
pub struct WindowInfoIpc {
    pub hwnd: isize,
    pub title: String,
}

/// The events of wiri that the bar follows.
#[derive(Debug, Clone)]
pub enum WiriEvent {
    WorkspacesChanged { workspaces: Vec<WorkspaceInfo> },
    WorkspaceActivated { workspace: String },
    WorkspaceSwitched { workspace_id: i32, monitor_id: u64 },
    WindowFocused { window_hwnd: isize },
    WindowOpened { window: WindowInfoIpc },
    WindowClosed { window_hwnd: isize },
    /// Any event the bar does not follow.
    Unknown,
}

/// Index of the first workspace named `name` at or after `k`.
pub open spec fn position_from(names: Seq<Seq<char>>, name: Seq<char>, k: int) -> Option<int>
    decreases names.len() - k,
{
    if k < 0 || k >= names.len() {
        None
    } else if names[k] == name {
        Some(k)
    } else {
        position_from(names, name, k + 1)
    }
}

/// Index of the first workspace named `name`.
pub open spec fn position_of(names: Seq<Seq<char>>, name: Seq<char>) -> Option<int> {
    position_from(names, name, 0)
}

/// What an event does to the window-manager state.
pub open spec fn apply_event_spec(s: crate::module::WiriView, e: WiriEvent) -> crate::module::WiriView {
    match e {
        WiriEvent::WorkspacesChanged { workspaces } => crate::module::WiriView {
            workspaces: workspaces@.map_values(|w: WorkspaceInfo| w.name@),
            ..s
        },
        WiriEvent::WorkspaceActivated { workspace } => match position_of(s.workspaces, workspace@) {
            Some(i) => crate::module::WiriView { focused_workspace: i as usize, ..s },
            None => s,
        },
        WiriEvent::WorkspaceSwitched { workspace_id, .. } => {
            // ids are 1-based and 0 reads as the first workspace; a negative id,
            // converted to an index, lies far beyond any workspace count
            let idx: int = if workspace_id >= 1 {
                workspace_id - 1
            } else {
                0
            };
            if workspace_id >= 0 && idx < s.workspaces.len() {
                crate::module::WiriView { focused_workspace: idx as usize, ..s }
            } else {
                s
            }
        },
        WiriEvent::WindowFocused { window_hwnd } => crate::module::WiriView {
            focused_window_hwnd: Some(window_hwnd),
            ..s
        },
        WiriEvent::WindowOpened { window } => if s.focused_window_hwnd == Some(window.hwnd) {
            crate::module::WiriView { focused_window_title: window.title@, ..s }
        } else {
            s
        },
        WiriEvent::WindowClosed { window_hwnd } => if s.focused_window_hwnd == Some(window_hwnd) {
            crate::module::WiriView {
                focused_window_hwnd: None,
                focused_window_title: Seq::empty(),
                ..s
            }
        } else {
            s
        },
        WiriEvent::Unknown => s,
    }
}

proof fn lemma_position_from(names: Seq<Seq<char>>, name: Seq<char>, k: int)
    requires
        0 <= k,
    ensures
        match position_from(names, name, k) {
            Some(i) => k <= i < names.len() && names[i] == name,
            None => forall|j: int| k <= j < names.len() ==> names[j] != name,
        },
    decreases names.len() - k,
{
    if k < names.len() && names[k] != name {
        lemma_position_from(names, name, k + 1);
    }
}

/// Activating a workspace by a name that the bar knows focuses a workspace
/// of that name, and leaves the list and the focused window alone.
pub proof fn law_activation_focuses_named(s: crate::module::WiriView, workspace: String)
    requires
        s.workspaces.len() <= usize::MAX,
        s.workspaces.contains(workspace@),
    ensures
        ({
            let t = apply_event_spec(s, WiriEvent::WorkspaceActivated { workspace });
            &&& t.focused_workspace < t.workspaces.len()
            &&& t.workspaces[t.focused_workspace as int] == workspace@
            &&& t.workspaces == s.workspaces
            &&& t.focused_window_hwnd == s.focused_window_hwnd
            &&& t.focused_window_title == s.focused_window_title
        }),
{
    lemma_position_from(s.workspaces, workspace@, 0);
    let j = choose|j: int| 0 <= j < s.workspaces.len() && s.workspaces[j] == workspace@;
    assert(s.workspaces[j] == workspace@);
    assert(position_of(s.workspaces, workspace@) is Some);
}

/// Switching to workspace `id`, counted from 1, focuses the workspace at
/// index `id - 1` when there is one, and changes nothing otherwise.
pub proof fn law_switch_focuses_index(
    s: crate::module::WiriView,
    workspace_id: i32,
    monitor_id: u64,
)
    requires
        workspace_id >= 1,
    ensures
        ({
            let t = apply_event_spec(s, WiriEvent::WorkspaceSwitched { workspace_id, monitor_id });
            &&& workspace_id <= s.workspaces.len() ==> t == crate::module::WiriView {
                focused_workspace: (workspace_id - 1) as usize,
                ..s
            }
            &&& workspace_id > s.workspaces.len() ==> t == s
        }),
{
}

/// Applies one event to the window-manager state.
pub fn apply_wiri_event(state: &mut WiriState, event: WiriEvent)
    ensures
        final(state)@ == apply_event_spec(old(state)@, event),
{
    let ghost e = event;
    match event {
        WiriEvent::WorkspacesChanged { workspaces } => {
            let mut names: Vec<String> = Vec::new();
            let mut i: usize = 0;
            while i < workspaces.len()
                invariant
                    i <= workspaces.len(),
                    names@.len() == i,
                    forall|k: int| 0 <= k < i ==> #[trigger] names@[k]@ == workspaces@[k].name@,
                decreases workspaces.len() - i,
            {
                names.push(workspaces[i].name.clone());
                i = i + 1;
            }
            assert(names@.map_values(|s: String| s@) =~= workspaces@.map_values(
                |w: WorkspaceInfo| w.name@,
            ));
            state.workspaces = names;
        },
        WiriEvent::WorkspaceActivated { workspace } => {
            let w = crate::text::chars_of(workspace.as_str());
            let mut i: usize = 0;
            while i < state.workspaces.len()
                invariant
                    i <= state.workspaces.len(),
                    w@ == workspace@,
                    e == event,
                    e == (WiriEvent::WorkspaceActivated { workspace }),
                    state@ == old(state)@,
                    position_of(state@.workspaces, workspace@) == position_from(
                        state@.workspaces,
                        workspace@,
                        i as int,
                    ),
                decreases state.workspaces.len() - i,
            {
                let n = crate::text::chars_of(state.workspaces[i].as_str());
                if crate::text::chars_eq(&n, &w) {
                    assert(state@.workspaces[i as int] == workspace@);
                    assert(position_of(old(state)@.workspaces, workspace@) == Some(i as int));
                    state.focused_workspace = i;
                    return;
                }
                i = i + 1;
            }
        },
        WiriEvent::WorkspaceSwitched { workspace_id, .. } => {
            let idx: usize = if workspace_id >= 1 {
                (workspace_id - 1) as usize
            } else {
                0
            };
            if workspace_id >= 0 && idx < state.workspaces.len() {
                state.focused_workspace = idx;
            }
        },
        WiriEvent::WindowFocused { window_hwnd } => {
            state.focused_window_hwnd = Some(window_hwnd);
        },
        WiriEvent::WindowOpened { window } => {
            if state.focused_window_hwnd == Some(window.hwnd) {
                state.focused_window_title = window.title;
            }
        },
        WiriEvent::WindowClosed { window_hwnd } => {
            if state.focused_window_hwnd == Some(window_hwnd) {
                state.focused_window_hwnd = None;
                state.focused_window_title = String::new();
            }
        },
        WiriEvent::Unknown => {},
    }
}

/// The bar's side of wiri's event stream: the shared window-manager state.
pub struct WiriClient {
    state: Arc<RwLock<WiriState>>,
}

impl WiriClient {
    pub fn new() -> (r: Self) {
        WiriClient { state: Arc::new(new_state_lock(WiriState::default())) }
    }

    /// The lock that holds this client's state.
    pub closed spec fn handle(&self) -> Arc<RwLock<WiriState>> {
        self.state
    }

    /// The shared state handle: the lock this client writes its events to.
    pub fn state(&self) -> (r: Arc<RwLock<WiriState>>)
        ensures
            r == self.handle(),
    {
        share(&self.state)
    }
}

impl Default for WiriClient {
    fn default() -> Self {
        Self::new()
    }
}

/// A new workspace list replaces only the list: the names are those of the
/// event's workspaces, in order, and the focused workspace, the focused
/// window and its title stay as they were.
pub proof fn law_workspaces_changed_keeps_focus(s: crate::module::WiriView, workspaces: Vec<WorkspaceInfo>)
    ensures
        ({
            let t = apply_event_spec(s, WiriEvent::WorkspacesChanged { workspaces });
            &&& t.workspaces.len() == workspaces@.len()
            &&& forall|i: int| 0 <= i < workspaces@.len() ==> #[trigger] t.workspaces[i] == workspaces@[i].name@
            &&& t.focused_workspace == s.focused_workspace
            &&& t.focused_window_hwnd == s.focused_window_hwnd
            &&& t.focused_window_title == s.focused_window_title
        }),
{
}

/// Focusing a window records its handle and changes nothing else; an event
/// the bar does not follow changes nothing.
pub proof fn law_window_focused_and_unknown(s: crate::module::WiriView, hwnd: isize)
    ensures
        ({
            let t = apply_event_spec(s, WiriEvent::WindowFocused { window_hwnd: hwnd });
            &&& t.focused_window_hwnd == Some(hwnd)
            &&& t.workspaces == s.workspaces
            &&& t.focused_workspace == s.focused_workspace
            &&& t.focused_window_title == s.focused_window_title
        }),
        apply_event_spec(s, WiriEvent::Unknown) == s,
{
}

/// Closing the focused window forgets it and its title; closing another
/// window changes nothing.
pub proof fn law_window_closed(s: crate::module::WiriView, hwnd: isize)
    ensures
        ({
            let t = apply_event_spec(s, WiriEvent::WindowClosed { window_hwnd: hwnd });
            &&& s.focused_window_hwnd == Some(hwnd) ==> t.focused_window_hwnd is None
                && t.focused_window_title.len() == 0 && t.workspaces == s.workspaces
                && t.focused_workspace == s.focused_workspace
            &&& s.focused_window_hwnd != Some(hwnd) ==> t == s
        }),
{
}

} // verus!
