//! One workspace entry of the bar.

use vstd::prelude::*;
use vstd::std_specs::convert::FromSpecImpl;

verus! {

/// Identifies a workspace; the window manager keeps it stable and unique.
pub type WorkspaceId = i32;

/// Identifies a monitor.
pub type MonitorId = i128;

/// A workspace as the window manager reports it.
#[derive(Debug, PartialEq, Eq)]
pub struct Workspace {
    pub id: WorkspaceId,
    pub name: String,
    pub monitor: String,
    pub monitor_id: MonitorId,
    pub windows: u16,
    pub fullscreen: bool,
    /// Opaque handle of the window that was focused last.
    pub last_window: String,
    pub last_window_title: String,
}

/// What a [`Workspace`] holds, with its texts as sequences of characters.
pub ghost struct WorkspaceView {
    pub id: WorkspaceId,
    pub name: Seq<char>,
    pub monitor: Seq<char>,
    pub monitor_id: MonitorId,
    pub windows: u16,
    pub fullscreen: bool,
    pub last_window: Seq<char>,
    pub last_window_title: Seq<char>,
}

impl View for Workspace {
    type V = WorkspaceView;

    open spec fn view(&self) -> WorkspaceView {
        WorkspaceView {
            id: self.id,
            name: self.name@,
            monitor: self.monitor@,
            monitor_id: self.monitor_id,
            windows: self.windows,
            fullscreen: self.fullscreen,
            last_window: self.last_window@,
            last_window_title: self.last_window_title@,
        }
    }
}

impl Clone for Workspace {
    fn clone(&self) -> (copy: Self)
        ensures
            copy@ == self@,
    {
        Workspace {
            id: self.id,
            name: self.name.clone(),
            monitor: self.monitor.clone(),
            monitor_id: self.monitor_id,
            windows: self.windows,
            fullscreen: self.fullscreen,
            last_window: self.last_window.clone(),
            last_window_title: self.last_window_title.clone(),
        }
    }
}

/// A workspace entry of the bar: the reported workspace and whether it is
/// the active one.
#[derive(Debug, PartialEq, Eq)]
pub struct WorkspaceModel {
    pub id: WorkspaceId,
    pub name: String,
    pub monitor: String,
    pub monitor_id: MonitorId,
    pub windows: u16,
    pub fullscreen: bool,
    pub last_window: String,
    pub last_window_title: String,
    pub is_active: bool,
}

/// What a [`WorkspaceModel`] holds.
pub ghost struct WorkspaceModelView {
    pub workspace: WorkspaceView,
    pub is_active: bool,
}

impl WorkspaceModelView {
    /// The entry's id.
    pub open spec fn id(self) -> WorkspaceId {
        self.workspace.id
    }

    /// The same entry, active exactly if its id is `id`.
    pub open spec fn with_active_id(self, id: WorkspaceId) -> WorkspaceModelView {
        WorkspaceModelView { workspace: self.workspace, is_active: self.workspace.id == id }
    }

    /// The inactive entry made from a reported workspace.
    pub open spec fn of(workspace: WorkspaceView) -> WorkspaceModelView {
        WorkspaceModelView { workspace, is_active: false }
    }
}

impl View for WorkspaceModel {
    type V = WorkspaceModelView;

    open spec fn view(&self) -> WorkspaceModelView {
        WorkspaceModelView {
            workspace: WorkspaceView {
                id: self.id,
                name: self.name@,
                monitor: self.monitor@,
                monitor_id: self.monitor_id,
                windows: self.windows,
                fullscreen: self.fullscreen,
                last_window: self.last_window@,
                last_window_title: self.last_window_title@,
            },
            is_active: self.is_active,
        }
    }
}

impl Clone for WorkspaceModel {
    fn clone(&self) -> (copy: Self)
        ensures
            copy@ == self@,
    {
        WorkspaceModel {
            id: self.id,
            name: self.name.clone(),
            monitor: self.monitor.clone(),
            monitor_id: self.monitor_id,
            windows: self.windows,
            fullscreen: self.fullscreen,
            last_window: self.last_window.clone(),
            last_window_title: self.last_window_title.clone(),
            is_active: self.is_active,
        }
    }
}

impl From<Workspace> for WorkspaceModel {
    /// A reported workspace enters the bar as an inactive entry.
    fn from(value: Workspace) -> (model: Self) {
        WorkspaceModel {
            id: value.id,
            name: value.name,
            monitor: value.monitor,
            monitor_id: value.monitor_id,
            windows: value.windows,
            fullscreen: value.fullscreen,
            last_window: value.last_window,
            last_window_title: value.last_window_title,
            is_active: false,
        }
    }
}

impl FromSpecImpl<Workspace> for WorkspaceModel {
    open spec fn obeys_from_spec() -> bool {
        true
    }

    open spec fn from_spec(value: Workspace) -> WorkspaceModel {
        WorkspaceModel {
            id: value.id,
            name: value.name,
            monitor: value.monitor,
            monitor_id: value.monitor_id,
            windows: value.windows,
            fullscreen: value.fullscreen,
            last_window: value.last_window,
            last_window_title: value.last_window_title,
            is_active: false,
        }
    }
}

impl From<WorkspaceModel> for Workspace {
    /// The reported workspace behind an entry; the active flag is dropped.
    fn from(value: WorkspaceModel) -> (workspace: Self) {
        Workspace {
            id: value.id,
            name: value.name,
            monitor: value.monitor,
            monitor_id: value.monitor_id,
            windows: value.windows,
            fullscreen: value.fullscreen,
            last_window: value.last_window,
            last_window_title: value.last_window_title,
        }
    }
}

impl FromSpecImpl<WorkspaceModel> for Workspace {
    open spec fn obeys_from_spec() -> bool {
        true
    }

    open spec fn from_spec(value: WorkspaceModel) -> Workspace {
        Workspace {
            id: value.id,
            name: value.name,
            monitor: value.monitor,
            monitor_id: value.monitor_id,
            windows: value.windows,
            fullscreen: value.fullscreen,
            last_window: value.last_window,
            last_window_title: value.last_window_title,
        }
    }
}

/// What a workspace entry can be told.
#[derive(Clone, Debug, PartialEq, Eq)]
pub enum WorkspaceMessage {
    /// The entry was clicked.
    SwitchTo,
    /// The window manager made the workspace with this id the active one.
    ActiveIdChanged { id: WorkspaceId },
}

impl WorkspaceModel {
    /// Handles one message. A click asks for a switch to this workspace:
    /// the id to dispatch is handed back and the entry stays as it is. A
    /// change of the active id sets the flag by comparing ids.
    pub fn update(&mut self, message: WorkspaceMessage) -> (switch_to: Option<WorkspaceId>)
        ensures
            message is SwitchTo ==> switch_to == Some(old(self).id) && final(self)@ == old(self)@,
            message matches WorkspaceMessage::ActiveIdChanged { id } ==> switch_to is None
                && final(self)@ == old(self)@.with_active_id(id),
    {
        match message {
            WorkspaceMessage::SwitchTo => Some(self.id),
            WorkspaceMessage::ActiveIdChanged { id } => {
                self.is_active = self.id == id;
                None
            },
        }
    }
}

} // verus!
