//! The records that the window manager's event socket delivers, as plain
//! values.

use vstd::prelude::*;
use crate::widgets::workspace::WorkspaceId;

verus! {

/// How an event refers to a workspace.
#[derive(Clone, Debug, PartialEq, Eq)]
pub enum WorkspaceType {
    /// An ordinary workspace, by the text of its id.
    Regular(String),
    /// A special (scratch) workspace, with its name if it has one.
    Special(Option<String>),
}

/// What a [`WorkspaceType`] holds.
pub ghost enum WorkspaceTypeView {
    Regular(Seq<char>),
    Special(Option<Seq<char>>),
}

impl View for WorkspaceType {
    type V = WorkspaceTypeView;

    open spec fn view(&self) -> WorkspaceTypeView {
        match self {
            WorkspaceType::Regular(text) => WorkspaceTypeView::Regular(text@),
            WorkspaceType::Special(Some(name)) => WorkspaceTypeView::Special(Some(name@)),
            WorkspaceType::Special(None) => WorkspaceTypeView::Special(None),
        }
    }
}

/// The active monitor changed.
#[derive(Clone, Debug, PartialEq, Eq)]
pub struct MonitorEventData {
    pub monitor_name: String,
    pub workspace: WorkspaceType,
}

/// A workspace was destroyed.
#[derive(Clone, Debug, PartialEq, Eq)]
pub struct WorkspaceDestroyedEventData {
    pub workspace_id: WorkspaceId,
    pub workspace_name: String,
}

/// The window that an active-window event names.
#[derive(Debug, PartialEq, Eq)]
pub struct WindowEventData {
    pub window_class: String,
    pub window_title: String,
    /// Opaque handle of the window.
    pub window_address: String,
}

/// What a [`WindowEventData`] holds.
pub ghost struct WindowEventDataView {
    pub window_class: Seq<char>,
    pub window_title: Seq<char>,
    pub window_address: Seq<char>,
}

impl View for WindowEventData {
    type V = WindowEventDataView;

    open spec fn view(&self) -> WindowEventDataView {
        WindowEventDataView {
            window_class: self.window_class@,
            window_title: self.window_title@,
            window_address: self.window_address@,
        }
    }
}

impl Clone for WindowEventData {
    fn clone(&self) -> (copy: Self)
        ensures
            copy@ == self@,
    {
        WindowEventData {
            window_class: self.window_class.clone(),
            window_title: self.window_title.clone(),
            window_address: self.window_address.clone(),
        }
    }
}

/// A keyboard switched its layout.
#[derive(Clone, Debug, PartialEq, Eq)]
pub struct LayoutEvent {
    pub keyboard_name: String,
    pub layout_name: String,
}

} // verus!
