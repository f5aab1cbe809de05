//! Decodes the window manager's events into messages for the widgets.

use vstd::prelude::*;
use crate::ext::by_id::{first_with_id, workspace_views, ById};
use crate::event::{
    LayoutEvent, MonitorEventData, WindowEventData, WorkspaceDestroyedEventData, WorkspaceType,
    WorkspaceTypeView,
};
use crate::text::{decimal_value, is_decimal, parse_i32, parsed_i32, NumberError};
use crate::widgets::workspace::{Workspace, WorkspaceId, WorkspaceView};
use crate::widgets::workspaces::{HyprlandMessage, HyprlandMessageView};

verus! {

/// A field of an event could not be decoded; the event is dropped.
#[derive(Clone, Copy, Debug, PartialEq, Eq, Structural)]
pub enum DecodeError {
    /// The text that should be a workspace id is no 32-bit integer.
    WorkspaceId(NumberError),
}

/// The id that a workspace reference stands for: that of an ordinary
/// workspace, read from its text. A special workspace has none.
pub open spec fn decoded_id(workspace: WorkspaceTypeView) -> Result<Option<WorkspaceId>, DecodeError> {
    match workspace {
        WorkspaceTypeView::Regular(text) => match parsed_i32(text) {
            Ok(id) => Ok(Some(id)),
            Err(error) => Err(DecodeError::WorkspaceId(error)),
        },
        WorkspaceTypeView::Special(_) => Ok(None),
    }
}

/// The message that says which workspace is active now, if the reference
/// names an ordinary one.
pub open spec fn decoded_active(workspace: WorkspaceTypeView) -> Result<
    Option<HyprlandMessageView>,
    DecodeError,
> {
    match decoded_id(workspace) {
        Ok(Some(id)) => Ok(Some(HyprlandMessageView::Active { id })),
        Ok(None) => Ok(None),
        Err(error) => Err(error),
    }
}

/// The message for a workspace that was added, from what the look-up of all
/// workspaces gave: an addition if the look-up worked and holds the id.
pub open spec fn decoded_addition(
    id: WorkspaceId,
    workspaces: Option<Seq<WorkspaceView>>,
) -> Option<HyprlandMessageView> {
    match workspaces {
        Some(workspaces) => match first_with_id(workspaces, id) {
            Some(workspace) => Some(HyprlandMessageView::Add { workspace }),
            None => None,
        },
        None => None,
    }
}

/// The view of an optional message.
pub open spec fn message_view(message: Option<HyprlandMessage>) -> Option<HyprlandMessageView> {
    match message {
        Some(message) => Some(message@),
        None => None,
    }
}

/// The view of what decoding an event gave.
pub open spec fn decoded_view(decoded: Result<Option<HyprlandMessage>, DecodeError>) -> Result<
    Option<HyprlandMessageView>,
    DecodeError,
> {
    match decoded {
        Ok(message) => Ok(message_view(message)),
        Err(error) => Err(error),
    }
}

/// Law: decoding never fails in any other way than by a decode error. The
/// reference to an ordinary workspace has an id exactly if its text is a
/// decimal integer of 32 bits; any other text, empty or not, gives the
/// decode error, for the id as for the message made of it.
pub proof fn lemma_malformed_id_is_decode_error(text: Seq<char>)
    ensures
        decoded_id(WorkspaceTypeView::Regular(text)) is Ok <==> is_decimal(text) && i32::MIN
            <= decimal_value(text) <= i32::MAX,
        decoded_id(WorkspaceTypeView::Regular(text)) is Ok ==> decoded_id(
            WorkspaceTypeView::Regular(text),
        ) == Ok::<Option<WorkspaceId>, DecodeError>(Some(decimal_value(text) as i32)),
        !is_decimal(text) ==> decoded_id(WorkspaceTypeView::Regular(text)) == Err::<
            Option<WorkspaceId>,
            DecodeError,
        >(DecodeError::WorkspaceId(NumberError::NotANumber)),
        decoded_id(WorkspaceTypeView::Regular(text)) is Err <==> decoded_active(
            WorkspaceTypeView::Regular(text),
        ) is Err,
{
}

/// Turns the window manager's events into messages. It holds no state: each
/// event is decoded by itself.
pub struct HyprlandHandler;

impl HyprlandHandler {
    /// The id of the workspace that an event refers to. A reference to a
    /// special workspace is passed over in silence; a text that is no
    /// integer is an error, never a panic.
    pub fn workspace_id(workspace: &WorkspaceType) -> (decoded: Result<
        Option<WorkspaceId>,
        DecodeError,
    >)
        ensures
            decoded == decoded_id(workspace@),
    {
        match workspace {
            WorkspaceType::Regular(text) => match parse_i32(text.as_str()) {
                Ok(id) => Ok(Some(id)),
                Err(error) => Err(DecodeError::WorkspaceId(error)),
            },
            WorkspaceType::Special(_) => Ok(None),
        }
    }

    /// The active monitor changed, and with it the active workspace.
    pub fn on_active_monitor_changed(event_data: MonitorEventData) -> (decoded: Result<
        Option<HyprlandMessage>,
        DecodeError,
    >)
        ensures
            decoded_view(decoded) == decoded_active(event_data.workspace@),
    {
        match Self::workspace_id(&event_data.workspace) {
            Ok(Some(id)) => Ok(Some(HyprlandMessage::Active { id })),
            Ok(None) => Ok(None),
            Err(error) => Err(error),
        }
    }

    /// A workspace was destroyed.
    pub fn on_workspace_destroyed(event_data: WorkspaceDestroyedEventData) -> (message:
        HyprlandMessage)
        ensures
            message@ == (HyprlandMessageView::Remove { id: event_data.workspace_id }),
    {
        HyprlandMessage::Remove { id: event_data.workspace_id }
    }

    /// The active workspace changed.
    pub fn on_workspace_changed(workspace_type: WorkspaceType) -> (decoded: Result<
        Option<HyprlandMessage>,
        DecodeError,
    >)
        ensures
            decoded_view(decoded) == decoded_active(workspace_type@),
    {
        match Self::workspace_id(&workspace_type) {
            Ok(Some(id)) => Ok(Some(HyprlandMessage::Active { id })),
            Ok(None) => Ok(None),
            Err(error) => Err(error),
        }
    }

    /// A workspace was added. The event names it only: the caller looks up
    /// all workspaces for the id handed back here and passes what it got to
    /// [`HyprlandHandler::on_workspaces_fetched`].
    pub fn on_workspace_added(workspace_type: WorkspaceType) -> (decoded: Result<
        Option<WorkspaceId>,
        DecodeError,
    >)
        ensures
            decoded == decoded_id(workspace_type@),
    {
        Self::workspace_id(&workspace_type)
    }

    /// The second half of an addition: with the workspaces that the look-up
    /// gave (`None` where it failed), the added workspace is the first with
    /// the id. A workspace that is gone again by now adds nothing.
    pub fn on_workspaces_fetched(id: WorkspaceId, workspaces: Option<Vec<Workspace>>) -> (message:
        Option<HyprlandMessage>)
        ensures
            message_view(message) == decoded_addition(
                id,
                match workspaces {
                    Some(workspaces) => Some(workspace_views(workspaces@)),
                    None => None,
                },
            ),
    {
        match workspaces {
            Some(workspaces) => match Option::<Workspace>::get_by_id(&workspaces, id) {
                Some(workspace) => Some(HyprlandMessage::Add { workspace }),
                None => None,
            },
            None => None,
        }
    }

    /// The focused window changed. What the event held is passed on as it
    /// is: no window stays no window.
    pub fn on_active_window_changed(event_data: Option<WindowEventData>) -> (message:
        HyprlandMessage)
        ensures
            message@ == (HyprlandMessageView::ActiveWindow {
                window: match event_data {
                    Some(window) => Some(window@),
                    None => None,
                },
            }),
    {
        HyprlandMessage::ActiveWindow { window: event_data }
    }

    /// A keyboard switched its layout.
    pub fn on_keyboard_layout_changed(event_data: LayoutEvent) -> (message: HyprlandMessage)
        ensures
            message@ == (HyprlandMessageView::SwitchKeyboardLayout {
                keyboard_name: event_data.keyboard_name@,
                layout_name: event_data.layout_name@,
            }),
    {
        HyprlandMessage::from(event_data)
    }

    /// A monitor was plugged in.
    pub fn on_monitor_added(monitor: String) -> (message: HyprlandMessage)
        ensures
            message@ == (HyprlandMessageView::AddMonitor { monitor: monitor@ }),
    {
        HyprlandMessage::AddMonitor { monitor }
    }

    /// A monitor went away.
    pub fn on_monitor_removed(monitor: String) -> (message: HyprlandMessage)
        ensures
            message@ == (HyprlandMessageView::RemoveMonitor { monitor: monitor@ }),
    {
        HyprlandMessage::RemoveMonitor { monitor }
    }
}

} // verus!
