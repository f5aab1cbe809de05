//! The focused-window widget.

use vstd::prelude::*;
use crate::event::{WindowEventData, WindowEventDataView};
use crate::text::{trim, trimmed};
use crate::widgets::workspaces::{HyprlandMessage, HyprlandMessageView};

verus! {

/// The window that has the focus.
#[derive(Clone, Debug, PartialEq, Eq)]
pub struct FocusedWindow {
    /// The window's title, without blanks around it.
    pub title: String,
    /// The window's class: the key under which its icon is looked up.
    pub icon_name: String,
    /// Opaque handle of the window.
    pub address: String,
}

/// What a [`FocusedWindow`] holds.
pub ghost struct FocusedWindowView {
    pub title: Seq<char>,
    pub icon_name: Seq<char>,
    pub address: Seq<char>,
}

impl View for FocusedWindow {
    type V = FocusedWindowView;

    open spec fn view(&self) -> FocusedWindowView {
        FocusedWindowView {
            title: self.title@,
            icon_name: self.icon_name@,
            address: self.address@,
        }
    }
}

/// The focused-window widget: the focused window, or none.
#[derive(Clone, Debug, PartialEq, Eq)]
pub struct Focused {
    pub window: Option<FocusedWindow>,
}

impl View for Focused {
    type V = Option<FocusedWindowView>;

    open spec fn view(&self) -> Option<FocusedWindowView> {
        match self.window {
            Some(window) => Some(window@),
            None => None,
        }
    }
}

/// The focused window that a reported window becomes: its title loses the
/// blanks around it, class and address are taken as they are.
pub open spec fn focused_from(window: WindowEventDataView) -> FocusedWindowView {
    FocusedWindowView {
        title: trimmed(window.window_title),
        icon_name: window.window_class,
        address: window.window_address,
    }
}

/// The view of an optional reported window.
pub open spec fn optional_window_view(window: Option<WindowEventData>) -> Option<
    WindowEventDataView,
> {
    match window {
        Some(window) => Some(window@),
        None => None,
    }
}

/// The message is an active-window event that names no window, so that the
/// window manager has to be asked.
pub open spec fn asks_for_query(message: HyprlandMessageView) -> bool {
    message == (HyprlandMessageView::ActiveWindow { window: None })
}

/// The widget after a message. An active-window event replaces the state
/// as a whole: by the window that the event names or, where it names none,
/// by the window that the window manager gave when asked, or by nothing if
/// it gave none. Other messages change nothing.
pub open spec fn after_message(
    widget: Option<FocusedWindowView>,
    message: HyprlandMessageView,
    queried: Option<WindowEventDataView>,
) -> Option<FocusedWindowView> {
    match message {
        HyprlandMessageView::ActiveWindow { window: Some(window) } => Some(focused_from(window)),
        HyprlandMessageView::ActiveWindow { window: None } => match queried {
            Some(window) => Some(focused_from(window)),
            None => None,
        },
        _ => widget,
    }
}

/// The widget has a title to show.
pub open spec fn titled(widget: Option<FocusedWindowView>) -> bool {
    widget matches Some(window) && window.title.len() > 0
}

impl Default for Focused {
    /// A widget without a focused window.
    fn default() -> (widget: Self)
        ensures
            widget@ is None,
    {
        Focused { window: None }
    }
}

impl FocusedWindow {
    /// The focused window that a reported window becomes.
    pub fn from_window(window: WindowEventData) -> (focused: Self)
        ensures
            focused@ == focused_from(window@),
    {
        FocusedWindow {
            title: trim(window.window_title.as_str()),
            icon_name: window.window_class,
            address: window.window_address,
        }
    }
}

impl Focused {
    /// Tells whether the window manager has to be asked for the active
    /// window before [`Focused::update`] handles the message.
    pub fn needs_query(message: &HyprlandMessage) -> (needed: bool)
        ensures
            needed == asks_for_query(message@),
    {
        match message {
            HyprlandMessage::ActiveWindow { window: None } => true,
            _ => false,
        }
    }

    /// Handles one message. `queried` is what the window manager gave when
    /// asked for the active window; it is read only where
    /// [`Focused::needs_query`] holds of the message.
    pub fn update(&mut self, message: HyprlandMessage, queried: Option<WindowEventData>)
        ensures
            final(self)@ == after_message(old(self)@, message@, optional_window_view(queried)),
    {
        match message {
            HyprlandMessage::ActiveWindow { window: Some(window) } => {
                self.window = Some(FocusedWindow::from_window(window));
            },
            HyprlandMessage::ActiveWindow { window: None } => {
                self.window = match queried {
                    Some(window) => Some(FocusedWindow::from_window(window)),
                    None => None,
                };
            },
            _ => {},
        }
    }

    /// Tells whether there is a title to show: a window has the focus and
    /// its title is not empty.
    pub fn has_title(&self) -> (shown: bool)
        ensures
            shown == titled(self@),
    {
        match &self.window {
            Some(window) => !window.title.as_str().is_empty(),
            None => false,
        }
    }

    /// Tells whether the widget is shown: it is if there is a title or if
    /// an icon was found for the window's class. Derived from the state at
    /// each call, never stored.
    pub fn show(&self, has_icon: bool) -> (shown: bool)
        ensures
            shown == (titled(self@) || has_icon),
    {
        self.has_title() || has_icon
    }
}

} // verus!
