//! The keyboard-layout widget: one tracked keyboard and the code of its
//! current layout.

use vstd::prelude::*;
use crate::ext::for_name::ForName;
use crate::ext::keyboard_layout_ext::{
    layout_views, localized_layout, KeyboardLayout, KeyboardLayoutEx, KeyboardLayoutView,
};
use crate::text::{chars_of, text_view};
use crate::widgets::workspaces::{HyprlandMessage, HyprlandMessageView};

verus! {

/// A keyboard as the window manager reports it.
#[derive(Debug, PartialEq, Eq)]
pub struct Keyboard {
    pub name: String,
    /// The description of the layout that is active on it.
    pub active_keymap: String,
}

/// What a [`Keyboard`] holds.
pub ghost struct KeyboardView {
    pub name: Seq<char>,
    pub active_keymap: Seq<char>,
}

impl View for Keyboard {
    type V = KeyboardView;

    open spec fn view(&self) -> KeyboardView {
        KeyboardView { name: self.name@, active_keymap: self.active_keymap@ }
    }
}

impl Clone for Keyboard {
    fn clone(&self) -> (copy: Self)
        ensures
            copy@ == self@,
    {
        Keyboard { name: self.name.clone(), active_keymap: self.active_keymap.clone() }
    }
}

/// The views of keyboards.
pub open spec fn keyboard_views(keyboards: Seq<Keyboard>) -> Seq<KeyboardView> {
    keyboards.map_values(|keyboard: Keyboard| keyboard@)
}

/// The view of an optional keyboard.
pub open spec fn optional_keyboard_view(keyboard: Option<Keyboard>) -> Option<KeyboardView> {
    match keyboard {
        Some(keyboard) => Some(keyboard@),
        None => None,
    }
}

/// The first keyboard with this name.
pub open spec fn first_named(keyboards: Seq<KeyboardView>, name: Seq<char>) -> Option<KeyboardView>
    decreases keyboards.len(),
{
    if keyboards.len() == 0 {
        None
    } else if keyboards[0].name == name {
        Some(keyboards[0])
    } else {
        first_named(keyboards.skip(1), name)
    }
}

impl ForName for Keyboard {
    /// The first of the keyboards with this name.
    fn for_name(candidates: &Vec<Keyboard>, name: &str) -> (found: Option<Keyboard>)
        ensures
            optional_keyboard_view(found) == first_named(keyboard_views(candidates@), name@),
    {
        let wanted: String = name.to_owned();
        let ghost all = keyboard_views(candidates@);
        let mut index: usize = 0;
        assert(all.skip(0) =~= all);
        while index < candidates.len()
            invariant
                index <= candidates.len(),
                wanted@ == name@,
                all == keyboard_views(candidates@),
                first_named(all, name@) == first_named(all.skip(index as int), name@),
            decreases candidates.len() - index,
        {
            if candidates[index].name == wanted {
                return Some(candidates[index].clone());
            }
            assert(all.skip(index as int).skip(1) =~= all.skip(index as int + 1));
            index = index + 1;
        }
        None
    }
}

/// What the widget starts with: the name of the keyboard to track.
#[derive(Clone, Debug, Default, PartialEq, Eq)]
pub struct LanguageInit {
    pub device_name: String,
}

impl LanguageInit {
    /// Tracks the keyboard with this name.
    pub fn new(device_name: &str) -> (init: Self)
        ensures
            init.device_name@ == device_name@,
    {
        LanguageInit { device_name: device_name.to_owned() }
    }

    /// Tracks the keyboard with this name.
    pub fn new_for_string(device_name: String) -> (init: Self)
        ensures
            init.device_name == device_name,
    {
        LanguageInit { device_name }
    }
}

/// The number of characters before the first comma; the length of the text
/// if it has no comma.
pub open spec fn comma_position(text: Seq<char>) -> int
    decreases text.len(),
{
    if text.len() == 0 || text[0] == ',' {
        0
    } else {
        1 + comma_position(text.skip(1))
    }
}

/// The keyboard and the layout that a layout event names. An event with an
/// empty layout holds both in the keyboard's name, as `keyboard,layout`:
/// the name is split at its first comma. Without a comma nothing can be
/// split off, and the layout stays empty.
pub open spec fn resolved_layout_event(keyboard_name: Seq<char>, layout_name: Seq<char>) -> (
    Seq<char>,
    Seq<char>,
) {
    if layout_name.len() > 0 {
        (keyboard_name, layout_name)
    } else if comma_position(keyboard_name) < keyboard_name.len() {
        (
            keyboard_name.take(comma_position(keyboard_name)),
            keyboard_name.skip(comma_position(keyboard_name) + 1),
        )
    } else {
        (keyboard_name, Seq::empty())
    }
}

/// Law: a packed layout event is split at its first comma. The comma
/// position lies within the text; no character before it is a comma, and
/// the character at it is one.
pub proof fn lemma_comma_position(text: Seq<char>)
    ensures
        0 <= comma_position(text) <= text.len(),
        forall|k: int| 0 <= k < comma_position(text) ==> #[trigger] text[k] != ',',
        comma_position(text) < text.len() ==> text[comma_position(text)] == ',',
    decreases text.len(),
{
    if text.len() > 0 && text[0] != ',' {
        let rest = text.skip(1);
        lemma_comma_position(rest);
        assert forall|k: int| 0 <= k < comma_position(text) implies #[trigger] text[k] != ',' by {
            if k > 0 {
                assert(rest[k - 1] != ',');
            }
        }
        if comma_position(text) < text.len() {
            assert(rest[comma_position(rest)] == text[comma_position(text)]);
        }
    }
}

/// A text without a comma, followed by a comma and more, has its first
/// comma right behind that text.
pub proof fn lemma_comma_position_joined(left: Seq<char>, right: Seq<char>)
    requires
        forall|k: int| 0 <= k < left.len() ==> #[trigger] left[k] != ',',
    ensures
        comma_position(left + seq![','] + right) == left.len(),
    decreases left.len(),
{
    let joined = left + seq![','] + right;
    if left.len() == 0 {
        assert(joined[0] == ',');
    } else {
        assert(joined[0] == left[0]);
        let rest = left.skip(1);
        assert(joined.skip(1) =~= rest + seq![','] + right);
        assert forall|k: int| 0 <= k < rest.len() implies #[trigger] rest[k] != ',' by {
            assert(left[k + 1] != ',');
        }
        lemma_comma_position_joined(rest, right);
    }
}

/// Law: the two encodings of a layout event resolve alike. For a keyboard
/// name without a comma and a layout that is not empty, the event that
/// holds `keyboard,layout` in the name and an empty layout names the same
/// keyboard and layout as the event that holds them apart.
pub proof fn lemma_encodings_agree(keyboard: Seq<char>, layout: Seq<char>)
    requires
        forall|k: int| 0 <= k < keyboard.len() ==> #[trigger] keyboard[k] != ',',
        layout.len() > 0,
    ensures
        resolved_layout_event(keyboard + seq![','] + layout, Seq::empty()) == (keyboard, layout),
        resolved_layout_event(keyboard, layout) == (keyboard, layout),
{
    let packed = keyboard + seq![','] + layout;
    lemma_comma_position_joined(keyboard, layout);
    assert(packed.take(keyboard.len() as int) =~= keyboard);
    assert(packed.skip(keyboard.len() as int + 1) =~= layout);
}

/// The keyboard and the layout that a layout event names.
pub fn resolve_layout_event(keyboard_name: String, layout_name: String) -> (resolved: (
    String,
    String,
))
    ensures
        (resolved.0@, resolved.1@) == resolved_layout_event(keyboard_name@, layout_name@),
{
    if !layout_name.as_str().is_empty() {
        return (keyboard_name, layout_name);
    }
    let chars = chars_of(keyboard_name.as_str());
    let n: usize = chars.len();
    let mut index: usize = 0;
    assert(keyboard_name@.skip(0) =~= keyboard_name@);
    while index < n && chars[index] != ','
        invariant
            index <= n,
            n == chars.len(),
            chars@ == keyboard_name@,
            comma_position(keyboard_name@) == index + comma_position(
                keyboard_name@.skip(index as int),
            ),
        decreases n - index,
    {
        assert(keyboard_name@.skip(index as int).skip(1) =~= keyboard_name@.skip(index as int + 1));
        index = index + 1;
    }
    assert(comma_position(keyboard_name@) == index);
    if index < n {
        let name = keyboard_name.as_str();
        let keyboard = name.substring_char(0, index).to_owned();
        let layout = name.substring_char(index + 1, n).to_owned();
        assert(keyboard@ =~= keyboard_name@.take(index as int));
        assert(layout@ =~= keyboard_name@.skip(index as int + 1));
        (keyboard, layout)
    } else {
        assert(layout_name@ =~= Seq::<char>::empty());
        (keyboard_name, layout_name)
    }
}

/// The keyboard-layout widget.
#[derive(Clone, Debug, PartialEq, Eq)]
pub struct Language {
    pub device: Option<Keyboard>,
    pub layout: Option<String>,
}

/// What a [`Language`] holds.
pub ghost struct LanguageView {
    pub device: Option<KeyboardView>,
    pub layout: Option<Seq<char>>,
}

impl View for Language {
    type V = LanguageView;

    open spec fn view(&self) -> LanguageView {
        LanguageView {
            device: optional_keyboard_view(self.device),
            layout: text_view(self.layout),
        }
    }
}

/// The widget once it tracks the keyboard with a name: the first keyboard
/// with the name, and the code of the layout that is active on it. A name
/// that no keyboard has leaves the widget without keyboard and layout.
pub open spec fn tracking(
    keyboards: Seq<KeyboardView>,
    device_name: Seq<char>,
    layouts: Seq<KeyboardLayoutView>,
) -> LanguageView {
    match first_named(keyboards, device_name) {
        Some(keyboard) => LanguageView {
            device: Some(keyboard),
            layout: localized_layout(layouts, keyboard.active_keymap),
        },
        None => LanguageView { device: None, layout: None },
    }
}

/// The widget after a message. Only a layout event for the tracked keyboard
/// changes it: the layout becomes the code of the layout that the event
/// names, or none if that layout is unknown.
pub open spec fn after_message(
    widget: LanguageView,
    message: HyprlandMessageView,
    layouts: Seq<KeyboardLayoutView>,
) -> LanguageView {
    match message {
        HyprlandMessageView::SwitchKeyboardLayout { keyboard_name, layout_name } => {
            let resolved = resolved_layout_event(keyboard_name, layout_name);
            match widget.device {
                Some(device) if device.name == resolved.0 => LanguageView {
                    device: widget.device,
                    layout: localized_layout(layouts, resolved.1),
                },
                _ => widget,
            }
        },
        _ => widget,
    }
}

impl Language {
    /// A widget that tracks no keyboard yet.
    pub fn new() -> (widget: Self)
        ensures
            widget@ == (LanguageView { device: None, layout: None }),
    {
        Language { device: None, layout: None }
    }

    /// Starts to track the keyboard with this name among the keyboards that
    /// the window manager reported, with the layouts of the database.
    pub fn set_device(
        &mut self,
        keyboards: &Vec<Keyboard>,
        device_name: &str,
        layouts: &Vec<KeyboardLayout>,
    )
        ensures
            final(self)@ == tracking(
                keyboard_views(keyboards@),
                device_name@,
                layout_views(layouts@),
            ),
    {
        let keyboard = Keyboard::for_name(keyboards, device_name);
        let layout = match &keyboard {
            Some(keyboard) => match KeyboardLayout::find(layouts, keyboard.active_keymap.as_str()) {
                Some(found) => found.localized(),
                None => None,
            },
            None => None,
        };
        self.device = keyboard;
        self.set_layout(layout);
    }

    /// Handles one message, with the layouts of the database.
    pub fn update(&mut self, message: HyprlandMessage, layouts: &Vec<KeyboardLayout>)
        ensures
            final(self)@ == after_message(old(self)@, message@, layout_views(layouts@)),
    {
        if let HyprlandMessage::SwitchKeyboardLayout { keyboard_name, layout_name } = message {
            let (keyboard_name, layout_name) = resolve_layout_event(keyboard_name, layout_name);
            let is_ours: bool = match &self.device {
                Some(device) => device.name == keyboard_name,
                None => false,
            };
            if is_ours {
                let layout = match KeyboardLayout::find(layouts, layout_name.as_str()) {
                    Some(found) => found.localized(),
                    None => None,
                };
                self.set_layout(layout);
            }
        }
    }

    /// Sets the code of the current layout.
    pub fn set_layout(&mut self, value: Option<String>)
        ensures
            final(self)@ == (LanguageView {
                device: old(self)@.device,
                layout: text_view(value),
            }),
    {
        self.layout = value;
    }

    /// A copy of the tracked keyboard.
    pub fn device(&self) -> (device: Option<Keyboard>)
        ensures
            optional_keyboard_view(device) == self@.device,
    {
        match &self.device {
            Some(device) => Some(device.clone()),
            None => None,
        }
    }

    /// A copy of the code of the current layout.
    pub fn layout(&self) -> (layout: Option<String>)
        ensures
            text_view(layout) == self@.layout,
    {
        match &self.layout {
            Some(layout) => Some(layout.clone()),
            None => None,
        }
    }
}

} // verus!
