use regbar::app_module::{AppMessage, AppModel, Consumer};
use regbar::event::WindowEventData;
use regbar::ext::for_name::ForName;
use regbar::ext::keyboard_layout_ext::{KeyboardLayout, KeyboardLayoutEx, LanguageSubtags};
use regbar::ext::monitor_ext::{Monitor, MonitorExt};
use regbar::widgets::focused::{Focused, FocusedWindow};
use regbar::widgets::language::{resolve_layout_event, Keyboard, Language, LanguageInit};
use regbar::widgets::workspace::Workspace;
use regbar::widgets::workspaces::HyprlandMessage;

fn layout(name: &str, description: &str) -> KeyboardLayout {
    KeyboardLayout { name: String::from(name), description: String::from(description) }
}

fn layouts() -> Vec<KeyboardLayout> {
    vec![
        layout("us", "English (US)"),
        layout("ru", "Russian"),
        layout("pt-br", "Portuguese (Brazil)"),
        layout("custom layout", "Broken"),
        layout("de", "Russian"),
    ]
}

fn keyboard(name: &str, keymap: &str) -> Keyboard {
    Keyboard { name: String::from(name), active_keymap: String::from(keymap) }
}

fn window(class: &str, title: &str, address: &str) -> WindowEventData {
    WindowEventData {
        window_class: String::from(class),
        window_title: String::from(title),
        window_address: String::from(address),
    }
}

fn switch(keyboard_name: &str, layout_name: &str) -> HyprlandMessage {
    HyprlandMessage::SwitchKeyboardLayout {
        keyboard_name: String::from(keyboard_name),
        layout_name: String::from(layout_name),
    }
}

fn resolve(keyboard_name: &str, layout_name: &str) -> (String, String) {
    resolve_layout_event(String::from(keyboard_name), String::from(layout_name))
}

#[test]
fn both_encodings_of_a_layout_event_resolve_alike() {
    let expected = (String::from("kbd0"), String::from("us"));
    assert_eq!(resolve("kbd0,us", ""), expected);
    assert_eq!(resolve("kbd0", "us"), expected);
}

#[test]
fn a_packed_layout_event_is_split_at_its_first_comma() {
    assert_eq!(resolve("a,b,c", ""), (String::from("a"), String::from("b,c")));
    assert_eq!(resolve(",us", ""), (String::new(), String::from("us")));
    assert_eq!(resolve("kbd0,", ""), (String::from("kbd0"), String::new()));
    assert_eq!(resolve("клава,English (US)", ""), (String::from("клава"), String::from("English (US)")));
}

#[test]
fn a_layout_event_with_a_layout_is_taken_as_it_is() {
    assert_eq!(resolve("kbd0,x", "us"), (String::from("kbd0,x"), String::from("us")));
}

#[test]
fn a_layout_event_without_layout_and_comma_names_no_layout() {
    assert_eq!(resolve("kbd0", ""), (String::from("kbd0"), String::new()));
    assert_eq!(resolve("", ""), (String::new(), String::new()));
}

#[test]
fn the_widget_starts_with_the_name_of_its_keyboard() {
    assert_eq!(LanguageInit::new("kbd0").device_name, "kbd0");
    assert_eq!(LanguageInit::new_for_string(String::from("kbd1")).device_name, "kbd1");
    assert_eq!(LanguageInit::new(""), LanguageInit::default());
}

#[test]
fn a_layout_is_found_by_its_description() {
    assert_eq!(KeyboardLayout::find(&layouts(), "Russian"), Some(layout("ru", "Russian")));
    assert_eq!(KeyboardLayout::find(&layouts(), "English (US)"), Some(layout("us", "English (US)")));
    assert_eq!(KeyboardLayout::find(&layouts(), "russian"), None);
    assert_eq!(KeyboardLayout::find(&layouts(), "ru"), None);
    assert_eq!(KeyboardLayout::find(&Vec::new(), "Russian"), None);
}

#[test]
fn the_code_of_a_layout_is_its_region_or_else_its_language() {
    assert_eq!(layout("ru", "Russian").localized(), Some(String::from("ru")));
    assert_eq!(layout("pt-br", "Portuguese (Brazil)").localized(), Some(String::from("BR")));
    assert_eq!(layout("EN", "English").localized(), Some(String::from("en")));
    assert_eq!(layout("zh-cmn-hans-cn", "Chinese").localized(), Some(String::from("CN")));
    assert_eq!(layout("es-419", "Spanish").localized(), Some(String::from("419")));
}

#[test]
fn a_name_that_is_no_language_tag_has_no_code() {
    assert_eq!(layout("custom layout", "Broken").localized(), None);
    assert_eq!(layout("", "Empty").localized(), None);
    assert_eq!(layout("e", "Short").localized(), None);
    assert_eq!(layout("us_intl", "Underscore").localized(), None);
}

#[test]
fn the_shown_code_is_picked_from_the_subtags() {
    let with_region =
        LanguageSubtags { primary_language: String::from("de"), region: Some(String::from("AT")) };
    let without = LanguageSubtags { primary_language: String::from("de"), region: None };
    assert_eq!(with_region.display_code(), "AT");
    assert_eq!(without.display_code(), "de");
}

#[test]
fn a_keyboard_is_found_by_its_name() {
    let keyboards = vec![keyboard("kbd0", "Russian"), keyboard("kbd1", "English (US)"), keyboard("kbd0", "x")];
    assert_eq!(Keyboard::for_name(&keyboards, "kbd0"), Some(keyboard("kbd0", "Russian")));
    assert_eq!(Keyboard::for_name(&keyboards, "kbd1"), Some(keyboard("kbd1", "English (US)")));
    assert_eq!(Keyboard::for_name(&keyboards, "kbd2"), None);
}

#[test]
fn the_widget_tracks_its_keyboard_and_the_keyboards_layout() {
    let keyboards = vec![keyboard("kbd0", "Portuguese (Brazil)"), keyboard("kbd1", "Russian")];
    let mut widget = Language::new();
    assert_eq!(widget.device(), None);
    assert_eq!(widget.layout(), None);
    widget.set_device(&keyboards, "kbd0", &layouts());
    assert_eq!(widget.device(), Some(keyboard("kbd0", "Portuguese (Brazil)")));
    assert_eq!(widget.layout(), Some(String::from("BR")));
    widget.set_device(&keyboards, "kbd9", &layouts());
    assert_eq!(widget.device(), None);
    assert_eq!(widget.layout(), None);
}

#[test]
fn a_layout_switch_of_the_tracked_keyboard_changes_the_code() {
    let keyboards = vec![keyboard("kbd0", "English (US)")];
    let mut widget = Language::new();
    widget.set_device(&keyboards, "kbd0", &layouts());
    assert_eq!(widget.layout(), Some(String::from("us")));
    widget.update(switch("kbd0", "Russian"), &layouts());
    assert_eq!(widget.layout(), Some(String::from("ru")));
    widget.update(switch("kbd0,Portuguese (Brazil)", ""), &layouts());
    assert_eq!(widget.layout(), Some(String::from("BR")));
    widget.update(switch("kbd0", "Klingon"), &layouts());
    assert_eq!(widget.layout(), None);
    widget.update(switch("kbd0", "Broken"), &layouts());
    assert_eq!(widget.layout(), None);
}

#[test]
fn a_layout_switch_of_another_keyboard_is_passed_over() {
    let keyboards = vec![keyboard("kbd0", "English (US)")];
    let mut widget = Language::new();
    widget.set_device(&keyboards, "kbd0", &layouts());
    widget.update(switch("kbd1", "Russian"), &layouts());
    widget.update(switch("kbd1,Russian", ""), &layouts());
    widget.update(HyprlandMessage::Active { id: 1 }, &layouts());
    assert_eq!(widget.layout(), Some(String::from("us")));
    let mut idle = Language::new();
    idle.update(switch("kbd0", "Russian"), &layouts());
    assert_eq!(idle, Language::new());
    idle.set_layout(Some(String::from("xx")));
    assert_eq!(idle.layout(), Some(String::from("xx")));
}

#[test]
fn the_focused_window_is_replaced_by_the_window_of_the_event() {
    let mut widget = Focused::default();
    assert_eq!(widget.window, None);
    let message = HyprlandMessage::ActiveWindow { window: Some(window("kitty", "  shell \t", "0x1")) };
    assert!(!Focused::needs_query(&message));
    widget.update(message, None);
    assert_eq!(
        widget.window,
        Some(FocusedWindow {
            title: String::from("shell"),
            icon_name: String::from("kitty"),
            address: String::from("0x1"),
        })
    );
    widget.update(
        HyprlandMessage::ActiveWindow { window: Some(window("", "", "0x2")) },
        Some(window("ignored", "ignored", "0x3")),
    );
    assert_eq!(widget.window, Some(FocusedWindow::from_window(window("", "", "0x2"))));
}

#[test]
fn an_event_without_window_falls_back_to_the_query() {
    let mut widget = Focused::default();
    let message = HyprlandMessage::ActiveWindow { window: None };
    assert!(Focused::needs_query(&message));
    widget.update(message.clone(), Some(window("firefox", " Start ", "0x9")));
    assert_eq!(
        widget.window,
        Some(FocusedWindow {
            title: String::from("Start"),
            icon_name: String::from("firefox"),
            address: String::from("0x9"),
        })
    );
    widget.update(message, None);
    assert_eq!(widget.window, None);
}

#[test]
fn other_messages_leave_the_focused_window_alone() {
    let mut widget = Focused::default();
    widget.update(HyprlandMessage::ActiveWindow { window: Some(window("kitty", "shell", "0x1")) }, None);
    let before = widget.clone();
    widget.update(HyprlandMessage::Active { id: 3 }, Some(window("a", "b", "c")));
    widget.update(HyprlandMessage::Start, None);
    assert_eq!(widget, before);
    assert!(!Focused::needs_query(&HyprlandMessage::Remove { id: 1 }));
}

#[test]
fn the_widget_shows_with_a_title_or_an_icon() {
    let mut widget = Focused::default();
    assert!(!widget.has_title());
    assert!(!widget.show(false));
    assert!(widget.show(true));
    widget.update(HyprlandMessage::ActiveWindow { window: Some(window("kitty", "  ", "0x1")) }, None);
    assert!(!widget.has_title());
    assert!(!widget.show(false));
    assert!(widget.show(true));
    widget.update(HyprlandMessage::ActiveWindow { window: Some(window("kitty", " x ", "0x1")) }, None);
    assert!(widget.has_title());
    assert!(widget.show(false));
    assert!(widget.show(true));
}

fn workspace(id: i32) -> Workspace {
    Workspace {
        id,
        name: id.to_string(),
        monitor: String::from("DP-1"),
        monitor_id: 0,
        windows: 0,
        fullscreen: false,
        last_window: String::from("0x0"),
        last_window_title: String::new(),
    }
}

#[test]
fn every_message_has_its_one_consumer() {
    assert_eq!(AppModel::route(&HyprlandMessage::Add { workspace: workspace(1) }), Some(Consumer::Workspaces));
    assert_eq!(AppModel::route(&HyprlandMessage::Remove { id: 1 }), Some(Consumer::Workspaces));
    assert_eq!(AppModel::route(&HyprlandMessage::Active { id: 1 }), Some(Consumer::Workspaces));
    assert_eq!(AppModel::route(&HyprlandMessage::ActiveWindow { window: None }), Some(Consumer::Focused));
    assert_eq!(AppModel::route(&switch("kbd0", "us")), Some(Consumer::Language));
    assert_eq!(
        AppModel::route(&HyprlandMessage::AddMonitor { monitor: String::from("DP-1") }),
        Some(Consumer::App)
    );
    assert_eq!(
        AppModel::route(&HyprlandMessage::RemoveMonitor { monitor: String::from("DP-1") }),
        Some(Consumer::App)
    );
    assert_eq!(AppModel::route(&HyprlandMessage::Start), None);
}

#[test]
fn each_consumer_gets_its_messages_in_the_order_of_sending() {
    let sent = vec![
        HyprlandMessage::Add { workspace: workspace(2) },
        switch("kbd0", "us"),
        HyprlandMessage::ActiveWindow { window: Some(window("a", "one", "0x1")) },
        HyprlandMessage::Start,
        HyprlandMessage::Active { id: 2 },
        HyprlandMessage::AddMonitor { monitor: String::from("DP-2") },
        HyprlandMessage::ActiveWindow { window: None },
        switch("kbd0", "ru"),
        HyprlandMessage::Remove { id: 2 },
        HyprlandMessage::RemoveMonitor { monitor: String::from("DP-2") },
    ];
    let deliveries = AppModel::fan_out(sent);
    assert_eq!(
        deliveries.workspaces,
        vec![
            HyprlandMessage::Add { workspace: workspace(2) },
            HyprlandMessage::Active { id: 2 },
            HyprlandMessage::Remove { id: 2 },
        ]
    );
    assert_eq!(
        deliveries.focused,
        vec![
            HyprlandMessage::ActiveWindow { window: Some(window("a", "one", "0x1")) },
            HyprlandMessage::ActiveWindow { window: None },
        ]
    );
    assert_eq!(deliveries.language, vec![switch("kbd0", "us"), switch("kbd0", "ru")]);
    assert_eq!(
        deliveries.app,
        vec![
            HyprlandMessage::AddMonitor { monitor: String::from("DP-2") },
            HyprlandMessage::RemoveMonitor { monitor: String::from("DP-2") },
        ]
    );
    let nothing = AppModel::fan_out(Vec::new());
    assert!(nothing.workspaces.is_empty() && nothing.focused.is_empty());
    assert!(nothing.language.is_empty() && nothing.app.is_empty());
}

#[test]
fn monitors_that_come_and_go_move_the_bar() {
    assert_eq!(
        AppModel::monitor_message(HyprlandMessage::AddMonitor { monitor: String::from("DP-2") }),
        Some(AppMessage::SetMonitor { monitor: Some(String::from("DP-2")) })
    );
    assert_eq!(
        AppModel::monitor_message(HyprlandMessage::RemoveMonitor { monitor: String::from("DP-2") }),
        Some(AppMessage::SetMonitor { monitor: None })
    );
    assert_eq!(AppModel::monitor_message(HyprlandMessage::Active { id: 1 }), None);
}

#[test]
fn the_bar_stands_on_the_named_monitor_or_else_on_the_first() {
    let monitors = vec![
        Monitor { connector: None },
        Monitor { connector: Some(String::from("DP-1")) },
        Monitor { connector: Some(String::from("HDMI-A-1")) },
        Monitor { connector: Some(String::from("DP-1")) },
    ];
    assert_eq!(Monitor::for_connector(&monitors, "DP-1"), Some(1));
    assert_eq!(Monitor::for_connector(&monitors, "HDMI-A-1"), Some(2));
    assert_eq!(Monitor::for_connector(&monitors, "DP-9"), None);
    assert_eq!(Monitor::for_connector(&Vec::new(), "DP-1"), None);
    assert_eq!(Monitor::first(&monitors), 0);
    let mut bar = AppModel::new();
    assert_eq!(bar.monitor(&monitors), 0);
    bar.update(AppMessage::SetMonitor { monitor: Some(String::from("HDMI-A-1")) }, &monitors);
    assert_eq!(bar.monitor, Some(String::from("HDMI-A-1")));
    assert_eq!(bar.monitor(&monitors), 2);
    assert_eq!(bar.monitor(&monitors[..2].to_vec()), 0);
    bar.update(AppMessage::SetMonitor { monitor: Some(String::from("DP-9")) }, &monitors);
    assert_eq!(bar.monitor, None);
    bar.update(AppMessage::SetMonitor { monitor: Some(String::from("DP-1")) }, &monitors);
    bar.update(AppMessage::SetMonitor { monitor: None }, &monitors);
    assert_eq!(bar.monitor, None);
    assert_eq!(bar.monitor(&monitors), 0);
}
