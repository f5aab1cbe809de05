use regbar::event::{
    LayoutEvent, MonitorEventData, WindowEventData, WorkspaceDestroyedEventData, WorkspaceType,
};
use regbar::ext::by_id::ById;
use regbar::text::NumberError;
use regbar::widgets::workspace::Workspace;
use regbar::widgets::workspaces::HyprlandMessage;
use regbar::workers::hyprland_worker::{DecodeError, HyprlandHandler};

fn regular(text: &str) -> WorkspaceType {
    WorkspaceType::Regular(String::from(text))
}

fn workspace(id: i32, name: &str) -> Workspace {
    Workspace {
        id,
        name: String::from(name),
        monitor: String::from("DP-1"),
        monitor_id: 0,
        windows: 0,
        fullscreen: false,
        last_window: String::from("0x0"),
        last_window_title: String::new(),
    }
}

#[test]
fn a_workspace_id_that_is_no_integer_is_a_decode_error() {
    for text in ["", "abc", "1a", " 1", "1 ", "1.5", "+", "-", "--1", "1_000", "0x10", "١٢"] {
        assert_eq!(
            HyprlandHandler::workspace_id(&regular(text)),
            Err(DecodeError::WorkspaceId(NumberError::NotANumber)),
            "{text:?}"
        );
        assert_eq!(
            HyprlandHandler::on_workspace_changed(regular(text)),
            Err(DecodeError::WorkspaceId(NumberError::NotANumber))
        );
        assert_eq!(
            HyprlandHandler::on_workspace_added(regular(text)),
            Err(DecodeError::WorkspaceId(NumberError::NotANumber))
        );
    }
}

#[test]
fn a_workspace_id_that_does_not_fit_is_a_decode_error() {
    for text in ["2147483648", "-2147483649", "99999999999999999999999999"] {
        assert_eq!(
            HyprlandHandler::workspace_id(&regular(text)),
            Err(DecodeError::WorkspaceId(NumberError::OutOfRange)),
            "{text:?}"
        );
    }
}

#[test]
fn a_workspace_id_is_read_from_its_decimal_text() {
    assert_eq!(HyprlandHandler::workspace_id(&regular("3")), Ok(Some(3)));
    assert_eq!(HyprlandHandler::workspace_id(&regular("-98")), Ok(Some(-98)));
    assert_eq!(HyprlandHandler::workspace_id(&regular("+7")), Ok(Some(7)));
    assert_eq!(HyprlandHandler::workspace_id(&regular("007")), Ok(Some(7)));
    assert_eq!(HyprlandHandler::workspace_id(&regular("2147483647")), Ok(Some(i32::MAX)));
    assert_eq!(HyprlandHandler::workspace_id(&regular("-2147483648")), Ok(Some(i32::MIN)));
}

#[test]
fn a_special_workspace_is_passed_over() {
    let unnamed = WorkspaceType::Special(None);
    let scratch = WorkspaceType::Special(Some(String::from("scratch")));
    assert_eq!(HyprlandHandler::workspace_id(&unnamed), Ok(None));
    assert_eq!(HyprlandHandler::workspace_id(&scratch), Ok(None));
    assert_eq!(HyprlandHandler::on_workspace_changed(scratch.clone()), Ok(None));
    assert_eq!(HyprlandHandler::on_workspace_added(scratch.clone()), Ok(None));
    assert_eq!(
        HyprlandHandler::on_active_monitor_changed(MonitorEventData {
            monitor_name: String::from("DP-1"),
            workspace: scratch,
        }),
        Ok(None)
    );
}

#[test]
fn a_changed_workspace_becomes_the_active_one() {
    assert_eq!(
        HyprlandHandler::on_workspace_changed(regular("4")),
        Ok(Some(HyprlandMessage::Active { id: 4 }))
    );
}

#[test]
fn a_changed_monitor_activates_its_workspace() {
    let event = MonitorEventData { monitor_name: String::from("DP-2"), workspace: regular("6") };
    assert_eq!(
        HyprlandHandler::on_active_monitor_changed(event),
        Ok(Some(HyprlandMessage::Active { id: 6 }))
    );
    let broken = MonitorEventData { monitor_name: String::from("DP-2"), workspace: regular("x") };
    assert_eq!(
        HyprlandHandler::on_active_monitor_changed(broken),
        Err(DecodeError::WorkspaceId(NumberError::NotANumber))
    );
}

#[test]
fn a_destroyed_workspace_is_removed() {
    let event =
        WorkspaceDestroyedEventData { workspace_id: 12, workspace_name: String::from("12") };
    assert_eq!(HyprlandHandler::on_workspace_destroyed(event), HyprlandMessage::Remove { id: 12 });
}

#[test]
fn an_added_workspace_is_looked_up_by_its_id() {
    assert_eq!(HyprlandHandler::on_workspace_added(regular("2")), Ok(Some(2)));
    let all = vec![workspace(1, "one"), workspace(2, "two"), workspace(2, "twin")];
    assert_eq!(
        HyprlandHandler::on_workspaces_fetched(2, Some(all)),
        Some(HyprlandMessage::Add { workspace: workspace(2, "two") })
    );
}

#[test]
fn an_added_workspace_that_is_gone_again_adds_nothing() {
    assert_eq!(HyprlandHandler::on_workspaces_fetched(3, Some(vec![workspace(1, "one")])), None);
    assert_eq!(HyprlandHandler::on_workspaces_fetched(3, Some(Vec::new())), None);
    assert_eq!(HyprlandHandler::on_workspaces_fetched(3, None), None);
}

#[test]
fn look_up_by_id_finds_the_first_workspace_with_the_id() {
    let all = vec![workspace(5, "a"), workspace(6, "b"), workspace(5, "c")];
    assert_eq!(Option::<Workspace>::get_by_id(&all, 5), Some(workspace(5, "a")));
    assert_eq!(Option::<Workspace>::get_by_id(&all, 6), Some(workspace(6, "b")));
    assert_eq!(Option::<Workspace>::get_by_id(&all, 7), None);
}

#[test]
fn the_active_window_is_passed_on_as_it_came() {
    let window = WindowEventData {
        window_class: String::from("kitty"),
        window_title: String::from("  shell "),
        window_address: String::from("0x1f"),
    };
    assert_eq!(
        HyprlandHandler::on_active_window_changed(Some(window.clone())),
        HyprlandMessage::ActiveWindow { window: Some(window) }
    );
    assert_eq!(
        HyprlandHandler::on_active_window_changed(None),
        HyprlandMessage::ActiveWindow { window: None }
    );
}

#[test]
fn layout_and_monitor_events_become_messages() {
    let event =
        LayoutEvent { keyboard_name: String::from("kbd0"), layout_name: String::from("us") };
    let expected = HyprlandMessage::SwitchKeyboardLayout {
        keyboard_name: String::from("kbd0"),
        layout_name: String::from("us"),
    };
    assert_eq!(HyprlandHandler::on_keyboard_layout_changed(event.clone()), expected);
    assert_eq!(HyprlandMessage::from(event), expected);
    assert_eq!(
        HyprlandHandler::on_monitor_added(String::from("DP-3")),
        HyprlandMessage::AddMonitor { monitor: String::from("DP-3") }
    );
    assert_eq!(
        HyprlandHandler::on_monitor_removed(String::from("DP-3")),
        HyprlandMessage::RemoveMonitor { monitor: String::from("DP-3") }
    );
}
