use regbar::widgets::workspace::{Workspace, WorkspaceMessage, WorkspaceModel};
use regbar::widgets::workspaces::{HyprlandMessage, WorkspacesModel};

fn workspace(id: i32) -> Workspace {
    Workspace {
        id,
        name: format!("{id}"),
        monitor: String::from("DP-1"),
        monitor_id: 0,
        windows: 1,
        fullscreen: false,
        last_window: String::from("0x55d0c0de"),
        last_window_title: String::from("terminal"),
    }
}

fn named(id: i32, name: &str) -> Workspace {
    let mut made = workspace(id);
    made.name = String::from(name);
    made
}

fn ids(registry: &WorkspacesModel) -> Vec<i32> {
    registry.snapshot().iter().map(|entry| entry.id).collect()
}

fn names(registry: &WorkspacesModel) -> Vec<String> {
    registry.snapshot().iter().map(|entry| entry.name.clone()).collect()
}

fn active_ids(registry: &WorkspacesModel) -> Vec<i32> {
    registry.snapshot().iter().filter(|entry| entry.is_active).map(|entry| entry.id).collect()
}

fn filled(order: &[i32]) -> WorkspacesModel {
    let mut registry = WorkspacesModel::new();
    for id in order {
        registry.update(HyprlandMessage::Add { workspace: workspace(*id) });
    }
    registry
}

#[test]
fn additions_arrive_in_any_order_and_end_sorted() {
    let mut registry = WorkspacesModel::new();
    registry.update(HyprlandMessage::Add { workspace: workspace(3) });
    registry.update(HyprlandMessage::Add { workspace: workspace(1) });
    registry.update(HyprlandMessage::Add { workspace: workspace(2) });
    assert_eq!(ids(&registry), vec![1, 2, 3]);
}

#[test]
fn a_new_registry_is_empty() {
    let registry = WorkspacesModel::new();
    assert_eq!(registry.len(), 0);
    assert!(registry.snapshot().is_empty());
    assert_eq!(registry.get(0), None);
}

#[test]
fn an_added_workspace_enters_inactive_with_all_its_fields() {
    let mut registry = WorkspacesModel::new();
    let reported = Workspace {
        id: 7,
        name: String::from("web"),
        monitor: String::from("HDMI-A-1"),
        monitor_id: 2,
        windows: 4,
        fullscreen: true,
        last_window: String::from("0xabc"),
        last_window_title: String::from("browser"),
    };
    registry.add(reported.clone());
    let entry = registry.get(0).unwrap();
    assert!(!entry.is_active);
    assert_eq!(Workspace::from(entry.clone()), reported);
    assert_eq!(WorkspaceModel::from(reported), entry);
}

#[test]
fn the_smallest_id_goes_to_the_front_and_the_largest_to_the_end() {
    let mut registry = filled(&[5, 6]);
    registry.add(workspace(-2));
    registry.add(workspace(9));
    assert_eq!(ids(&registry), vec![-2, 5, 6, 9]);
}

#[test]
fn an_id_that_is_added_twice_stands_before_its_older_twin() {
    let mut registry = filled(&[1, 3]);
    registry.add(named(2, "old"));
    registry.add(named(2, "new"));
    assert_eq!(ids(&registry), vec![1, 2, 2, 3]);
    assert_eq!(names(&registry), vec!["1", "new", "old", "3"]);
}

#[test]
fn removal_takes_the_entry_away_and_keeps_the_order() {
    let mut registry = filled(&[4, 2, 8, 6]);
    registry.update(HyprlandMessage::Remove { id: 6 });
    assert_eq!(ids(&registry), vec![2, 4, 8]);
    registry.remove(2);
    assert_eq!(ids(&registry), vec![4, 8]);
}

#[test]
fn removal_of_an_absent_id_changes_nothing() {
    let mut registry = filled(&[1, 2, 3]);
    let before = registry.snapshot();
    registry.update(HyprlandMessage::Remove { id: 9 });
    assert_eq!(registry.snapshot(), before);
}

#[test]
fn removal_of_a_doubled_id_takes_the_last_of_them() {
    let mut registry = WorkspacesModel::new();
    registry.add(named(2, "old"));
    registry.add(named(2, "new"));
    registry.remove(2);
    assert_eq!(names(&registry), vec!["new"]);
}

#[test]
fn the_active_workspace_is_the_one_with_the_id_and_no_other() {
    let mut registry = filled(&[1, 2, 3]);
    registry.update(HyprlandMessage::Active { id: 2 });
    assert_eq!(active_ids(&registry), vec![2]);
    registry.update(HyprlandMessage::Active { id: 3 });
    assert_eq!(active_ids(&registry), vec![3]);
}

#[test]
fn an_active_id_that_no_entry_has_leaves_none_active() {
    let mut registry = filled(&[1, 2, 3]);
    registry.active(2);
    registry.active(7);
    assert_eq!(active_ids(&registry), Vec::<i32>::new());
    assert_eq!(ids(&registry), vec![1, 2, 3]);
}

#[test]
fn the_active_entry_stays_active_when_others_come_and_go() {
    let mut registry = filled(&[1, 3]);
    registry.active(3);
    registry.add(workspace(2));
    registry.remove(1);
    assert_eq!(ids(&registry), vec![2, 3]);
    assert_eq!(active_ids(&registry), vec![3]);
}

#[test]
fn messages_for_other_widgets_leave_the_registry_alone() {
    let mut registry = filled(&[1, 2]);
    let before = registry.snapshot();
    registry.update(HyprlandMessage::Start);
    registry.update(HyprlandMessage::ActiveWindow { window: None });
    registry.update(HyprlandMessage::SwitchKeyboardLayout {
        keyboard_name: String::from("kbd0"),
        layout_name: String::from("us"),
    });
    registry.update(HyprlandMessage::AddMonitor { monitor: String::from("DP-2") });
    registry.update(HyprlandMessage::RemoveMonitor { monitor: String::from("DP-2") });
    assert_eq!(registry.snapshot(), before);
}

#[test]
fn start_up_sends_the_additions_ascending_and_then_the_active_id() {
    let messages =
        WorkspacesModel::init_workspaces(vec![workspace(3), workspace(1), workspace(2)], Some(2));
    assert_eq!(
        messages,
        vec![
            HyprlandMessage::Add { workspace: workspace(1) },
            HyprlandMessage::Add { workspace: workspace(2) },
            HyprlandMessage::Add { workspace: workspace(3) },
            HyprlandMessage::Active { id: 2 },
        ]
    );
}

#[test]
fn start_up_without_an_active_workspace_sends_additions_only() {
    let messages = WorkspacesModel::init_workspaces(vec![workspace(2), workspace(1)], None);
    assert_eq!(
        messages,
        vec![
            HyprlandMessage::Add { workspace: workspace(1) },
            HyprlandMessage::Add { workspace: workspace(2) },
        ]
    );
    assert!(WorkspacesModel::init_workspaces(Vec::new(), None).is_empty());
}

#[test]
fn start_up_keeps_the_reported_order_of_equal_ids() {
    let messages = WorkspacesModel::init_workspaces(
        vec![named(2, "first"), workspace(1), named(2, "second")],
        None,
    );
    assert_eq!(
        messages,
        vec![
            HyprlandMessage::Add { workspace: workspace(1) },
            HyprlandMessage::Add { workspace: named(2, "first") },
            HyprlandMessage::Add { workspace: named(2, "second") },
        ]
    );
}

#[test]
fn filling_a_registry_twice_gives_the_same_state_both_times() {
    let reported = vec![workspace(4), workspace(-1), workspace(9), workspace(2)];
    let mut first = WorkspacesModel::new();
    for message in WorkspacesModel::init_workspaces(reported.clone(), Some(9)) {
        first.update(message);
    }
    let mut second = WorkspacesModel::new();
    for message in WorkspacesModel::init_workspaces(reported, Some(9)) {
        second.update(message);
    }
    assert_eq!(first.snapshot(), second.snapshot());
    assert_eq!(ids(&first), vec![-1, 2, 4, 9]);
    assert_eq!(active_ids(&first), vec![9]);
}

#[test]
fn a_filled_registry_does_not_depend_on_the_order_of_the_report() {
    let mut first = WorkspacesModel::new();
    for message in
        WorkspacesModel::init_workspaces(vec![workspace(1), workspace(2), workspace(3)], Some(1))
    {
        first.update(message);
    }
    let mut second = WorkspacesModel::new();
    for message in
        WorkspacesModel::init_workspaces(vec![workspace(3), workspace(1), workspace(2)], Some(1))
    {
        second.update(message);
    }
    assert_eq!(first.snapshot(), second.snapshot());
}

#[test]
fn a_click_on_an_entry_asks_for_its_workspace() {
    let mut entry = WorkspaceModel::from(workspace(5));
    let before = entry.clone();
    assert_eq!(entry.update(WorkspaceMessage::SwitchTo), Some(5));
    assert_eq!(entry, before);
}

#[test]
fn an_entry_is_active_exactly_while_the_active_id_is_its_own() {
    let mut entry = WorkspaceModel::from(workspace(5));
    assert_eq!(entry.update(WorkspaceMessage::ActiveIdChanged { id: 5 }), None);
    assert!(entry.is_active);
    assert_eq!(entry.update(WorkspaceMessage::ActiveIdChanged { id: 6 }), None);
    assert!(!entry.is_active);
}

#[test]
fn a_populated_registry_holds_the_report_sorted_with_its_active_entry() {
    let registry =
        WorkspacesModel::populate(vec![workspace(3), workspace(1), workspace(2)], Some(3));
    assert_eq!(ids(&registry), vec![1, 2, 3]);
    assert_eq!(active_ids(&registry), vec![3]);
    let again = WorkspacesModel::populate(vec![workspace(2), workspace(3), workspace(1)], Some(3));
    assert_eq!(registry.snapshot(), again.snapshot());
    assert_eq!(WorkspacesModel::populate(Vec::new(), Some(1)).len(), 0);
}

#[test]
fn a_run_of_messages_is_applied_in_its_order() {
    let mut registry = WorkspacesModel::new();
    registry.replay(vec![
        HyprlandMessage::Add { workspace: workspace(2) },
        HyprlandMessage::Active { id: 2 },
        HyprlandMessage::Add { workspace: workspace(1) },
        HyprlandMessage::Remove { id: 2 },
        HyprlandMessage::Add { workspace: workspace(2) },
    ]);
    assert_eq!(ids(&registry), vec![1, 2]);
    assert_eq!(active_ids(&registry), Vec::<i32>::new());
}
