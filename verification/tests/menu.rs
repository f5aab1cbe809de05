use regbar::widgets::icon::argb2rgba;
use regbar::widgets::menu::{
    Action, ActionState, MenuEntry, MenuIcon, MenuItem, MenuType, ToggleState, ToggleType,
};
use regbar::widgets::tray_item::TrayItem;

fn node(id: i32, label: &str) -> MenuItem {
    MenuItem {
        id,
        menu_type: MenuType::Standard,
        label: Some(String::from(label)),
        enabled: true,
        visible: true,
        icon_name: None,
        icon_data: None,
        toggle_type: ToggleType::CannotBeToggled,
        toggle_state: ToggleState::Off,
        submenu: Vec::new(),
    }
}

fn separator(id: i32) -> MenuItem {
    let mut line = node(id, "");
    line.menu_type = MenuType::Separator;
    line.label = None;
    line
}

fn hidden(id: i32, label: &str) -> MenuItem {
    let mut made = node(id, label);
    made.visible = false;
    made
}

fn parent(id: i32, label: &str, children: Vec<MenuItem>) -> MenuItem {
    let mut made = node(id, label);
    made.submenu = children;
    made
}

fn leaf(id: i32, label: &str) -> MenuEntry {
    MenuEntry::Leaf { label: Some(String::from(label)), action: format!("tray.{id}"), icon: None }
}

fn labels(sections: &[Vec<MenuEntry>]) -> Vec<Vec<String>> {
    sections
        .iter()
        .map(|section| {
            section
                .iter()
                .map(|entry| match entry {
                    MenuEntry::Leaf { label, .. } => label.clone().unwrap_or_default(),
                    MenuEntry::Submenu { label, .. } => label.clone().unwrap_or_default(),
                })
                .collect()
        })
        .collect()
}

#[test]
fn separators_part_the_menu_into_sections() {
    let flat = vec![
        node(1, "A"),
        separator(2),
        node(3, "B"),
        node(4, "C"),
        separator(5),
        node(6, "D"),
    ];
    let sections = TrayItem::build_menu(&flat);
    assert_eq!(sections, vec![vec![leaf(1, "A")], vec![leaf(3, "B"), leaf(4, "C")], vec![leaf(6, "D")]]);
}

#[test]
fn separators_at_the_ends_and_next_to_each_other_make_no_empty_section() {
    let flat = vec![
        separator(1),
        separator(2),
        node(3, "A"),
        separator(4),
        separator(5),
        separator(6),
        node(7, "B"),
        separator(8),
    ];
    assert_eq!(labels(&TrayItem::build_menu(&flat)), vec![vec!["A"], vec!["B"]]);
    assert!(TrayItem::build_menu(&vec![separator(1)]).is_empty());
    assert!(TrayItem::build_menu(&vec![separator(1), separator(2)]).is_empty());
    assert!(TrayItem::build_menu(&Vec::new()).is_empty());
}

#[test]
fn a_menu_without_separators_is_one_section() {
    let flat = vec![node(1, "A"), node(2, "B")];
    assert_eq!(labels(&TrayItem::build_menu(&flat)), vec![vec!["A", "B"]]);
}

#[test]
fn hidden_nodes_are_left_out_and_may_leave_a_section_empty() {
    let flat = vec![node(1, "A"), hidden(2, "B"), separator(3), hidden(4, "C"), separator(5), node(6, "D")];
    assert_eq!(
        labels(&TrayItem::build_menu(&flat)),
        vec![vec!["A"], Vec::<&str>::new(), vec!["D"]]
    );
}

#[test]
fn a_node_with_children_becomes_a_submenu_with_sections_of_its_own() {
    let flat = vec![
        node(1, "A"),
        parent(2, "More", vec![node(21, "X"), separator(22), node(23, "Y"), hidden(24, "Z")]),
    ];
    let sections = TrayItem::build_menu(&flat);
    assert_eq!(
        sections,
        vec![vec![
            leaf(1, "A"),
            MenuEntry::Submenu {
                label: Some(String::from("More")),
                sections: vec![vec![leaf(21, "X")], vec![leaf(23, "Y")]],
            },
        ]]
    );
}

#[test]
fn a_separator_with_children_is_a_separator_still() {
    let mut line = separator(2);
    line.submenu = vec![node(21, "lost")];
    let flat = vec![node(1, "A"), line, node(3, "B")];
    assert_eq!(labels(&TrayItem::build_menu(&flat)), vec![vec!["A"], vec!["B"]]);
}

#[test]
fn a_leaf_names_its_action_by_its_id() {
    for id in [0, 5, 42, -3, i32::MAX, i32::MIN] {
        match TrayItem::menu_item_for(&node(id, "entry")) {
            MenuEntry::Leaf { label, action, icon } => {
                assert_eq!(label.as_deref(), Some("entry"));
                assert_eq!(action, format!("tray.{id}"));
                assert_eq!(icon, None);
            }
            other => panic!("no leaf: {other:?}"),
        }
    }
}

#[test]
fn pixels_come_before_a_named_icon() {
    let mut both = node(1, "both");
    both.icon_name = Some(String::from("document-open"));
    both.icon_data = Some(vec![255, 1, 2, 3]);
    let mut only_name = node(2, "name");
    only_name.icon_name = Some(String::from("document-open"));
    let mut only_pixels = node(3, "pixels");
    only_pixels.icon_data = Some(vec![9, 8, 7, 6, 5]);
    let icon_of = |item: &MenuItem| match TrayItem::menu_item_for(item) {
        MenuEntry::Leaf { icon, .. } => icon,
        other => panic!("no leaf: {other:?}"),
    };
    assert_eq!(icon_of(&both), Some(MenuIcon::Bytes(vec![1, 2, 3, 255])));
    assert_eq!(icon_of(&only_name), Some(MenuIcon::Named(String::from("document-open"))));
    assert_eq!(icon_of(&only_pixels), Some(MenuIcon::Bytes(vec![8, 7, 6, 9, 5])));
    assert_eq!(icon_of(&node(4, "none")), None);
}

#[test]
fn two_pixels_turn_from_argb_to_rgba() {
    let argb = vec![0xa0, 0x10, 0x20, 0x30, 0xa1, 0x11, 0x21, 0x31];
    assert_eq!(argb2rgba(argb), vec![0x10, 0x20, 0x30, 0xa0, 0x11, 0x21, 0x31, 0xa1]);
}

#[test]
fn bytes_behind_the_last_whole_pixel_stay() {
    assert_eq!(argb2rgba(Vec::new()), Vec::<u8>::new());
    assert_eq!(argb2rgba(vec![1, 2, 3]), vec![1, 2, 3]);
    assert_eq!(argb2rgba(vec![1, 2, 3, 4]), vec![2, 3, 4, 1]);
    assert_eq!(argb2rgba(vec![1, 2, 3, 4, 5, 6, 7]), vec![2, 3, 4, 1, 5, 6, 7]);
}

#[test]
fn toggles_map_to_states() {
    let on = ToggleState::On;
    let off = ToggleState::Off;
    let neither = ToggleState::Indeterminate;
    assert_eq!(TrayItem::toggle_value(ToggleType::Checkmark, on), ActionState::Bool(true));
    assert_eq!(TrayItem::toggle_value(ToggleType::Checkmark, off), ActionState::Bool(false));
    assert_eq!(TrayItem::toggle_value(ToggleType::Checkmark, neither), ActionState::Indeterminate);
    assert_eq!(TrayItem::toggle_value(ToggleType::Radio, on), ActionState::Bool(true));
    assert_eq!(TrayItem::toggle_value(ToggleType::Radio, off), ActionState::Bool(false));
    assert_eq!(TrayItem::toggle_value(ToggleType::Radio, neither), ActionState::Indeterminate);
    assert_eq!(TrayItem::toggle_value(ToggleType::CannotBeToggled, on), ActionState::Stateless);
    assert_eq!(TrayItem::toggle_value(ToggleType::CannotBeToggled, off), ActionState::Stateless);
    assert_eq!(TrayItem::toggle_value(ToggleType::CannotBeToggled, neither), ActionState::Stateless);
}

#[test]
fn actions_are_collected_from_all_leaves() {
    let mut checked = node(21, "checked");
    checked.toggle_type = ToggleType::Checkmark;
    checked.toggle_state = ToggleState::On;
    let mut disabled = hidden(23, "disabled");
    disabled.enabled = false;
    let tree = parent(2, "More", vec![checked, separator(22), disabled, parent(24, "Deep", vec![node(241, "leaf")])]);
    let actions = TrayItem::simple_action_for(&tree);
    assert_eq!(
        actions,
        vec![
            Action { name: String::from("21"), state: ActionState::Bool(true), enabled: true, submenu_id: 21 },
            Action { name: String::from("23"), state: ActionState::Stateless, enabled: false, submenu_id: 23 },
            Action { name: String::from("241"), state: ActionState::Stateless, enabled: true, submenu_id: 241 },
        ]
    );
    assert!(TrayItem::simple_action_for(&separator(9)).is_empty());
    assert_eq!(TrayItem::simple_action_for(&node(-4, "leaf"))[0].name, "-4");
}

#[test]
fn a_copy_of_a_menu_is_equal_to_it() {
    let tree = parent(2, "More", vec![node(21, "X"), separator(22), parent(23, "Y", vec![node(231, "Z")])]);
    assert_eq!(tree.clone(), tree);
    let entry = TrayItem::menu_item_for(&tree);
    assert_eq!(entry.clone(), entry);
}
