//! The menu of a tray item: its nodes as the tray protocol delivers them,
//! the sectioned menu built of them, and the actions behind its leaves.

use vstd::prelude::*;
use crate::text::{decimal_text, text_view};
use crate::widgets::icon::rgba_of;

verus! {

/// Whether a menu node is an entry or a line between entries.
#[derive(Clone, Copy, Debug, PartialEq, Eq, Structural)]
pub enum MenuType {
    /// A line that parts two sections.
    Separator,
    /// An entry that can be clicked or that opens another menu.
    Standard,
}

/// How a menu node can be toggled.
#[derive(Clone, Copy, Debug, PartialEq, Eq, Structural)]
pub enum ToggleType {
    /// The node is toggled by itself.
    Checkmark,
    /// The node belongs to a group of which one is on.
    Radio,
    /// The node cannot be toggled.
    CannotBeToggled,
}

/// The state of a node that can be toggled.
#[derive(Clone, Copy, Debug, PartialEq, Eq, Structural)]
pub enum ToggleState {
    On,
    Off,
    Indeterminate,
}

/// A node of a tray item's menu, as the tray protocol delivers it.
#[derive(Debug, PartialEq, Eq)]
pub struct MenuItem {
    pub id: i32,
    pub menu_type: MenuType,
    pub label: Option<String>,
    pub enabled: bool,
    pub visible: bool,
    pub icon_name: Option<String>,
    /// Pixels of the node's icon, four bytes each: alpha, red, green,
    /// blue.
    pub icon_data: Option<Vec<u8>>,
    pub toggle_type: ToggleType,
    pub toggle_state: ToggleState,
    /// The nodes below this one.
    pub submenu: Vec<MenuItem>,
}

/// What a [`MenuItem`] holds.
pub ghost struct MenuItemView {
    pub id: i32,
    pub menu_type: MenuType,
    pub label: Option<Seq<char>>,
    pub enabled: bool,
    pub visible: bool,
    pub icon_name: Option<Seq<char>>,
    pub icon_data: Option<Seq<u8>>,
    pub toggle_type: ToggleType,
    pub toggle_state: ToggleState,
    pub submenu: Seq<MenuItemView>,
}

/// The view of optional bytes.
pub open spec fn bytes_view(bytes: Option<Vec<u8>>) -> Option<Seq<u8>> {
    match bytes {
        Some(bytes) => Some(bytes@),
        None => None,
    }
}

/// What a menu node holds.
pub open spec fn item_view(item: MenuItem) -> MenuItemView
    decreases item,
{
    MenuItemView {
        id: item.id,
        menu_type: item.menu_type,
        label: text_view(item.label),
        enabled: item.enabled,
        visible: item.visible,
        icon_name: text_view(item.icon_name),
        icon_data: bytes_view(item.icon_data),
        toggle_type: item.toggle_type,
        toggle_state: item.toggle_state,
        submenu: items_view(item.submenu@),
    }
}

/// What a list of menu nodes holds.
pub open spec fn items_view(items: Seq<MenuItem>) -> Seq<MenuItemView>
    decreases items,
{
    if items.len() == 0 {
        Seq::empty()
    } else {
        items_view(items.drop_last()).push(item_view(items.last()))
    }
}

impl View for MenuItem {
    type V = MenuItemView;

    open spec fn view(&self) -> MenuItemView {
        item_view(*self)
    }
}

/// A list of nodes and its view agree place by place.
pub proof fn lemma_items_view(items: Seq<MenuItem>)
    ensures
        items_view(items).len() == items.len(),
        forall|k: int| 0 <= k < items.len() ==> #[trigger] items_view(items)[k] == item_view(items[k]),
    decreases items.len(),
{
    if items.len() > 0 {
        lemma_items_view(items.drop_last());
        assert forall|k: int| 0 <= k < items.len() implies #[trigger] items_view(items)[k]
            == item_view(items[k]) by {
            if k < items.len() - 1 {
                assert(items.drop_last()[k] == items[k]);
            }
        }
    }
}

/// A copy of a list of nodes.
fn clone_items(items: &Vec<MenuItem>) -> (copy: Vec<MenuItem>)
    ensures
        items_view(copy@) == items_view(items@),
    decreases *items, 1int,
{
    let mut copy: Vec<MenuItem> = Vec::new();
    let mut index: usize = 0;
    assert(items@.take(0) =~= Seq::<MenuItem>::empty());
    while index < items.len()
        invariant
            index <= items.len(),
            copy.len() == index,
            items_view(copy@) == items_view(items@.take(index as int)),
        decreases items.len() - index,
    {
        let ghost before = copy@;
        copy.push(items[index].clone());
        assert(copy@.drop_last() =~= before);
        assert(items@.take(index as int + 1).drop_last() =~= items@.take(index as int));
        index = index + 1;
    }
    assert(items@.take(index as int) =~= items@);
    copy
}

impl Clone for MenuItem {
    fn clone(&self) -> (copy: Self)
        ensures
            copy@ == self@,
        decreases *self, 0int,
    {
        MenuItem {
            id: self.id,
            menu_type: self.menu_type,
            label: self.label.clone(),
            enabled: self.enabled,
            visible: self.visible,
            icon_name: self.icon_name.clone(),
            icon_data: self.icon_data.clone(),
            toggle_type: self.toggle_type,
            toggle_state: self.toggle_state,
            submenu: clone_items(&self.submenu),
        }
    }
}

/// The menu of a tray item.
#[derive(Clone, Debug, PartialEq, Eq)]
pub struct TrayMenu {
    pub id: u32,
    pub submenus: Vec<MenuItem>,
}

/// What a [`TrayMenu`] holds.
pub ghost struct TrayMenuView {
    pub id: u32,
    pub submenus: Seq<MenuItemView>,
}

impl View for TrayMenu {
    type V = TrayMenuView;

    open spec fn view(&self) -> TrayMenuView {
        TrayMenuView { id: self.id, submenus: items_view(self.submenus@) }
    }
}

/// The icon of a menu entry.
#[derive(Clone, Debug, PartialEq, Eq)]
pub enum MenuIcon {
    /// Pixels, four bytes each: red, green, blue, alpha.
    Bytes(Vec<u8>),
    /// The name under which the icon theme holds the icon.
    Named(String),
}

/// What a [`MenuIcon`] holds.
pub ghost enum MenuIconView {
    Bytes(Seq<u8>),
    Named(Seq<char>),
}

impl View for MenuIcon {
    type V = MenuIconView;

    open spec fn view(&self) -> MenuIconView {
        match self {
            MenuIcon::Bytes(bytes) => MenuIconView::Bytes(bytes@),
            MenuIcon::Named(name) => MenuIconView::Named(name@),
        }
    }
}

/// An entry of a built menu.
#[derive(Debug, PartialEq, Eq)]
pub enum MenuEntry {
    /// An entry that opens a menu of its own.
    Submenu { label: Option<String>, sections: Vec<Vec<MenuEntry>> },
    /// An entry that triggers an action.
    Leaf { label: Option<String>, action: String, icon: Option<MenuIcon> },
}

/// What a [`MenuEntry`] holds.
pub ghost enum MenuEntryView {
    Submenu { label: Option<Seq<char>>, sections: Seq<Seq<MenuEntryView>> },
    Leaf { label: Option<Seq<char>>, action: Seq<char>, icon: Option<MenuIconView> },
}

/// The view of an optional icon.
pub open spec fn icon_view(icon: Option<MenuIcon>) -> Option<MenuIconView> {
    match icon {
        Some(icon) => Some(icon@),
        None => None,
    }
}

/// What a menu entry holds.
pub open spec fn entry_view(entry: MenuEntry) -> MenuEntryView
    decreases entry,
{
    match entry {
        MenuEntry::Submenu { label, sections } => MenuEntryView::Submenu {
            label: text_view(label),
            sections: sections_view(sections@),
        },
        MenuEntry::Leaf { label, action, icon } => MenuEntryView::Leaf {
            label: text_view(label),
            action: action@,
            icon: icon_view(icon),
        },
    }
}

/// What a list of menu entries holds.
pub open spec fn entries_view(entries: Seq<MenuEntry>) -> Seq<MenuEntryView>
    decreases entries,
{
    if entries.len() == 0 {
        Seq::empty()
    } else {
        entries_view(entries.drop_last()).push(entry_view(entries.last()))
    }
}

/// What the sections of a menu hold.
pub open spec fn sections_view(sections: Seq<Vec<MenuEntry>>) -> Seq<Seq<MenuEntryView>>
    decreases sections,
{
    if sections.len() == 0 {
        Seq::empty()
    } else {
        sections_view(sections.drop_last()).push(entries_view(sections.last()@))
    }
}

impl View for MenuEntry {
    type V = MenuEntryView;

    open spec fn view(&self) -> MenuEntryView {
        entry_view(*self)
    }
}

/// A copy of a list of entries.
fn clone_entries(entries: &Vec<MenuEntry>) -> (copy: Vec<MenuEntry>)
    ensures
        entries_view(copy@) == entries_view(entries@),
    decreases *entries, 1int,
{
    let mut copy: Vec<MenuEntry> = Vec::new();
    let mut index: usize = 0;
    assert(entries@.take(0) =~= Seq::<MenuEntry>::empty());
    while index < entries.len()
        invariant
            index <= entries.len(),
            copy.len() == index,
            entries_view(copy@) == entries_view(entries@.take(index as int)),
        decreases entries.len() - index,
    {
        let ghost before = copy@;
        copy.push(entries[index].clone());
        assert(copy@.drop_last() =~= before);
        assert(entries@.take(index as int + 1).drop_last() =~= entries@.take(index as int));
        index = index + 1;
    }
    assert(entries@.take(index as int) =~= entries@);
    copy
}

/// A copy of the sections of a menu.
fn clone_sections(sections: &Vec<Vec<MenuEntry>>) -> (copy: Vec<Vec<MenuEntry>>)
    ensures
        sections_view(copy@) == sections_view(sections@),
    decreases *sections, 2int,
{
    let mut copy: Vec<Vec<MenuEntry>> = Vec::new();
    let mut index: usize = 0;
    assert(sections@.take(0) =~= Seq::<Vec<MenuEntry>>::empty());
    while index < sections.len()
        invariant
            index <= sections.len(),
            copy.len() == index,
            sections_view(copy@) == sections_view(sections@.take(index as int)),
        decreases sections.len() - index,
    {
        let ghost before = copy@;
        copy.push(clone_entries(&sections[index]));
        assert(copy@.drop_last() =~= before);
        assert(sections@.take(index as int + 1).drop_last() =~= sections@.take(index as int));
        index = index + 1;
    }
    assert(sections@.take(index as int) =~= sections@);
    copy
}

impl Clone for MenuEntry {
    fn clone(&self) -> (copy: Self)
        ensures
            copy@ == self@,
        decreases *self, 0int,
    {
        match self {
            MenuEntry::Submenu { label, sections } => MenuEntry::Submenu {
                label: label.clone(),
                sections: clone_sections(sections),
            },
            MenuEntry::Leaf { label, action, icon } => MenuEntry::Leaf {
                label: label.clone(),
                action: action.clone(),
                icon: match icon {
                    Some(MenuIcon::Bytes(bytes)) => Some(MenuIcon::Bytes(bytes.clone())),
                    Some(MenuIcon::Named(name)) => Some(MenuIcon::Named(name.clone())),
                    None => None,
                },
            },
        }
    }
}

/// The first place at or behind `start` that holds a separator; the
/// number of nodes where there is none.
pub open spec fn separator_from(items: Seq<MenuItemView>, start: int) -> int
    decreases items.len() - start,
{
    if start < 0 || start >= items.len() {
        items.len() as int
    } else if items[start].menu_type == MenuType::Separator {
        start
    } else {
        separator_from(items, start + 1)
    }
}

/// The name of the action that a leaf with this id triggers: `tray.` and
/// the id in decimal.
pub open spec fn action_name(id: i32) -> Seq<char> {
    seq!['t', 'r', 'a', 'y', '.'] + decimal_text(id as int)
}

/// The icon of a leaf: its pixels, converted to RGBA, where the node has
/// pixels; else the named icon, where it names one.
pub open spec fn leaf_icon(item: MenuItemView) -> Option<MenuIconView> {
    match item.icon_data {
        Some(pixels) => Some(MenuIconView::Bytes(rgba_of(pixels))),
        None => match item.icon_name {
            Some(name) => Some(MenuIconView::Named(name)),
            None => None,
        },
    }
}

/// The entry that a node becomes: a submenu with the node's children
/// built in their turn where it has children, else a leaf.
pub open spec fn entry_for(item: MenuItemView) -> MenuEntryView
    decreases item, 0int, 0int,
{
    if item.submenu.len() > 0 {
        MenuEntryView::Submenu { label: item.label, sections: sections_from(item.submenu, 0) }
    } else {
        MenuEntryView::Leaf {
            label: item.label,
            action: action_name(item.id),
            icon: leaf_icon(item),
        }
    }
}

/// The entries of the visible nodes from `start` up to `stop`, in their
/// order.
pub open spec fn entries_between(items: Seq<MenuItemView>, start: int, stop: int) -> Seq<
    MenuEntryView,
>
    decreases items, stop - start, 0int,
{
    if start < 0 || stop <= start || stop > items.len() {
        Seq::empty()
    } else {
        let front = entries_between(items, start, stop - 1);
        if items[stop - 1].visible {
            front.push(entry_for(items[stop - 1]))
        } else {
            front
        }
    }
}

/// The sections of the nodes from `start` on: the nodes are split at every
/// separator, runs without a node are dropped, and each other run becomes
/// the section of its visible nodes.
pub open spec fn sections_from(items: Seq<MenuItemView>, start: int) -> Seq<Seq<MenuEntryView>>
    decreases items, items.len() - start, 1int,
{
    if start < 0 || start >= items.len() {
        Seq::empty()
    } else {
        let stop = separator_from(items, start);
        if stop < start || stop > items.len() {
            Seq::empty()
        } else {
            let rest = if stop < items.len() {
                sections_from(items, stop + 1)
            } else {
                Seq::empty()
            };
            if stop > start {
                seq![entries_between(items, start, stop)] + rest
            } else {
                rest
            }
        }
    }
}

/// The menu built from a flat list of nodes: its sections, first to last.
pub open spec fn built_menu(items: Seq<MenuItemView>) -> Seq<Seq<MenuEntryView>> {
    sections_from(items, 0)
}

/// The next separator lies at or behind `start`; no node before it, from
/// `start` on, is a separator, and the node at it is one.
pub proof fn lemma_separator_from(items: Seq<MenuItemView>, start: int)
    requires
        0 <= start <= items.len(),
    ensures
        start <= separator_from(items, start) <= items.len(),
        forall|k: int|
            start <= k < separator_from(items, start) ==> (#[trigger] items[k]).menu_type
                != MenuType::Separator,
        separator_from(items, start) < items.len() ==> items[separator_from(
            items,
            start,
        )].menu_type == MenuType::Separator,
    decreases items.len() - start,
{
    if start < items.len() && items[start].menu_type != MenuType::Separator {
        lemma_separator_from(items, start + 1);
    }
}

/// Where every node in a run is visible, the run has as many entries as
/// nodes.
pub proof fn lemma_entries_between_visible(items: Seq<MenuItemView>, start: int, stop: int)
    requires
        0 <= start <= stop <= items.len(),
        forall|k: int| start <= k < stop ==> (#[trigger] items[k]).visible,
    ensures
        entries_between(items, start, stop).len() == stop - start,
    decreases stop - start,
{
    if stop > start {
        lemma_entries_between_visible(items, start, stop - 1);
        assert(items[stop - 1].visible);
    }
}

/// Law: however the separators lie (at the start, at the end, one next to
/// the other), a menu whose other nodes are all visible has no empty
/// section.
pub proof fn lemma_no_empty_section(items: Seq<MenuItemView>, start: int)
    requires
        0 <= start <= items.len(),
        forall|k: int|
            0 <= k < items.len() && (#[trigger] items[k]).menu_type != MenuType::Separator
                ==> items[k].visible,
    ensures
        forall|s: int|
            0 <= s < sections_from(items, start).len() ==> (#[trigger] sections_from(
                items,
                start,
            )[s]).len() > 0,
    decreases items.len() - start,
{
    if start < items.len() {
        lemma_separator_from(items, start);
        let stop = separator_from(items, start);
        let rest = if stop < items.len() {
            sections_from(items, stop + 1)
        } else {
            Seq::empty()
        };
        if stop < items.len() {
            lemma_no_empty_section(items, stop + 1);
        }
        if stop > start {
            assert forall|k: int| start <= k < stop implies (#[trigger] items[k]).visible by {
                assert(items[k].menu_type != MenuType::Separator);
            }
            lemma_entries_between_visible(items, start, stop);
            let all = sections_from(items, start);
            assert forall|s: int| 0 <= s < all.len() implies (#[trigger] all[s]).len() > 0 by {
                if s > 0 {
                    assert(all[s] == rest[s - 1]);
                }
            }
        }
    }
}

/// Law: a menu without separators, with a node in it, is one section.
pub proof fn lemma_one_section(items: Seq<MenuItemView>)
    requires
        items.len() > 0,
        forall|k: int|
            0 <= k < items.len() ==> (#[trigger] items[k]).menu_type != MenuType::Separator,
    ensures
        built_menu(items) == seq![entries_between(items, 0, items.len() as int)],
{
    lemma_separator_from(items, 0);
    let stop = separator_from(items, 0);
    if stop < items.len() {
        assert(items[stop].menu_type != MenuType::Separator);
    }
    assert(built_menu(items) =~= seq![entries_between(items, 0, items.len() as int)]);
}

/// The state that an action starts with.
#[derive(Clone, Copy, Debug, PartialEq, Eq, Structural)]
pub enum ActionState {
    /// The node cannot be toggled: the action has no state.
    Stateless,
    /// The node is on or off.
    Bool(bool),
    /// The node can be toggled but is neither on nor off.
    Indeterminate,
}

/// The action behind a leaf of the menu.
#[derive(Clone, Debug, PartialEq, Eq)]
pub struct Action {
    /// The name of the action within its group: the node's id in decimal.
    pub name: String,
    pub state: ActionState,
    pub enabled: bool,
    /// The id that is sent to the tray item when the action is triggered.
    pub submenu_id: i32,
}

/// What an [`Action`] holds.
pub ghost struct ActionView {
    pub name: Seq<char>,
    pub state: ActionState,
    pub enabled: bool,
    pub submenu_id: i32,
}

impl View for Action {
    type V = ActionView;

    open spec fn view(&self) -> ActionView {
        ActionView {
            name: self.name@,
            state: self.state,
            enabled: self.enabled,
            submenu_id: self.submenu_id,
        }
    }
}

/// The views of actions.
pub open spec fn action_views(actions: Seq<Action>) -> Seq<ActionView> {
    actions.map_values(|action: Action| action@)
}

/// The state of the action of a node: on or off for a node with a
/// checkmark or in a radio group, a value of its own where such a node is
/// neither, and none for a node that cannot be toggled.
pub open spec fn toggle_value(toggle_type: ToggleType, toggle_state: ToggleState) -> ActionState {
    match toggle_type {
        ToggleType::CannotBeToggled => ActionState::Stateless,
        _ => match toggle_state {
            ToggleState::On => ActionState::Bool(true),
            ToggleState::Off => ActionState::Bool(false),
            ToggleState::Indeterminate => ActionState::Indeterminate,
        },
    }
}

/// The action of a leaf.
pub open spec fn leaf_action(item: MenuItemView) -> ActionView {
    ActionView {
        name: decimal_text(item.id as int),
        state: toggle_value(item.toggle_type, item.toggle_state),
        enabled: item.enabled,
        submenu_id: item.id,
    }
}

/// The actions below a node: none for a separator, those of its children
/// for a node with children, and its own for a leaf.
pub open spec fn actions_for(item: MenuItemView) -> Seq<ActionView>
    decreases item, 0int,
{
    if item.menu_type == MenuType::Separator {
        Seq::empty()
    } else if item.submenu.len() > 0 {
        actions_of(item.submenu, item.submenu.len() as int)
    } else {
        seq![leaf_action(item)]
    }
}

/// The actions below the first `count` nodes of a list, in their order.
pub open spec fn actions_of(items: Seq<MenuItemView>, count: int) -> Seq<ActionView>
    decreases items, count,
{
    if count <= 0 || count > items.len() {
        Seq::empty()
    } else {
        actions_of(items, count - 1) + actions_for(items[count - 1])
    }
}

/// The actions of a menu.
pub open spec fn action_group(menu: TrayMenuView) -> Seq<ActionView> {
    actions_of(menu.submenus, menu.submenus.len() as int)
}

/// The action that an entry names is one of the actions: it is `tray.` and
/// the name of one of them.
pub open spec fn is_bound(action: Seq<char>, actions: Seq<ActionView>) -> bool {
    exists|k: int|
        0 <= k < actions.len() && action == seq!['t', 'r', 'a', 'y', '.'] + (
        #[trigger] actions[k]).name
}

/// Every leaf of an entry, however deep, names one of the actions.
pub open spec fn entry_bound(entry: MenuEntryView, actions: Seq<ActionView>) -> bool
    decreases entry,
{
    match entry {
        MenuEntryView::Leaf { action, .. } => is_bound(action, actions),
        MenuEntryView::Submenu { sections, .. } => forall|s: int, e: int|
            0 <= s < sections.len() && 0 <= e < sections[s].len() ==> entry_bound(
                #[trigger] sections[s][e],
                actions,
            ),
    }
}

/// Every one of `some` actions is among `all`.
pub open spec fn all_among(some: Seq<ActionView>, all: Seq<ActionView>) -> bool {
    forall|k: int| 0 <= k < some.len() ==> all.contains(#[trigger] some[k])
}

/// The actions below one of the first `count` nodes are among the actions
/// below all of them.
pub proof fn lemma_actions_of_hold(items: Seq<MenuItemView>, count: int, place: int)
    requires
        0 <= place < count <= items.len(),
    ensures
        all_among(actions_for(items[place]), actions_of(items, count)),
    decreases count,
{
    let all = actions_of(items, count);
    let front = actions_of(items, count - 1);
    let last = actions_for(items[count - 1]);
    assert(all == front + last);
    if place == count - 1 {
        assert forall|k: int| 0 <= k < last.len() implies all.contains(#[trigger] last[k]) by {
            assert(all[front.len() + k] == last[k]);
        }
    } else {
        lemma_actions_of_hold(items, count - 1, place);
        let some = actions_for(items[place]);
        assert forall|k: int| 0 <= k < some.len() implies all.contains(#[trigger] some[k]) by {
            assert(front.contains(some[k]));
            let at = choose|at: int| 0 <= at < front.len() && front[at] == some[k];
            assert(all[at] == some[k]);
        }
    }
}

/// Every leaf of the entry of a node names one of the actions, if the
/// actions below the node are among them.
pub proof fn lemma_entry_bound(item: MenuItemView, actions: Seq<ActionView>)
    requires
        item.menu_type != MenuType::Separator,
        all_among(actions_for(item), actions),
    ensures
        entry_bound(entry_for(item), actions),
    decreases item, 0int, 0int,
{
    let entry = entry_for(item);
    if item.submenu.len() > 0 {
        lemma_sections_bound(item.submenu, 0, actions);
        assert(entry == MenuEntryView::Submenu {
            label: item.label,
            sections: sections_from(item.submenu, 0),
        });
        assert(entry_bound(entry, actions));
    } else {
        let own = actions_for(item);
        assert(own[0] == leaf_action(item));
        assert(actions.contains(own[0]));
        let k = choose|k: int| 0 <= k < actions.len() && actions[k] == own[0];
        assert(action_name(item.id) == seq!['t', 'r', 'a', 'y', '.'] + actions[k].name);
        assert(is_bound(action_name(item.id), actions));
        assert(entry == MenuEntryView::Leaf {
            label: item.label,
            action: action_name(item.id),
            icon: leaf_icon(item),
        });
        assert(entry_bound(entry, actions));
    }
}

/// Every leaf of the entries of a run of nodes names one of the actions.
pub proof fn lemma_entries_bound(
    items: Seq<MenuItemView>,
    start: int,
    stop: int,
    actions: Seq<ActionView>,
)
    requires
        0 <= start <= stop <= items.len(),
        forall|k: int| start <= k < stop ==> (#[trigger] items[k]).menu_type != MenuType::Separator,
        all_among(actions_of(items, items.len() as int), actions),
    ensures
        forall|e: int|
            0 <= e < entries_between(items, start, stop).len() ==> entry_bound(
                #[trigger] entries_between(items, start, stop)[e],
                actions,
            ),
    decreases items, stop - start, 0int,
{
    if stop > start {
        lemma_entries_bound(items, start, stop - 1, actions);
        let last = items[stop - 1];
        let front = entries_between(items, start, stop - 1);
        let entries = entries_between(items, start, stop);
        if last.visible {
            lemma_actions_of_hold(items, items.len() as int, stop - 1);
            let below = actions_for(last);
            let all = actions_of(items, items.len() as int);
            assert forall|k: int| 0 <= k < below.len() implies actions.contains(
                #[trigger] below[k],
            ) by {
                assert(all.contains(below[k]));
                let at = choose|at: int| 0 <= at < all.len() && all[at] == below[k];
                assert(actions.contains(all[at]));
            }
            lemma_entry_bound(last, actions);
            assert(entries == front.push(entry_for(last)));
        } else {
            assert(entries == front);
        }
        assert forall|e: int| 0 <= e < entries.len() implies entry_bound(
            #[trigger] entries[e],
            actions,
        ) by {
            if e < front.len() {
                assert(entries[e] == front[e]);
            }
        }
    }
}

/// Every leaf of the sections of the nodes from `start` on names one of the
/// actions.
pub proof fn lemma_sections_bound(items: Seq<MenuItemView>, start: int, actions: Seq<ActionView>)
    requires
        0 <= start <= items.len(),
        all_among(actions_of(items, items.len() as int), actions),
    ensures
        forall|s: int, e: int|
            0 <= s < sections_from(items, start).len() && 0 <= e < sections_from(
                items,
                start,
            )[s].len() ==> entry_bound(#[trigger] sections_from(items, start)[s][e], actions),
    decreases items, items.len() - start, 1int,
{
    if start < items.len() {
        lemma_separator_from(items, start);
        let stop = separator_from(items, start);
        let rest = if stop < items.len() {
            sections_from(items, stop + 1)
        } else {
            Seq::empty()
        };
        if stop < items.len() {
            lemma_sections_bound(items, stop + 1, actions);
        }
        let all = sections_from(items, start);
        if stop > start {
            lemma_entries_bound(items, start, stop, actions);
            assert forall|s: int, e: int| 0 <= s < all.len() && 0 <= e < all[s].len() implies
                entry_bound(#[trigger] all[s][e], actions) by {
                if s > 0 {
                    assert(all[s] == rest[s - 1]);
                    assert(entry_bound(rest[s - 1][e], actions));
                } else {
                    assert(all[0] == entries_between(items, start, stop));
                }
            }
        }
    }
}

/// Law: every leaf of a built menu, however deep, names an action of the
/// menu's action group, so that no entry of the menu is without effect.
pub proof fn lemma_leaves_are_bound(menu: TrayMenuView)
    ensures
        forall|s: int, e: int|
            0 <= s < built_menu(menu.submenus).len() && 0 <= e < built_menu(
                menu.submenus,
            )[s].len() ==> entry_bound(
                #[trigger] built_menu(menu.submenus)[s][e],
                action_group(menu),
            ),
{
    let actions = action_group(menu);
    assert forall|k: int| 0 <= k < actions.len() implies actions.contains(#[trigger] actions[k]) by {}
    lemma_sections_bound(menu.submenus, 0, actions);
}

} // verus!
