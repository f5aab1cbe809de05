//! Tray items: their state, what the bar draws of them, and the requests
//! that their menu sends.

use vstd::prelude::*;
use crate::text::{decimal_string, text_view};
use crate::widgets::icon::{
    argb2rgba, icon_image, image_view, optional_pixmap_views, pixmap_views, tallest, IconPixmap,
    IconPixmapView, Pixbuf, PixbufView,
};
use crate::widgets::menu::{
    action_group, action_name, action_views, actions_for, actions_of, built_menu,
    entries_between, entries_view, entry_for, item_view, items_view, lemma_items_view,
    sections_from, sections_view, separator_from, toggle_value, Action, ActionState,
    ActionView, MenuEntry, MenuEntryView, MenuIcon, MenuItem, MenuType, ToggleState, ToggleType,
    TrayMenu, TrayMenuView,
};

verus! {

/// A tray item as the tray protocol describes it.
#[derive(Clone, Debug, PartialEq, Eq)]
pub struct StatusNotifierItem {
    pub id: String,
    pub title: Option<String>,
    pub icon_theme_path: Option<String>,
    pub icon_name: Option<String>,
    pub icon_pixmap: Option<Vec<IconPixmap>>,
    /// Opaque handle under which the item's menu is reached.
    pub menu: Option<String>,
}

/// What a [`StatusNotifierItem`] holds.
pub ghost struct StatusNotifierItemView {
    pub id: Seq<char>,
    pub title: Option<Seq<char>>,
    pub icon_theme_path: Option<Seq<char>>,
    pub icon_name: Option<Seq<char>>,
    pub icon_pixmap: Option<Seq<IconPixmapView>>,
    pub menu: Option<Seq<char>>,
}

impl View for StatusNotifierItem {
    type V = StatusNotifierItemView;

    open spec fn view(&self) -> StatusNotifierItemView {
        StatusNotifierItemView {
            id: self.id@,
            title: text_view(self.title),
            icon_theme_path: text_view(self.icon_theme_path),
            icon_name: text_view(self.icon_name),
            icon_pixmap: optional_pixmap_views(self.icon_pixmap),
            menu: text_view(self.menu),
        }
    }
}

/// The view of an optional menu.
pub open spec fn menu_view(menu: Option<TrayMenu>) -> Option<TrayMenuView> {
    match menu {
        Some(menu) => Some(menu@),
        None => None,
    }
}

/// A tray item of the bar: its key, what the protocol says of it and,
/// once it arrived, its menu.
#[derive(Clone, Debug, PartialEq, Eq)]
pub struct TrayItem {
    pub key: String,
    pub item: StatusNotifierItem,
    pub menu: Option<TrayMenu>,
}

/// What a [`TrayItem`] holds.
pub ghost struct TrayItemView {
    pub key: Seq<char>,
    pub item: StatusNotifierItemView,
    pub menu: Option<TrayMenuView>,
}

impl View for TrayItem {
    type V = TrayItemView;

    open spec fn view(&self) -> TrayItemView {
        TrayItemView { key: self.key@, item: self.item@, menu: menu_view(self.menu) }
    }
}

/// A change of a tray item that the tray protocol reports.
#[derive(Clone, Debug, PartialEq, Eq)]
pub enum UpdateEvent {
    /// The item names another icon, or none any more.
    Icon(Option<String>),
    /// The item's menu arrived or changed as a whole.
    Menu(TrayMenu),
    /// The item's title changed.
    Title(Option<String>),
    /// A change that the bar does not show.
    Other,
}

/// What an [`UpdateEvent`] holds.
pub ghost enum UpdateEventView {
    Icon(Option<Seq<char>>),
    Menu(TrayMenuView),
    Title(Option<Seq<char>>),
    Other,
}

impl View for UpdateEvent {
    type V = UpdateEventView;

    open spec fn view(&self) -> UpdateEventView {
        match self {
            UpdateEvent::Icon(name) => UpdateEventView::Icon(text_view(*name)),
            UpdateEvent::Menu(menu) => UpdateEventView::Menu(menu@),
            UpdateEvent::Title(title) => UpdateEventView::Title(text_view(*title)),
            UpdateEvent::Other => UpdateEventView::Other,
        }
    }
}

/// Where the icon that the bar shows first comes from.
#[derive(Clone, Copy, Debug, PartialEq, Eq, Structural)]
pub enum IconSource {
    /// The item names an icon: the icon theme decides.
    Named,
    /// The item names no icon but sent pixels.
    Pixmap,
    /// The item has neither.
    Nothing,
}

/// What the bar has to draw anew after a change of a tray item.
#[derive(Clone, Debug, PartialEq, Eq)]
pub enum Rendered {
    /// The icon: the name that the item gives it, the image made of the
    /// item's pixels if it sent any, and which of the two comes first.
    Icon { icon_name: Option<String>, image: Option<Pixbuf>, primary: IconSource },
    /// The menu: its actions and its sections.
    Menu { actions: Vec<Action>, sections: Vec<Vec<MenuEntry>> },
    /// The tooltip.
    Title { title: Option<String> },
    /// Nothing.
    Nothing,
}

/// What a [`Rendered`] holds.
pub ghost enum RenderedView {
    Icon { icon_name: Option<Seq<char>>, image: Option<PixbufView>, primary: IconSource },
    Menu { actions: Seq<ActionView>, sections: Seq<Seq<MenuEntryView>> },
    Title { title: Option<Seq<char>> },
    Nothing,
}

impl View for Rendered {
    type V = RenderedView;

    open spec fn view(&self) -> RenderedView {
        match self {
            Rendered::Icon { icon_name, image, primary } => RenderedView::Icon {
                icon_name: text_view(*icon_name),
                image: image_view(*image),
                primary: *primary,
            },
            Rendered::Menu { actions, sections } => RenderedView::Menu {
                actions: action_views(actions@),
                sections: sections_view(sections@),
            },
            Rendered::Title { title } => RenderedView::Title { title: text_view(*title) },
            Rendered::Nothing => RenderedView::Nothing,
        }
    }
}

/// Which icon comes first: a named icon always does; pixels count only
/// where no icon is named.
pub open spec fn primary_icon(icon_name: Option<Seq<char>>, image: Option<PixbufView>) -> IconSource {
    if icon_name is Some {
        IconSource::Named
    } else if image is Some {
        IconSource::Pixmap
    } else {
        IconSource::Nothing
    }
}

/// The item after a change: a new icon name, a new menu or a new title
/// takes the place of the old one; all else stays.
pub open spec fn updated(item: TrayItemView, message: UpdateEventView) -> TrayItemView {
    match message {
        UpdateEventView::Icon(icon_name) => TrayItemView {
            key: item.key,
            item: StatusNotifierItemView {
                id: item.item.id,
                title: item.item.title,
                icon_theme_path: item.item.icon_theme_path,
                icon_name,
                icon_pixmap: item.item.icon_pixmap,
                menu: item.item.menu,
            },
            menu: item.menu,
        },
        UpdateEventView::Menu(menu) => TrayItemView {
            key: item.key,
            item: item.item,
            menu: Some(menu),
        },
        UpdateEventView::Title(title) => TrayItemView {
            key: item.key,
            item: StatusNotifierItemView {
                id: item.item.id,
                title,
                icon_theme_path: item.item.icon_theme_path,
                icon_name: item.item.icon_name,
                icon_pixmap: item.item.icon_pixmap,
                menu: item.item.menu,
            },
            menu: item.menu,
        },
        UpdateEventView::Other => item,
    }
}

/// What the bar draws anew after a change of an item.
pub open spec fn rendering(item: TrayItemView, message: UpdateEventView) -> RenderedView {
    match message {
        UpdateEventView::Icon(icon_name) => RenderedView::Icon {
            icon_name,
            image: icon_image(item.item.icon_pixmap),
            primary: primary_icon(icon_name, icon_image(item.item.icon_pixmap)),
        },
        UpdateEventView::Menu(menu) => RenderedView::Menu {
            actions: action_group(menu),
            sections: built_menu(menu.submenus),
        },
        UpdateEventView::Title(title) => RenderedView::Title { title },
        UpdateEventView::Other => RenderedView::Nothing,
    }
}

/// A request to the tray item behind an entry or an icon.
#[derive(Clone, Debug, PartialEq, Eq)]
pub struct ActivateRequest {
    /// The key of the tray item.
    pub address: String,
    /// The handle of the item's menu.
    pub menu_path: String,
    /// The id of the node that was triggered; 0 for the icon itself.
    pub submenu_id: i32,
}

/// What an [`ActivateRequest`] holds.
pub ghost struct ActivateRequestView {
    pub address: Seq<char>,
    pub menu_path: Seq<char>,
    pub submenu_id: i32,
}

impl View for ActivateRequest {
    type V = ActivateRequestView;

    open spec fn view(&self) -> ActivateRequestView {
        ActivateRequestView {
            address: self.address@,
            menu_path: self.menu_path@,
            submenu_id: self.submenu_id,
        }
    }
}

/// The request that triggers a node of an item's menu: it names the item
/// by its key and the menu by its handle. An item without a menu handle
/// cannot be asked.
pub open spec fn activation(item: TrayItemView, submenu_id: i32) -> Option<ActivateRequestView> {
    match item.item.menu {
        Some(menu_path) => Some(ActivateRequestView { address: item.key, menu_path, submenu_id }),
        None => None,
    }
}

/// The view of an optional request.
pub open spec fn request_view(request: Option<ActivateRequest>) -> Option<ActivateRequestView> {
    match request {
        Some(request) => Some(request@),
        None => None,
    }
}

impl TrayItem {
    /// Builds the menu of a flat list of nodes: the list is split at every
    /// separator, runs without a node are dropped, and each other run
    /// becomes a section of the entries of its visible nodes.
    pub fn build_menu(value: &Vec<MenuItem>) -> (sections: Vec<Vec<MenuEntry>>)
        ensures
            sections_view(sections@) == built_menu(items_view(value@)),
        decreases *value, 1int,
    {
        let ghost nodes = items_view(value@);
        proof {
            lemma_items_view(value@);
        }
        let n: usize = value.len();
        let mut sections: Vec<Vec<MenuEntry>> = Vec::new();
        let mut start: usize = 0;
        assert(sections_view(sections@) + sections_from(nodes, 0) =~= built_menu(nodes));
        while start < n
            invariant
                start <= n,
                n == value.len(),
                nodes == items_view(value@),
                nodes.len() == n,
                forall|k: int| 0 <= k < n ==> #[trigger] nodes[k] == item_view(value@[k]),
                sections_view(sections@) + sections_from(nodes, start as int) == built_menu(
                    nodes,
                ),
            decreases n - start,
        {
            let mut stop: usize = start;
            while stop < n && value[stop].menu_type != MenuType::Separator
                invariant
                    start <= stop <= n,
                    n == value.len(),
                    nodes.len() == n,
                    forall|k: int| 0 <= k < n ==> #[trigger] nodes[k] == item_view(value@[k]),
                    separator_from(nodes, start as int) == separator_from(nodes, stop as int),
                    forall|k: int|
                        start <= k < stop ==> (#[trigger] value@[k]).menu_type
                            != MenuType::Separator,
                decreases n - stop,
            {
                assert(nodes[stop as int] == item_view(value@[stop as int]));
                stop = stop + 1;
            }
            proof {
                if stop < n {
                    assert(nodes[stop as int] == item_view(value@[stop as int]));
                }
                assert(separator_from(nodes, start as int) == stop);
            }
            if stop > start {
                let mut section: Vec<MenuEntry> = Vec::new();
                let mut index: usize = start;
                while index < stop
                    invariant
                        start <= index <= stop <= n,
                        n == value.len(),
                        nodes.len() == n,
                        forall|k: int| 0 <= k < n ==> #[trigger] nodes[k] == item_view(value@[k]),
                        forall|k: int|
                            start <= k < stop ==> (#[trigger] value@[k]).menu_type
                                != MenuType::Separator,
                        entries_view(section@) == entries_between(
                            nodes,
                            start as int,
                            index as int,
                        ),
                    decreases stop - index,
                {
                    assert(nodes[index as int] == item_view(value@[index as int]));
                    assert(value@[index as int].menu_type != MenuType::Separator);
                    if value[index].visible {
                        let entry = Self::menu_item_for(&value[index]);
                        let ghost before = section@;
                        section.push(entry);
                        assert(section@.drop_last() =~= before);
                    }
                    index = index + 1;
                }
                let ghost done = sections@;
                let ghost built = sections_view(sections@);
                sections.push(section);
                assert(sections@.drop_last() =~= done);
                assert(sections_view(sections@) + (if stop < n {
                    sections_from(nodes, stop as int + 1)
                } else {
                    Seq::empty()
                }) =~= built + sections_from(nodes, start as int));
            }
            if stop < n {
                start = stop + 1;
            } else {
                start = n;
            }
        }
        assert(sections_from(nodes, start as int) =~= Seq::empty());
        assert(sections_view(sections@) + Seq::<Seq<MenuEntryView>>::empty() =~= sections_view(
            sections@,
        ));
        sections
    }

    /// The entry that a node becomes: a submenu where it has children,
    /// else a leaf with its action and icon. Separators part sections and
    /// never become entries.
    pub fn menu_item_for(value: &MenuItem) -> (entry: MenuEntry)
        requires
            value.menu_type != MenuType::Separator,
        ensures
            entry@ == entry_for(value@),
        decreases *value, 0int,
    {
        let label = value.label.clone();
        if value.submenu.len() > 0 {
            proof {
                lemma_items_view(value.submenu@);
            }
            let sections = Self::build_menu(&value.submenu);
            MenuEntry::Submenu { label, sections }
        } else {
            proof {
                lemma_items_view(value.submenu@);
                reveal_strlit("tray.");
            }
            let action = "tray.".to_owned().concat(decimal_string(value.id).as_str());
            assert(action@ =~= action_name(value.id));
            let icon = match &value.icon_data {
                Some(pixels) => Some(MenuIcon::Bytes(argb2rgba(pixels.clone()))),
                None => match &value.icon_name {
                    Some(name) => Some(MenuIcon::Named(name.clone())),
                    None => None,
                },
            };
            MenuEntry::Leaf { label, action, icon }
        }
    }

    /// The state of the action of a node.
    pub fn toggle_value(toggle_type: ToggleType, toggle_state: ToggleState) -> (state: ActionState)
        ensures
            state == toggle_value(toggle_type, toggle_state),
    {
        match toggle_type {
            ToggleType::CannotBeToggled => ActionState::Stateless,
            _ => match toggle_state {
                ToggleState::On => ActionState::Bool(true),
                ToggleState::Off => ActionState::Bool(false),
                ToggleState::Indeterminate => ActionState::Indeterminate,
            },
        }
    }

    /// The actions below a node: none for a separator, those of its
    /// children for a node with children, and its own for a leaf.
    pub fn simple_action_for(value: &MenuItem) -> (actions: Vec<Action>)
        ensures
            action_views(actions@) == actions_for(value@),
        decreases *value,
    {
        let mut actions: Vec<Action> = Vec::new();
        if value.menu_type == MenuType::Separator {
            assert(action_views(actions@) =~= Seq::empty());
            return actions;
        }
        proof {
            lemma_items_view(value.submenu@);
        }
        if value.submenu.len() > 0 {
            let ghost nodes = items_view(value.submenu@);
            let mut index: usize = 0;
            assert(action_views(actions@) =~= actions_of(nodes, 0));
            while index < value.submenu.len()
                invariant
                    index <= value.submenu.len(),
                    nodes == items_view(value.submenu@),
                    nodes.len() == value.submenu.len(),
                    forall|k: int|
                        0 <= k < nodes.len() ==> #[trigger] nodes[k] == item_view(
                            value.submenu@[k],
                        ),
                    action_views(actions@) == actions_of(nodes, index as int),
                decreases value.submenu.len() - index,
            {
                assert(nodes[index as int] == item_view(value.submenu@[index as int]));
                let mut below = Self::simple_action_for(&value.submenu[index]);
                let ghost before = actions@;
                let ghost added = below@;
                actions.append(&mut below);
                assert(action_views(actions@) =~= action_views(before) + action_views(added));
                index = index + 1;
            }
        } else {
            let action = Action {
                name: decimal_string(value.id),
                state: Self::toggle_value(value.toggle_type, value.toggle_state),
                enabled: value.enabled,
                submenu_id: value.id,
            };
            let ghost held = action@;
            actions.push(action);
            assert(action_views(actions@) =~= seq![held]);
        }
        actions
    }

    /// The actions of the item's menu; `None` while no menu arrived.
    pub fn build_action_group(&self) -> (actions: Option<Vec<Action>>)
        ensures
            match self@.menu {
                Some(menu) => actions is Some && action_views(actions->0@) == action_group(menu),
                None => actions is None,
            },
    {
        match &self.menu {
            Some(menu) => {
                let ghost nodes = items_view(menu.submenus@);
                proof {
                    lemma_items_view(menu.submenus@);
                }
                let mut actions: Vec<Action> = Vec::new();
                let mut index: usize = 0;
                assert(action_views(actions@) =~= actions_of(nodes, 0));
                while index < menu.submenus.len()
                    invariant
                        index <= menu.submenus.len(),
                        nodes == items_view(menu.submenus@),
                        nodes.len() == menu.submenus.len(),
                        forall|k: int|
                            0 <= k < nodes.len() ==> #[trigger] nodes[k] == item_view(
                                menu.submenus@[k],
                            ),
                        action_views(actions@) == actions_of(nodes, index as int),
                    decreases menu.submenus.len() - index,
                {
                    assert(nodes[index as int] == item_view(menu.submenus@[index as int]));
                    let mut below = Self::simple_action_for(&menu.submenus[index]);
                    let ghost before = actions@;
                    let ghost added = below@;
                    actions.append(&mut below);
                    assert(action_views(actions@) =~= action_views(before) + action_views(added));
                    index = index + 1;
                }
                Some(actions)
            },
            None => None,
        }
    }

    /// The built menu of the item; `None` while no menu arrived.
    pub fn build_model(&self) -> (sections: Option<Vec<Vec<MenuEntry>>>)
        ensures
            match self@.menu {
                Some(menu) => sections is Some && sections_view(sections->0@) == built_menu(
                    menu.submenus,
                ),
                None => sections is None,
            },
    {
        match &self.menu {
            Some(menu) => Some(Self::build_menu(&menu.submenus)),
            None => None,
        }
    }

    /// A tray item without a menu yet.
    pub fn from(key: String, item: StatusNotifierItem, menu: Option<TrayMenu>) -> (tray: Self)
        ensures
            tray@ == (TrayItemView { key: key@, item: item@, menu: menu_view(menu) }),
    {
        TrayItem { key, item, menu }
    }

    /// A new tray item and the first change it is to handle: the icon that
    /// the item names.
    pub fn init_model(key: String, item: StatusNotifierItem, menu: Option<TrayMenu>) -> (init: (
        Self,
        UpdateEvent,
    ))
        ensures
            init.0@ == (TrayItemView { key: key@, item: item@, menu: menu_view(menu) }),
            init.1@ == UpdateEventView::Icon(item@.icon_name),
    {
        let first = UpdateEvent::Icon(item.icon_name.clone());
        (TrayItem { key, item, menu }, first)
    }

    /// The image made of the tallest of the item's pixmaps.
    pub fn icon_image(&self) -> (image: Option<Pixbuf>)
        ensures
            image_view(image) == icon_image(self@.item.icon_pixmap),
    {
        match &self.item.icon_pixmap {
            Some(pixmaps) => {
                if pixmaps.len() == 0 {
                    return None;
                }
                let ghost all = pixmap_views(pixmaps@);
                let mut best: usize = 0;
                let mut index: usize = 1;
                assert(all.take(1).drop_last() =~= Seq::<IconPixmapView>::empty());
                while index < pixmaps.len()
                    invariant
                        1 <= index <= pixmaps.len(),
                        best < index,
                        all == pixmap_views(pixmaps@),
                        best == tallest(all.take(index as int)),
                    decreases pixmaps.len() - index,
                {
                    assert(all.take(index as int + 1).drop_last() =~= all.take(index as int));
                    assert(all.take(index as int)[best as int] == all[best as int]);
                    if pixmaps[index].height >= pixmaps[best].height {
                        best = index;
                    }
                    index = index + 1;
                }
                assert(all.take(index as int) =~= all);
                pixmaps[best].image()
            },
            None => None,
        }
    }

    /// Handles one change of the item and says what the bar has to draw
    /// anew.
    pub fn update(&mut self, message: UpdateEvent) -> (rendered: Rendered)
        ensures
            final(self)@ == updated(old(self)@, message@),
            rendered@ == rendering(old(self)@, message@),
    {
        match message {
            UpdateEvent::Icon(icon_name) => {
                let image = self.icon_image();
                let primary = if icon_name.is_some() {
                    IconSource::Named
                } else if image.is_some() {
                    IconSource::Pixmap
                } else {
                    IconSource::Nothing
                };
                let shown = icon_name.clone();
                self.item.icon_name = icon_name;
                Rendered::Icon { icon_name: shown, image, primary }
            },
            UpdateEvent::Menu(menu) => {
                self.menu = Some(menu);
                let actions = match self.build_action_group() {
                    Some(actions) => actions,
                    None => Vec::new(),
                };
                let sections = match self.build_model() {
                    Some(sections) => sections,
                    None => Vec::new(),
                };
                Rendered::Menu { actions, sections }
            },
            UpdateEvent::Title(title) => {
                let shown = title.clone();
                self.item.title = title;
                Rendered::Title { title: shown }
            },
            UpdateEvent::Other => Rendered::Nothing,
        }
    }

    /// The request that triggers the node with this id in the item's
    /// menu; 0 stands for the icon itself. `None` where the item has no
    /// menu handle.
    pub fn activate_request(&self, submenu_id: i32) -> (request: Option<ActivateRequest>)
        ensures
            request_view(request) == activation(self@, submenu_id),
    {
        match &self.item.menu {
            Some(menu_path) => Some(
                ActivateRequest {
                    address: self.key.clone(),
                    menu_path: menu_path.clone(),
                    submenu_id,
                },
            ),
            None => None,
        }
    }
}

} // verus!
