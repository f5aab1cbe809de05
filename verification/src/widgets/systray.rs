//! The registry of tray items.

use vstd::prelude::*;
use crate::widgets::tray_item::{
    rendering, updated, Rendered, RenderedView, StatusNotifierItem, StatusNotifierItemView,
    TrayItem, TrayItemView, UpdateEvent, UpdateEventView,
};

verus! {

/// What the tray protocol reports of the tray items.
#[derive(Clone, Debug, PartialEq, Eq)]
pub enum Event {
    /// An item with this key appeared.
    Add(String, StatusNotifierItem),
    /// The item with this key changed.
    Update(String, UpdateEvent),
    /// The item with this key is gone.
    Remove(String),
}

/// What an [`Event`] holds.
pub ghost enum EventView {
    Add(Seq<char>, StatusNotifierItemView),
    Update(Seq<char>, UpdateEventView),
    Remove(Seq<char>),
}

impl View for Event {
    type V = EventView;

    open spec fn view(&self) -> EventView {
        match self {
            Event::Add(key, item) => EventView::Add(key@, item@),
            Event::Update(key, update) => EventView::Update(key@, update@),
            Event::Remove(key) => EventView::Remove(key@),
        }
    }
}

/// The views of events.
pub open spec fn event_views(events: Seq<Event>) -> Seq<EventView> {
    events.map_values(|event: Event| event@)
}

/// The views of tray items.
pub open spec fn item_views(items: Seq<TrayItem>) -> Seq<TrayItemView> {
    items.map_values(|item: TrayItem| item@)
}

/// The items of a registry, in the order in which the bar shows them.
pub type Items = Seq<TrayItemView>;

/// No two items have the same key.
pub open spec fn distinct_keys(items: Items) -> bool {
    forall|i: int, j: int|
        0 <= i < items.len() && 0 <= j < items.len() && (#[trigger] items[i]).key == (
        #[trigger] items[j]).key ==> i == j
}

/// The place of the first item with this key; the number of items where
/// none has it.
pub open spec fn position_of(items: Items, key: Seq<char>) -> int
    decreases items.len(),
{
    if items.len() == 0 || items[0].key == key {
        0
    } else {
        1 + position_of(items.skip(1), key)
    }
}

/// Some item has this key.
pub open spec fn has_key(items: Items, key: Seq<char>) -> bool {
    position_of(items, key) < items.len()
}

/// The item that is made of what an addition holds: it has no menu yet.
pub open spec fn fresh(key: Seq<char>, item: StatusNotifierItemView) -> TrayItemView {
    TrayItemView { key, item, menu: None }
}

/// The items after an event. An addition takes the place of the item with
/// its key, or goes to the end where no item has the key. An update changes
/// the item with its key, a removal takes it away; where no item has the
/// key, neither changes anything.
pub open spec fn after_event(items: Items, event: EventView) -> Items {
    match event {
        EventView::Add(key, item) => if has_key(items, key) {
            items.update(position_of(items, key), fresh(key, item))
        } else {
            items.push(fresh(key, item))
        },
        EventView::Update(key, update) => if has_key(items, key) {
            items.update(position_of(items, key), updated(items[position_of(items, key)], update))
        } else {
            items
        },
        EventView::Remove(key) => if has_key(items, key) {
            items.remove(position_of(items, key))
        } else {
            items
        },
    }
}

/// What an event changed, for the bar to draw.
#[derive(Clone, Debug, PartialEq, Eq)]
pub enum Change {
    /// A new item stands at the end; its icon is to be drawn.
    Added { index: usize, rendered: Rendered },
    /// The item at `index` was replaced by a new one with the same key.
    Replaced { index: usize, rendered: Rendered },
    /// The item at `index` changed.
    Updated { index: usize, rendered: Rendered },
    /// The item that stood at `index` is gone.
    Removed { index: usize },
    /// Nothing: no item has the key.
    Nothing,
}

/// What a [`Change`] holds.
pub ghost enum ChangeView {
    Added { index: int, rendered: RenderedView },
    Replaced { index: int, rendered: RenderedView },
    Updated { index: int, rendered: RenderedView },
    Removed { index: int },
    Nothing,
}

impl View for Change {
    type V = ChangeView;

    open spec fn view(&self) -> ChangeView {
        match self {
            Change::Added { index, rendered } => ChangeView::Added {
                index: *index as int,
                rendered: rendered@,
            },
            Change::Replaced { index, rendered } => ChangeView::Replaced {
                index: *index as int,
                rendered: rendered@,
            },
            Change::Updated { index, rendered } => ChangeView::Updated {
                index: *index as int,
                rendered: rendered@,
            },
            Change::Removed { index } => ChangeView::Removed { index: *index as int },
            Change::Nothing => ChangeView::Nothing,
        }
    }
}

/// What the bar is told after an event.
pub open spec fn change_of(items: Items, event: EventView) -> ChangeView {
    let at = position_of(items, event_key(event));
    match event {
        EventView::Add(key, item) => {
            let rendered = rendering(fresh(key, item), UpdateEventView::Icon(item.icon_name));
            if has_key(items, key) {
                ChangeView::Replaced { index: at, rendered }
            } else {
                ChangeView::Added { index: at, rendered }
            }
        },
        EventView::Update(key, update) => if has_key(items, key) {
            ChangeView::Updated { index: at, rendered: rendering(items[at], update) }
        } else {
            ChangeView::Nothing
        },
        EventView::Remove(key) => if has_key(items, key) {
            ChangeView::Removed { index: at }
        } else {
            ChangeView::Nothing
        },
    }
}

/// The key that an event speaks of.
pub open spec fn event_key(event: EventView) -> Seq<char> {
    match event {
        EventView::Add(key, _) => key,
        EventView::Update(key, _) => key,
        EventView::Remove(key) => key,
    }
}

/// The events that stand for a snapshot of the tray: for each item its
/// addition and, where it has a menu already, the update that brings the
/// menu.
pub open spec fn snapshot_events(snapshot: Seq<TrayItemView>) -> Seq<EventView>
    decreases snapshot.len(),
{
    if snapshot.len() == 0 {
        Seq::empty()
    } else {
        let front = snapshot_events(snapshot.drop_last());
        let last = snapshot.last();
        let added = front.push(EventView::Add(last.key, last.item));
        match last.menu {
            Some(menu) => added.push(EventView::Update(last.key, UpdateEventView::Menu(menu))),
            None => added,
        }
    }
}

/// The position of a key lies within the items or right behind them; no
/// item before it has the key, and the item at it has.
pub proof fn lemma_position_of(items: Items, key: Seq<char>)
    ensures
        0 <= position_of(items, key) <= items.len(),
        forall|k: int| 0 <= k < position_of(items, key) ==> (#[trigger] items[k]).key != key,
        has_key(items, key) ==> items[position_of(items, key)].key == key,
    decreases items.len(),
{
    if items.len() > 0 && items[0].key != key {
        let rest = items.skip(1);
        lemma_position_of(rest, key);
        assert forall|k: int| 0 <= k < position_of(items, key) implies (#[trigger] items[k]).key
            != key by {
            if k > 0 {
                assert(rest[k - 1].key != key);
            }
        }
        if has_key(items, key) {
            assert(rest[position_of(rest, key)] == items[position_of(items, key)]);
        }
    }
}

/// Law: whatever event arrives, no two items ever share a key.
pub proof fn lemma_keys_stay_distinct(items: Items, event: EventView)
    requires
        distinct_keys(items),
    ensures
        distinct_keys(after_event(items, event)),
{
    let key = event_key(event);
    let at = position_of(items, key);
    let after = after_event(items, event);
    lemma_position_of(items, key);
    match event {
        EventView::Add(_, item) => {
            assert forall|i: int, j: int|
                0 <= i < after.len() && 0 <= j < after.len() && (#[trigger] after[i]).key == (
                #[trigger] after[j]).key implies i == j by {
                if has_key(items, key) {
                    assert(after[i].key == items[i].key);
                    assert(after[j].key == items[j].key);
                } else {
                    if i < items.len() && j < items.len() {
                        assert(after[i] == items[i] && after[j] == items[j]);
                    } else if i < items.len() {
                        assert(items[i].key != key);
                    } else if j < items.len() {
                        assert(items[j].key != key);
                    }
                }
            }
        },
        EventView::Update(_, update) => {
            assert forall|i: int, j: int|
                0 <= i < after.len() && 0 <= j < after.len() && (#[trigger] after[i]).key == (
                #[trigger] after[j]).key implies i == j by {
                if has_key(items, key) {
                    assert(after[i].key == items[i].key);
                    assert(after[j].key == items[j].key);
                }
            }
        },
        EventView::Remove(_) => {
            assert forall|i: int, j: int|
                0 <= i < after.len() && 0 <= j < after.len() && (#[trigger] after[i]).key == (
                #[trigger] after[j]).key implies i == j by {
                if has_key(items, key) {
                    let a = if i < at { i } else { i + 1 };
                    let b = if j < at { j } else { j + 1 };
                    assert(after[i] == items[a] && after[j] == items[b]);
                }
            }
        },
    }
}

/// Law: after an addition exactly the added item has the key; after a
/// removal no item has it.
pub proof fn lemma_registry_is_a_map(items: Items, event: EventView)
    requires
        distinct_keys(items),
    ensures
        event matches EventView::Add(key, item) ==> has_key(after_event(items, event), key)
            && after_event(items, event)[position_of(after_event(items, event), key)] == fresh(
            key,
            item,
        ),
        event matches EventView::Remove(key) ==> !has_key(after_event(items, event), key),
{
    let key = event_key(event);
    let at = position_of(items, key);
    let after = after_event(items, event);
    lemma_position_of(items, key);
    lemma_position_of(after, key);
    match event {
        EventView::Add(_, item) => {
            if has_key(items, key) {
                assert(after[at].key == key);
            } else {
                assert(after[items.len() as int].key == key);
            }
            let found = position_of(after, key);
            if found < at {
                assert(after[found].key != key);
            }
            if found > at {
                assert(after[at].key != key);
            }
        },
        EventView::Remove(_) => {
            if has_key(items, key) && has_key(after, key) {
                let found = position_of(after, key);
                let origin = if found < at { found } else { found + 1 };
                assert(after[found] == items[origin]);
                assert(items[origin].key == items[at].key);
            }
        },
        _ => {},
    }
}

/// The registry of tray items: the items in the order in which they
/// appeared, no two with the same key.
pub struct SysTray {
    tray_items: Vec<TrayItem>,
}

impl View for SysTray {
    type V = Items;

    closed spec fn view(&self) -> Items {
        item_views(self.tray_items@)
    }
}

impl SysTray {
    #[verifier::type_invariant]
    spec fn keys_are_distinct(&self) -> bool {
        distinct_keys(self@)
    }

    /// A registry without items.
    pub fn new() -> (registry: Self)
        ensures
            registry@ == Seq::<TrayItemView>::empty(),
    {
        let registry = SysTray { tray_items: Vec::new() };
        assert(registry@ =~= Seq::<TrayItemView>::empty());
        registry
    }

    /// The number of items.
    pub fn len(&self) -> (count: usize)
        ensures
            count == self@.len(),
    {
        self.tray_items.len()
    }

    /// The item at `index`, if there is one.
    pub fn get(&self, index: usize) -> (item: Option<&TrayItem>)
        ensures
            index < self@.len() ==> item is Some && item->0@ == self@[index as int],
            index >= self@.len() ==> item is None,
            distinct_keys(self@),
    {
        proof {
            use_type_invariant(self);
        }
        if index < self.tray_items.len() {
            Some(&self.tray_items[index])
        } else {
            None
        }
    }

    /// The place of the item with this key; the number of items where none
    /// has it.
    pub fn position(&self, key: &String) -> (index: usize)
        ensures
            index == position_of(self@, key@),
    {
        let ghost items = self@;
        let mut index: usize = 0;
        assert(items.skip(0) =~= items);
        while index < self.tray_items.len() && self.tray_items[index].key != *key
            invariant
                index <= self.tray_items.len(),
                items == self@,
                position_of(items, key@) == index + position_of(items.skip(index as int), key@),
            decreases self.tray_items.len() - index,
        {
            assert(items.skip(index as int).skip(1) =~= items.skip(index as int + 1));
            index = index + 1;
        }
        index
    }

    /// The events that stand for a snapshot of the tray, in the order of
    /// the snapshot.
    pub fn init(snapshot: Vec<TrayItem>) -> (events: Vec<Event>)
        ensures
            event_views(events@) == snapshot_events(item_views(snapshot@)),
    {
        let ghost all = item_views(snapshot@);
        let mut events: Vec<Event> = Vec::new();
        assert(all.take(0) =~= Seq::empty());
        assert(event_views(events@) =~= Seq::empty());
        for item in iter: snapshot
            invariant
                iter.seq() == snapshot@,
                all == item_views(snapshot@),
                event_views(events@) == snapshot_events(all.take(iter.index() as int)),
        {
            let ghost count = iter.index() as int;
            let ghost sent = event_views(events@);
            let ghost last = item@;
            assert(all.take(count + 1).drop_last() =~= all.take(count));
            assert(all.take(count + 1).last() == last);
            let TrayItem { key, item, menu } = item;
            match menu {
                Some(menu) => {
                    let ghost brought = menu@;
                    events.push(Event::Add(key.clone(), item));
                    events.push(Event::Update(key, UpdateEvent::Menu(menu)));
                    assert(event_views(events@) =~= sent.push(
                        EventView::Add(last.key, last.item),
                    ).push(EventView::Update(last.key, UpdateEventView::Menu(brought))));
                },
                None => {
                    events.push(Event::Add(key, item));
                    assert(event_views(events@) =~= sent.push(EventView::Add(last.key, last.item)));
                },
            }
        }
        assert(all.take(snapshot@.len() as int) =~= all);
        events
    }

    /// Applies one event and says what the bar has to draw anew.
    pub fn update(&mut self, message: Event) -> (change: Change)
        ensures
            final(self)@ == after_event(old(self)@, message@),
            change@ == change_of(old(self)@, message@),
            distinct_keys(final(self)@),
    {
        proof {
            use_type_invariant(&*self);
            lemma_keys_stay_distinct(self@, message@);
            lemma_position_of(self@, event_key(message@));
        }
        let ghost before = self@;
        match message {
            Event::Add(key, item) => {
                let index = self.position(&key);
                let (mut tray, first) = TrayItem::init_model(key, item, None);
                let ghost added = tray@;
                let rendered = tray.update(first);
                assert(tray@ == added);
                let mut items: Vec<TrayItem> = Vec::new();
                core::mem::swap(&mut self.tray_items, &mut items);
                if index < items.len() {
                    items[index] = tray;
                    assert(item_views(items@) =~= before.update(index as int, added));
                    self.tray_items = items;
                    Change::Replaced { index, rendered }
                } else {
                    items.push(tray);
                    assert(item_views(items@) =~= before.push(added));
                    self.tray_items = items;
                    Change::Added { index, rendered }
                }
            },
            Event::Update(key, update) => {
                let index = self.position(&key);
                if index < self.tray_items.len() {
                    let mut items: Vec<TrayItem> = Vec::new();
                    core::mem::swap(&mut self.tray_items, &mut items);
                    let rendered = items[index].update(update);
                    assert(item_views(items@) =~= before.update(
                        index as int,
                        updated(before[index as int], update@),
                    ));
                    self.tray_items = items;
                    Change::Updated { index, rendered }
                } else {
                    Change::Nothing
                }
            },
            Event::Remove(key) => {
                let index = self.position(&key);
                if index < self.tray_items.len() {
                    let mut items: Vec<TrayItem> = Vec::new();
                    core::mem::swap(&mut self.tray_items, &mut items);
                    let _ = items.remove(index);
                    assert(item_views(items@) =~= before.remove(index as int));
                    self.tray_items = items;
                    Change::Removed { index }
                } else {
                    Change::Nothing
                }
            },
        }
    }
}

} // verus!
