//! The ordered registry of workspace entries.

use vstd::prelude::*;
use crate::event::{LayoutEvent, WindowEventData, WindowEventDataView};
use crate::ext::by_id::workspace_views;
use crate::widgets::workspace::{
    Workspace, WorkspaceId, WorkspaceMessage, WorkspaceModel, WorkspaceModelView, WorkspaceView,
};

verus! {

/// A decoded window-manager event, as the widgets receive it.
#[derive(Debug, PartialEq, Eq)]
pub enum HyprlandMessage {
    /// A workspace appeared.
    Add { workspace: Workspace },
    /// The workspace with this id is gone.
    Remove { id: WorkspaceId },
    /// The workspace with this id became the active one.
    Active { id: WorkspaceId },
    /// The listener starts.
    Start,
    /// The focused window changed; `None` where the event named none.
    ActiveWindow { window: Option<WindowEventData> },
    /// A keyboard switched its layout.
    SwitchKeyboardLayout { keyboard_name: String, layout_name: String },
    /// A monitor was plugged in.
    AddMonitor { monitor: String },
    /// A monitor went away.
    RemoveMonitor { monitor: String },
}

/// What a [`HyprlandMessage`] holds.
pub ghost enum HyprlandMessageView {
    Add { workspace: WorkspaceView },
    Remove { id: WorkspaceId },
    Active { id: WorkspaceId },
    Start,
    ActiveWindow { window: Option<WindowEventDataView> },
    SwitchKeyboardLayout { keyboard_name: Seq<char>, layout_name: Seq<char> },
    AddMonitor { monitor: Seq<char> },
    RemoveMonitor { monitor: Seq<char> },
}

impl View for HyprlandMessage {
    type V = HyprlandMessageView;

    open spec fn view(&self) -> HyprlandMessageView {
        match self {
            HyprlandMessage::Add { workspace } => HyprlandMessageView::Add {
                workspace: workspace@,
            },
            HyprlandMessage::Remove { id } => HyprlandMessageView::Remove { id: *id },
            HyprlandMessage::Active { id } => HyprlandMessageView::Active { id: *id },
            HyprlandMessage::Start => HyprlandMessageView::Start,
            HyprlandMessage::ActiveWindow { window: Some(window) } => {
                HyprlandMessageView::ActiveWindow { window: Some(window@) }
            },
            HyprlandMessage::ActiveWindow { window: None } => HyprlandMessageView::ActiveWindow {
                window: None,
            },
            HyprlandMessage::SwitchKeyboardLayout { keyboard_name, layout_name } => {
                HyprlandMessageView::SwitchKeyboardLayout {
                    keyboard_name: keyboard_name@,
                    layout_name: layout_name@,
                }
            },
            HyprlandMessage::AddMonitor { monitor } => HyprlandMessageView::AddMonitor {
                monitor: monitor@,
            },
            HyprlandMessage::RemoveMonitor { monitor } => HyprlandMessageView::RemoveMonitor {
                monitor: monitor@,
            },
        }
    }
}

impl Clone for HyprlandMessage {
    fn clone(&self) -> (copy: Self)
        ensures
            copy@ == self@,
    {
        match self {
            HyprlandMessage::Add { workspace } => HyprlandMessage::Add {
                workspace: workspace.clone(),
            },
            HyprlandMessage::Remove { id } => HyprlandMessage::Remove { id: *id },
            HyprlandMessage::Active { id } => HyprlandMessage::Active { id: *id },
            HyprlandMessage::Start => HyprlandMessage::Start,
            HyprlandMessage::ActiveWindow { window: Some(window) } => {
                HyprlandMessage::ActiveWindow { window: Some(window.clone()) }
            },
            HyprlandMessage::ActiveWindow { window: None } => HyprlandMessage::ActiveWindow {
                window: None,
            },
            HyprlandMessage::SwitchKeyboardLayout { keyboard_name, layout_name } => {
                HyprlandMessage::SwitchKeyboardLayout {
                    keyboard_name: keyboard_name.clone(),
                    layout_name: layout_name.clone(),
                }
            },
            HyprlandMessage::AddMonitor { monitor } => HyprlandMessage::AddMonitor {
                monitor: monitor.clone(),
            },
            HyprlandMessage::RemoveMonitor { monitor } => HyprlandMessage::RemoveMonitor {
                monitor: monitor.clone(),
            },
        }
    }
}

impl From<LayoutEvent> for HyprlandMessage {
    fn from(value: LayoutEvent) -> (message: Self) {
        HyprlandMessage::SwitchKeyboardLayout {
            keyboard_name: value.keyboard_name,
            layout_name: value.layout_name,
        }
    }
}

impl vstd::std_specs::convert::FromSpecImpl<LayoutEvent> for HyprlandMessage {
    open spec fn obeys_from_spec() -> bool {
        true
    }

    open spec fn from_spec(value: LayoutEvent) -> HyprlandMessage {
        HyprlandMessage::SwitchKeyboardLayout {
            keyboard_name: value.keyboard_name,
            layout_name: value.layout_name,
        }
    }
}

/// The entries of a registry, first to last.
pub type Entries = Seq<WorkspaceModelView>;

/// The ids never go down from one entry to the next.
pub open spec fn sorted_by_id(entries: Entries) -> bool {
    forall|i: int, j: int| 0 <= i <= j < entries.len() ==> entries[i].id() <= entries[j].id()
}

/// The ids go up from each entry to the next, so no id occurs twice.
pub open spec fn strictly_ascending(entries: Entries) -> bool {
    forall|i: int, j: int| 0 <= i < j < entries.len() ==> entries[i].id() < entries[j].id()
}

/// No two entries are active.
pub open spec fn at_most_one_active(entries: Entries) -> bool {
    forall|i: int, j: int|
        0 <= i < entries.len() && 0 <= j < entries.len() && entries[i].is_active
            && entries[j].is_active ==> i == j
}

/// Some entry has this id.
pub open spec fn has_id(entries: Entries, id: WorkspaceId) -> bool {
    exists|i: int| 0 <= i < entries.len() && #[trigger] entries[i].id() == id
}

/// Where a new entry with this id goes: right behind the last entry with a
/// smaller id, or to the front if there is none.
pub open spec fn insert_position(entries: Entries, id: WorkspaceId) -> int
    decreases entries.len(),
{
    if entries.len() == 0 {
        0
    } else if entries.last().id() < id {
        entries.len() as int
    } else {
        insert_position(entries.drop_last(), id)
    }
}

/// The index of the last entry with this id, if there is one.
pub open spec fn last_position(entries: Entries, id: WorkspaceId) -> Option<int>
    decreases entries.len(),
{
    if entries.len() == 0 {
        None
    } else if entries.last().id() == id {
        Some(entries.len() - 1)
    } else {
        last_position(entries.drop_last(), id)
    }
}

/// The entries after a workspace was added.
pub open spec fn added(entries: Entries, workspace: WorkspaceView) -> Entries {
    entries.insert(insert_position(entries, workspace.id), WorkspaceModelView::of(workspace))
}

/// The entries after the workspace with this id was removed.
pub open spec fn removed(entries: Entries, id: WorkspaceId) -> Entries {
    match last_position(entries, id) {
        Some(index) => entries.remove(index),
        None => entries,
    }
}

/// The entries after the workspace with this id became the active one.
pub open spec fn activated(entries: Entries, id: WorkspaceId) -> Entries {
    entries.map_values(|entry: WorkspaceModelView| entry.with_active_id(id))
}

/// The entries after one message.
pub open spec fn step(entries: Entries, message: HyprlandMessageView) -> Entries {
    match message {
        HyprlandMessageView::Add { workspace } => added(entries, workspace),
        HyprlandMessageView::Remove { id } => removed(entries, id),
        HyprlandMessageView::Active { id } => activated(entries, id),
        _ => entries,
    }
}

/// The entries after a run of messages, taken first to last.
pub open spec fn replay(entries: Entries, messages: Seq<HyprlandMessageView>) -> Entries
    decreases messages.len(),
{
    if messages.len() == 0 {
        entries
    } else {
        step(replay(entries, messages.drop_last()), messages.last())
    }
}

/// The insert position lies within the entries; the entry before it has a
/// smaller id, and no entry from it on has.
pub proof fn lemma_insert_position(entries: Entries, id: WorkspaceId)
    ensures
        0 <= insert_position(entries, id) <= entries.len(),
        insert_position(entries, id) > 0 ==> entries[insert_position(entries, id) - 1].id() < id,
        forall|k: int|
            insert_position(entries, id) <= k < entries.len() ==> #[trigger] entries[k].id() >= id,
    decreases entries.len(),
{
    if entries.len() > 0 && !(entries.last().id() < id) {
        let front = entries.drop_last();
        lemma_insert_position(front, id);
        assert forall|k: int| insert_position(entries, id) <= k < entries.len() implies
            #[trigger] entries[k].id() >= id by {
            if k < front.len() {
                assert(front[k].id() >= id);
            }
        }
    }
}

/// The last position of an id is that of an entry with the id, and no later
/// entry has it; there is none exactly if no entry has the id.
pub proof fn lemma_last_position(entries: Entries, id: WorkspaceId)
    ensures
        last_position(entries, id) matches Some(index) ==> 0 <= index < entries.len()
            && entries[index].id() == id && forall|k: int|
            index < k < entries.len() ==> #[trigger] entries[k].id() != id,
        last_position(entries, id) is None <==> !has_id(entries, id),
    decreases entries.len(),
{
    if entries.len() > 0 {
        if entries.last().id() != id {
            let front = entries.drop_last();
            lemma_last_position(front, id);
            match last_position(front, id) {
                Some(index) => {
                    assert(entries[index].id() == front[index].id());
                    assert forall|k: int| index < k < entries.len() implies
                        #[trigger] entries[k].id() != id by {
                        if k < front.len() {
                            assert(front[k].id() != id);
                        }
                    }
                },
                None => {
                    assert forall|k: int| 0 <= k < entries.len() implies #[trigger] entries[k].id()
                        != id by {
                        if k < front.len() {
                            assert(front[k].id() == entries[k].id());
                        }
                    }
                },
            }
        } else {
            assert(entries[entries.len() - 1].id() == id);
        }
    }
}

/// Adding a workspace keeps the entries sorted.
pub proof fn lemma_added_sorted(entries: Entries, workspace: WorkspaceView)
    requires
        sorted_by_id(entries),
    ensures
        sorted_by_id(added(entries, workspace)),
{
    lemma_insert_position(entries, workspace.id);
    let at = insert_position(entries, workspace.id);
    let after = added(entries, workspace);
    assert forall|i: int, j: int| 0 <= i <= j < after.len() implies after[i].id() <= after[j].id() by {
        if i < at && j == at {
            assert(entries[i].id() <= entries[at - 1].id());
        } else if i == at && j > at {
            assert(entries[j - 1].id() >= workspace.id);
        } else if i < at && j > at {
            assert(entries[i].id() <= entries[j - 1].id());
        } else if i > at {
            assert(entries[i - 1].id() <= entries[j - 1].id());
        } else if j < at {
            assert(entries[i].id() <= entries[j].id());
        }
    }
}

/// Adding a workspace whose id no entry has keeps the ids strictly
/// ascending.
pub proof fn lemma_added_strictly_ascending(entries: Entries, workspace: WorkspaceView)
    requires
        strictly_ascending(entries),
        !has_id(entries, workspace.id),
    ensures
        strictly_ascending(added(entries, workspace)),
{
    lemma_insert_position(entries, workspace.id);
    let at = insert_position(entries, workspace.id);
    let after = added(entries, workspace);
    assert forall|i: int, j: int| 0 <= i < j < after.len() implies after[i].id() < after[j].id() by {
        if i < at && j == at {
            assert(i == at - 1 || entries[i].id() < entries[at - 1].id());
        } else if i == at && j > at {
            assert(entries[j - 1].id() >= workspace.id);
            assert(entries[j - 1].id() != workspace.id);
        } else if i < at && j > at {
            assert(entries[i].id() < entries[j - 1].id());
        } else if i > at {
            assert(entries[i - 1].id() < entries[j - 1].id());
        } else if j < at {
            assert(entries[i].id() < entries[j].id());
        }
    }
}

/// Removing a workspace keeps the order of the entries that stay.
pub proof fn lemma_removed_sorted(entries: Entries, id: WorkspaceId)
    ensures
        sorted_by_id(entries) ==> sorted_by_id(removed(entries, id)),
        strictly_ascending(entries) ==> strictly_ascending(removed(entries, id)),
        at_most_one_active(entries) ==> at_most_one_active(removed(entries, id)),
{
    lemma_last_position(entries, id);
    if let Some(at) = last_position(entries, id) {
        let after = entries.remove(at);
        assert forall|i: int| 0 <= i < after.len() implies after[i] == entries[if i < at {
            i
        } else {
            i + 1
        }] by {}
        if sorted_by_id(entries) {
            assert forall|i: int, j: int| 0 <= i <= j < after.len() implies after[i].id()
                <= after[j].id() by {
                let a = if i < at { i } else { i + 1 };
                let b = if j < at { j } else { j + 1 };
                assert(entries[a].id() <= entries[b].id());
            }
        }
        if strictly_ascending(entries) {
            assert forall|i: int, j: int| 0 <= i < j < after.len() implies after[i].id()
                < after[j].id() by {
                let a = if i < at { i } else { i + 1 };
                let b = if j < at { j } else { j + 1 };
                assert(entries[a].id() < entries[b].id());
            }
        }
        if at_most_one_active(entries) {
            assert forall|i: int, j: int|
                0 <= i < after.len() && 0 <= j < after.len() && after[i].is_active
                    && after[j].is_active implies i == j by {
                let a = if i < at { i } else { i + 1 };
                let b = if j < at { j } else { j + 1 };
                assert(entries[a].is_active && entries[b].is_active);
            }
        }
    }
}

/// Law: where ids are strictly ascending, removing a workspace leaves no
/// entry with its id.
pub proof fn lemma_removed_is_gone(entries: Entries, id: WorkspaceId)
    requires
        strictly_ascending(entries),
    ensures
        !has_id(removed(entries, id), id),
{
    lemma_last_position(entries, id);
    if let Some(at) = last_position(entries, id) {
        let after = entries.remove(at);
        assert forall|i: int| 0 <= i < after.len() implies #[trigger] after[i].id() != id by {
            if i < at {
                assert(entries[i].id() < entries[at].id());
            } else {
                assert(entries[at].id() < entries[i + 1].id());
            }
        }
    } else {
        assert(removed(entries, id) == entries);
    }
}

/// Law: after the active id changed, an entry is active exactly if it has
/// that id, and nothing else about the entries changes. Where no id occurs
/// twice, at most one entry is active; where no entry has the id, none is.
pub proof fn lemma_activated(entries: Entries, id: WorkspaceId)
    ensures
        activated(entries, id).len() == entries.len(),
        forall|i: int|
            0 <= i < entries.len() ==> (#[trigger] activated(entries, id)[i]).workspace
                == entries[i].workspace && (activated(entries, id)[i].is_active <==> entries[i].id()
                == id),
        sorted_by_id(entries) ==> sorted_by_id(activated(entries, id)),
        strictly_ascending(entries) ==> strictly_ascending(activated(entries, id)),
        strictly_ascending(entries) ==> at_most_one_active(activated(entries, id)),
        !has_id(entries, id) ==> forall|i: int|
            0 <= i < entries.len() ==> !(#[trigger] activated(entries, id)[i]).is_active,
{
    let after = activated(entries, id);
    if sorted_by_id(entries) {
        assert forall|i: int, j: int| 0 <= i <= j < after.len() implies after[i].id()
            <= after[j].id() by {
            assert(entries[i].id() <= entries[j].id());
        }
    }
    if strictly_ascending(entries) {
        assert forall|i: int, j: int| 0 <= i < j < after.len() implies after[i].id()
            < after[j].id() by {
            assert(entries[i].id() < entries[j].id());
        }
        assert forall|i: int, j: int|
            0 <= i < after.len() && 0 <= j < after.len() && after[i].is_active
                && after[j].is_active implies i == j by {
            if i < j {
                assert(entries[i].id() < entries[j].id());
            } else if j < i {
                assert(entries[j].id() < entries[i].id());
            }
        }
    }
    if !has_id(entries, id) {
        assert forall|i: int| 0 <= i < entries.len() implies !(#[trigger] after[i]).is_active by {
            assert(entries[i].id() != id);
        }
    }
}

/// Adding a workspace activates nothing.
pub proof fn lemma_added_at_most_one_active(entries: Entries, workspace: WorkspaceView)
    requires
        at_most_one_active(entries),
    ensures
        at_most_one_active(added(entries, workspace)),
{
    lemma_insert_position(entries, workspace.id);
    let at = insert_position(entries, workspace.id);
    let after = added(entries, workspace);
    assert forall|i: int, j: int|
        0 <= i < after.len() && 0 <= j < after.len() && after[i].is_active
            && after[j].is_active implies i == j by {
        let a = if i < at { i } else { i - 1 };
        let b = if j < at { j } else { j - 1 };
        assert(i != at && j != at);
        assert(entries[a].is_active && entries[b].is_active);
    }
}

/// Law: whatever message arrives, sorted entries stay sorted.
pub proof fn lemma_step_sorted(entries: Entries, message: HyprlandMessageView)
    requires
        sorted_by_id(entries),
    ensures
        sorted_by_id(step(entries, message)),
{
    match message {
        HyprlandMessageView::Add { workspace } => lemma_added_sorted(entries, workspace),
        HyprlandMessageView::Remove { id } => lemma_removed_sorted(entries, id),
        HyprlandMessageView::Active { id } => lemma_activated(entries, id),
        _ => {},
    }
}

/// Law: after any run of messages on an empty registry the entries are
/// sorted ascending by id.
pub proof fn lemma_replay_sorted(messages: Seq<HyprlandMessageView>)
    ensures
        sorted_by_id(replay(Seq::empty(), messages)),
    decreases messages.len(),
{
    if messages.len() > 0 {
        lemma_replay_sorted(messages.drop_last());
        lemma_step_sorted(replay(Seq::empty(), messages.drop_last()), messages.last());
    }
}

/// A message that keeps the ids distinct: anything but the addition of a
/// workspace whose id an entry already has.
pub open spec fn keeps_ids_distinct(entries: Entries, message: HyprlandMessageView) -> bool {
    message matches HyprlandMessageView::Add { workspace } ==> !has_id(entries, workspace.id)
}

/// Law: as long as no id is added twice, ids stay strictly ascending and at
/// most one entry is active.
pub proof fn lemma_step_consistent(entries: Entries, message: HyprlandMessageView)
    requires
        strictly_ascending(entries),
        at_most_one_active(entries),
        keeps_ids_distinct(entries, message),
    ensures
        strictly_ascending(step(entries, message)),
        at_most_one_active(step(entries, message)),
{
    match message {
        HyprlandMessageView::Add { workspace } => {
            lemma_added_strictly_ascending(entries, workspace);
            lemma_added_at_most_one_active(entries, workspace);
        },
        HyprlandMessageView::Remove { id } => lemma_removed_sorted(entries, id),
        HyprlandMessageView::Active { id } => lemma_activated(entries, id),
        _ => {},
    }
}

/// Where a workspace goes in an ordered list so that it comes behind all
/// workspaces whose id is not greater.
pub open spec fn ordered_position(ordered: Seq<WorkspaceView>, id: WorkspaceId) -> int
    decreases ordered.len(),
{
    if ordered.len() == 0 {
        0
    } else if ordered.last().id <= id {
        ordered.len() as int
    } else {
        ordered_position(ordered.drop_last(), id)
    }
}

/// The workspaces ordered ascending by id; workspaces with the same id keep
/// the order in which they were reported.
pub open spec fn ordered_by_id(workspaces: Seq<WorkspaceView>) -> Seq<WorkspaceView>
    decreases workspaces.len(),
{
    if workspaces.len() == 0 {
        Seq::empty()
    } else {
        let front = ordered_by_id(workspaces.drop_last());
        front.insert(ordered_position(front, workspaces.last().id), workspaces.last())
    }
}

/// The messages that fill a registry at start-up: one addition for each
/// reported workspace, ascending by id, and then, where the window manager
/// named an active workspace, the change to it.
pub open spec fn init_messages(
    workspaces: Seq<WorkspaceView>,
    active: Option<WorkspaceId>,
) -> Seq<HyprlandMessageView> {
    let additions = ordered_by_id(workspaces).map_values(
        |workspace: WorkspaceView| HyprlandMessageView::Add { workspace },
    );
    match active {
        Some(id) => additions.push(HyprlandMessageView::Active { id }),
        None => additions,
    }
}

/// The entries of a registry that was filled at start-up.
pub open spec fn populated(workspaces: Seq<WorkspaceView>, active: Option<WorkspaceId>) -> Entries {
    replay(Seq::empty(), init_messages(workspaces, active))
}

/// The ordered position lies within the list; up to it no id is greater
/// than the given one, from it on every id is.
pub proof fn lemma_ordered_position(ordered: Seq<WorkspaceView>, id: WorkspaceId)
    ensures
        0 <= ordered_position(ordered, id) <= ordered.len(),
        ordered_position(ordered, id) > 0 ==> ordered[ordered_position(ordered, id) - 1].id <= id,
        forall|k: int|
            ordered_position(ordered, id) <= k < ordered.len() ==> (#[trigger] ordered[k]).id > id,
    decreases ordered.len(),
{
    if ordered.len() > 0 && !(ordered.last().id <= id) {
        let front = ordered.drop_last();
        lemma_ordered_position(front, id);
        assert forall|k: int| ordered_position(ordered, id) <= k < ordered.len() implies (
        #[trigger] ordered[k]).id > id by {
            if k < front.len() {
                assert(front[k].id > id);
            }
        }
    }
}

/// The ordered list keeps every workspace, as often as it was reported, and
/// the ids of the result never go down.
pub proof fn lemma_ordered_by_id(workspaces: Seq<WorkspaceView>)
    ensures
        ordered_by_id(workspaces).len() == workspaces.len(),
        ordered_by_id(workspaces).to_multiset() == workspaces.to_multiset(),
        forall|i: int, j: int|
            0 <= i <= j < workspaces.len() ==> (#[trigger] ordered_by_id(workspaces)[i]).id <= (
            #[trigger] ordered_by_id(workspaces)[j]).id,
    decreases workspaces.len(),
{
    broadcast use vstd::seq_lib::group_to_multiset_ensures;

    if workspaces.len() > 0 {
        let front = ordered_by_id(workspaces.drop_last());
        let last = workspaces.last();
        let at = ordered_position(front, last.id);
        let all = ordered_by_id(workspaces);
        lemma_ordered_by_id(workspaces.drop_last());
        lemma_ordered_position(front, last.id);
        assert(all.remove(at) =~= front);
        assert(all[at] == last);
        assert(all.to_multiset() =~= front.to_multiset().insert(last)) by {
            assert(all.to_multiset().count(last) > 0) by {
                assert(all.contains(last));
            }
        }
        assert(workspaces =~= workspaces.drop_last().push(last));
        assert forall|i: int, j: int| 0 <= i <= j < workspaces.len() implies (#[trigger] all[i]).id
            <= (#[trigger] all[j]).id by {
            if i < at && j == at {
                assert(front[i].id <= front[at - 1].id);
            } else if i == at && j > at {
                assert(front[j - 1].id > last.id);
            } else if i < at && j > at {
                assert(front[i].id <= front[j - 1].id);
            } else if i > at {
                assert(front[i - 1].id <= front[j - 1].id);
            } else if j < at {
                assert(front[i].id <= front[j].id);
            }
        }
    } else {
        assert(workspaces =~= Seq::empty());
    }
}

/// Replaying additions alone yields inactive entries that hold exactly the
/// added workspaces.
pub proof fn lemma_replay_additions(workspaces: Seq<WorkspaceView>)
    ensures
        ({
            let entries = replay(
                Seq::empty(),
                workspaces.map_values(
                    |workspace: WorkspaceView| HyprlandMessageView::Add { workspace },
                ),
            );
            &&& entries.len() == workspaces.len()
            &&& entries.map_values(|entry: WorkspaceModelView| entry.workspace).to_multiset()
                == workspaces.to_multiset()
            &&& forall|i: int| 0 <= i < entries.len() ==> !(#[trigger] entries[i]).is_active
        }),
    decreases workspaces.len(),
{
    broadcast use vstd::seq_lib::group_to_multiset_ensures;

    let additions = workspaces.map_values(
        |workspace: WorkspaceView| HyprlandMessageView::Add { workspace },
    );
    let entries = replay(Seq::empty(), additions);
    let held = entries.map_values(|entry: WorkspaceModelView| entry.workspace);
    if workspaces.len() > 0 {
        let front = workspaces.drop_last();
        let last = workspaces.last();
        let before = replay(
            Seq::empty(),
            front.map_values(|workspace: WorkspaceView| HyprlandMessageView::Add { workspace }),
        );
        lemma_replay_additions(front);
        assert(additions.drop_last() =~= front.map_values(
            |workspace: WorkspaceView| HyprlandMessageView::Add { workspace },
        ));
        assert(entries == added(before, last));
        lemma_insert_position(before, last.id);
        let at = insert_position(before, last.id);
        let held_before = before.map_values(|entry: WorkspaceModelView| entry.workspace);
        assert(held.remove(at) =~= held_before);
        assert(held[at] == last);
        assert(held.to_multiset() =~= held_before.to_multiset().insert(last)) by {
            assert(held.to_multiset().count(last) > 0) by {
                assert(held.contains(last));
            }
        }
        assert(workspaces =~= front.push(last));
        assert forall|i: int| 0 <= i < entries.len() implies !(#[trigger] entries[i]).is_active by {
            if i < at {
                assert(!before[i].is_active);
            } else if i > at {
                assert(!before[i - 1].is_active);
            }
        }
    } else {
        assert(held =~= Seq::empty());
        assert(workspaces =~= Seq::empty());
    }
}

/// Law: a registry filled at start-up is sorted ascending by id, holds
/// exactly the reported workspaces, and has active exactly the entries with
/// the id that the window manager named, if it named one.
pub proof fn lemma_populated(workspaces: Seq<WorkspaceView>, active: Option<WorkspaceId>)
    ensures
        sorted_by_id(populated(workspaces, active)),
        populated(workspaces, active).len() == workspaces.len(),
        populated(workspaces, active).map_values(
            |entry: WorkspaceModelView| entry.workspace,
        ).to_multiset() == workspaces.to_multiset(),
        forall|i: int|
            0 <= i < workspaces.len() ==> ((#[trigger] populated(workspaces, active)[i]).is_active
                <==> active == Some(populated(workspaces, active)[i].id())),
{
    let ordered = ordered_by_id(workspaces);
    let additions = ordered.map_values(
        |workspace: WorkspaceView| HyprlandMessageView::Add { workspace },
    );
    let filled = replay(Seq::empty(), additions);
    lemma_replay_sorted(init_messages(workspaces, active));
    lemma_ordered_by_id(workspaces);
    lemma_replay_additions(ordered);
    match active {
        Some(id) => {
            let messages = additions.push(HyprlandMessageView::Active { id });
            assert(messages.drop_last() =~= additions);
            assert(populated(workspaces, active) == activated(filled, id));
            lemma_activated(filled, id);
            assert(activated(filled, id).map_values(|entry: WorkspaceModelView| entry.workspace)
                =~= filled.map_values(|entry: WorkspaceModelView| entry.workspace));
        },
        None => {},
    }
}

/// Law: filling a registry at start-up is a function of what the window
/// manager reported. Two registries that were both empty and replayed the
/// start-up messages for the same report end in the same state.
pub proof fn lemma_resync_identical(
    first: Entries,
    second: Entries,
    workspaces: Seq<WorkspaceView>,
    active: Option<WorkspaceId>,
)
    requires
        first == replay(Seq::empty(), init_messages(workspaces, active)),
        second == replay(Seq::empty(), init_messages(workspaces, active)),
    ensures
        first == second,
        first == populated(workspaces, active),
{
}

/// No two of the workspaces have the same id.
pub open spec fn distinct_ids(workspaces: Seq<WorkspaceView>) -> bool {
    forall|i: int, j: int|
        0 <= i < j < workspaces.len() ==> (#[trigger] workspaces[i]).id != (
        #[trigger] workspaces[j]).id
}

/// The ids of the workspaces go up from each to the next.
pub open spec fn ascending_ids(workspaces: Seq<WorkspaceView>) -> bool {
    forall|i: int, j: int|
        0 <= i < j < workspaces.len() ==> (#[trigger] workspaces[i]).id < (
        #[trigger] workspaces[j]).id
}

/// The workspaces that entries hold.
pub open spec fn held(entries: Entries) -> Seq<WorkspaceView> {
    entries.map_values(|entry: WorkspaceModelView| entry.workspace)
}

/// Workspaces with distinct ids, reported in another order or not, still
/// have distinct ids.
pub proof fn lemma_distinct_ids_of_same_workspaces(
    first: Seq<WorkspaceView>,
    second: Seq<WorkspaceView>,
)
    requires
        distinct_ids(first),
        first.to_multiset() == second.to_multiset(),
    ensures
        distinct_ids(second),
{
    broadcast use vstd::seq_lib::group_to_multiset_ensures;

    assert(first.no_duplicates()) by {
        assert forall|i: int, j: int|
            0 <= i < first.len() && 0 <= j < first.len() && i != j implies first[i]
            != first[j] by {
            if i < j {
                assert(first[i].id != first[j].id);
            } else {
                assert(first[j].id != first[i].id);
            }
        }
    }
    first.lemma_multiset_has_no_duplicates();
    second.lemma_multiset_has_no_duplicates_conv();
    first.to_multiset_ensures();
    second.to_multiset_ensures();
    assert forall|i: int, j: int| 0 <= i < j < second.len() implies (#[trigger] second[i]).id != (
    #[trigger] second[j]).id by {
        let x = second[i];
        let y = second[j];
        assert(second.contains(x) && second.contains(y));
        assert(second.to_multiset().count(x) > 0 && second.to_multiset().count(y) > 0);
        assert(first.contains(x) && first.contains(y));
        let a = choose|a: int| 0 <= a < first.len() && first[a] == x;
        let b = choose|b: int| 0 <= b < first.len() && first[b] == y;
        if x.id == y.id {
            if a < b {
                assert(first[a].id != first[b].id);
            } else if b < a {
                assert(first[b].id != first[a].id);
            }
            assert(x == y);
            assert(second[i] != second[j]);
        }
    }
}

/// Two lists of workspaces with ascending ids that hold the same workspaces
/// are the same list.
pub proof fn lemma_ascending_ids_unique(first: Seq<WorkspaceView>, second: Seq<WorkspaceView>)
    requires
        ascending_ids(first),
        ascending_ids(second),
        first.to_multiset() == second.to_multiset(),
    ensures
        first == second,
    decreases first.len(),
{
    broadcast use vstd::seq_lib::group_to_multiset_ensures;

    first.to_multiset_ensures();
    second.to_multiset_ensures();
    assert(first.len() == second.len());
    if first.len() == 0 {
        assert(first =~= second);
    } else {
        let last = first.last();
        assert(first.contains(last));
        assert(first.to_multiset().count(last) > 0);
        assert(second.contains(last));
        let k = choose|k: int| 0 <= k < second.len() && second[k] == last;
        if k < second.len() - 1 {
            let top = second.last();
            assert(second[k].id < second[second.len() - 1].id);
            assert(second.contains(top));
            assert(second.to_multiset().count(top) > 0);
            assert(first.contains(top));
            let m = choose|m: int| 0 <= m < first.len() && first[m] == top;
            if m < first.len() - 1 {
                assert(first[m].id < first[first.len() - 1].id);
            }
            assert(false);
        }
        assert(second.last() == last);
        let a = first.drop_last();
        let b = second.drop_last();
        assert(a =~= first.remove(first.len() - 1));
        assert(b =~= second.remove(second.len() - 1));
        assert(a.to_multiset() =~= b.to_multiset());
        assert forall|i: int, j: int| 0 <= i < j < a.len() implies (#[trigger] a[i]).id < (
        #[trigger] a[j]).id by {
            assert(first[i].id < first[j].id);
        }
        assert forall|i: int, j: int| 0 <= i < j < b.len() implies (#[trigger] b[i]).id < (
        #[trigger] b[j]).id by {
            assert(second[i].id < second[j].id);
        }
        lemma_ascending_ids_unique(a, b);
        assert(first =~= a.push(last));
        assert(second =~= b.push(last));
    }
}

/// Where the window manager reports no id twice, the ids of a registry
/// filled at start-up go strictly up.
pub proof fn lemma_populated_strictly_ascending(
    workspaces: Seq<WorkspaceView>,
    active: Option<WorkspaceId>,
)
    requires
        distinct_ids(workspaces),
    ensures
        strictly_ascending(populated(workspaces, active)),
        ascending_ids(held(populated(workspaces, active))),
        at_most_one_active(populated(workspaces, active)),
{
    let entries = populated(workspaces, active);
    let inside = held(entries);
    lemma_populated(workspaces, active);
    lemma_distinct_ids_of_same_workspaces(workspaces, inside);
    assert forall|i: int, j: int| 0 <= i < j < entries.len() implies entries[i].id()
        < entries[j].id() by {
        assert(entries[i].id() <= entries[j].id());
        assert(inside[i].id != inside[j].id);
    }
    assert forall|i: int, j: int| 0 <= i < j < inside.len() implies (#[trigger] inside[i]).id < (
    #[trigger] inside[j]).id by {
        assert(entries[i].id() < entries[j].id());
    }
    assert forall|i: int, j: int|
        0 <= i < entries.len() && 0 <= j < entries.len() && entries[i].is_active
            && entries[j].is_active implies i == j by {
        if i < j {
            assert(entries[i].id() < entries[j].id());
        } else if j < i {
            assert(entries[j].id() < entries[i].id());
        }
    }
}

/// Law: filling a registry at start-up gives the same state whenever the
/// window manager reports the same workspaces, in whatever order, as long
/// as it reports no id twice.
pub proof fn lemma_resync_ignores_report_order(
    first: Seq<WorkspaceView>,
    second: Seq<WorkspaceView>,
    active: Option<WorkspaceId>,
)
    requires
        distinct_ids(first),
        first.to_multiset() == second.to_multiset(),
    ensures
        populated(first, active) == populated(second, active),
{
    let one = populated(first, active);
    let other = populated(second, active);
    lemma_distinct_ids_of_same_workspaces(first, second);
    lemma_populated(first, active);
    lemma_populated(second, active);
    lemma_populated_strictly_ascending(first, active);
    lemma_populated_strictly_ascending(second, active);
    lemma_ascending_ids_unique(held(one), held(other));
    assert(one.len() == other.len());
    assert forall|i: int| 0 <= i < one.len() implies one[i] == other[i] by {
        assert(held(one)[i] == held(other)[i]);
        assert(one[i].workspace == other[i].workspace);
        assert(one[i].is_active <==> active == Some(one[i].id()));
        assert(other[i].is_active <==> active == Some(other[i].id()));
    }
    assert(one =~= other);
}

/// The registry: the workspace entries of the bar, kept sorted ascending by
/// id.
pub struct WorkspacesModel {
    workspaces: Vec<WorkspaceModel>,
}

impl View for WorkspacesModel {
    type V = Entries;

    closed spec fn view(&self) -> Entries {
        self.workspaces@.map_values(|entry: WorkspaceModel| entry@)
    }
}

impl WorkspacesModel {
    #[verifier::type_invariant]
    spec fn sorted(&self) -> bool {
        sorted_by_id(self@)
    }

    /// A registry without entries.
    pub fn new() -> (registry: Self)
        ensures
            registry@ == Seq::<WorkspaceModelView>::empty(),
    {
        let registry = WorkspacesModel { workspaces: Vec::new() };
        assert(registry@ =~= Seq::<WorkspaceModelView>::empty());
        registry
    }

    /// The number of entries.
    pub fn len(&self) -> (count: usize)
        ensures
            count == self@.len(),
    {
        self.workspaces.len()
    }

    /// A copy of the entry at `index`, if there is one.
    pub fn get(&self, index: usize) -> (entry: Option<WorkspaceModel>)
        ensures
            index < self@.len() ==> entry is Some && entry->0@ == self@[index as int],
            index >= self@.len() ==> entry is None,
    {
        if index < self.workspaces.len() {
            Some(self.workspaces[index].clone())
        } else {
            None
        }
    }

    /// A copy of all entries, first to last: what the bar shows.
    pub fn snapshot(&self) -> (entries: Vec<WorkspaceModel>)
        ensures
            entries@.map_values(|entry: WorkspaceModel| entry@) == self@,
            sorted_by_id(self@),
    {
        proof {
            use_type_invariant(self);
        }
        let mut entries: Vec<WorkspaceModel> = Vec::new();
        let mut index: usize = 0;
        while index < self.workspaces.len()
            invariant
                index <= self.workspaces.len(),
                entries@.map_values(|entry: WorkspaceModel| entry@) == self@.take(index as int),
            decreases self.workspaces.len() - index,
        {
            let ghost copied = entries@.map_values(|entry: WorkspaceModel| entry@);
            entries.push(self.workspaces[index].clone());
            assert(entries@.map_values(|entry: WorkspaceModel| entry@) =~= copied.push(
                self@[index as int],
            ));
            index = index + 1;
            assert(self@.take(index as int) =~= copied.push(self@[index as int - 1]));
        }
        assert(self@.take(index as int) =~= self@);
        entries
    }

    /// Adds a workspace as an inactive entry, right behind the last entry
    /// with a smaller id, or at the front if there is none.
    pub fn add(&mut self, workspace: Workspace)
        ensures
            final(self)@ == added(old(self)@, workspace@),
            sorted_by_id(final(self)@),
    {
        proof {
            use_type_invariant(&*self);
            lemma_added_sorted(self@, workspace@);
        }
        let mut index: usize = self.workspaces.len();
        assert(self@.take(index as int) =~= self@);
        while index > 0 && !(self.workspaces[index - 1].id < workspace.id)
            invariant
                index <= self.workspaces.len(),
                *self == *old(self),
                insert_position(self@, workspace.id) == insert_position(
                    self@.take(index as int),
                    workspace.id,
                ),
            decreases index,
        {
            assert(self@.take(index as int).drop_last() =~= self@.take(index as int - 1));
            index = index - 1;
        }
        proof {
            assert(self@.take(self@.len() as int) =~= self@);
            assert(index == insert_position(self@, workspace.id));
        }
        let ghost before = self@;
        let ghost entry = WorkspaceModelView::of(workspace@);
        let mut entries: Vec<WorkspaceModel> = Vec::new();
        core::mem::swap(&mut self.workspaces, &mut entries);
        entries.insert(index, WorkspaceModel::from(workspace));
        assert(entries@.map_values(|entry: WorkspaceModel| entry@) =~= before.insert(
            index as int,
            entry,
        ));
        self.workspaces = entries;
    }

    /// Removes the last entry with this id; without such an entry nothing
    /// changes.
    pub fn remove(&mut self, id: WorkspaceId)
        ensures
            final(self)@ == removed(old(self)@, id),
            sorted_by_id(final(self)@),
    {
        proof {
            use_type_invariant(&*self);
            lemma_removed_sorted(self@, id);
        }
        let mut index: usize = self.workspaces.len();
        assert(self@.take(index as int) =~= self@);
        while index > 0 && self.workspaces[index - 1].id != id
            invariant
                index <= self.workspaces.len(),
                *self == *old(self),
                last_position(self@, id) == last_position(self@.take(index as int), id),
            decreases index,
        {
            assert(self@.take(index as int).drop_last() =~= self@.take(index as int - 1));
            index = index - 1;
        }
        proof {
            assert(self@.take(self@.len() as int) =~= self@);
        }
        if index > 0 {
            let ghost before = self@;
            assert(last_position(before, id) == Some(index as int - 1));
            let mut entries: Vec<WorkspaceModel> = Vec::new();
            core::mem::swap(&mut self.workspaces, &mut entries);
            let _ = entries.remove(index - 1);
            assert(entries@.map_values(|entry: WorkspaceModel| entry@) =~= before.remove(
                index as int - 1,
            ));
            self.workspaces = entries;
        } else {
            assert(last_position(self@, id) is None);
        }
    }

    /// Tells every entry the new active id: an entry is active afterwards
    /// exactly if it has that id.
    pub fn active(&mut self, id: WorkspaceId)
        ensures
            final(self)@ == activated(old(self)@, id),
            sorted_by_id(final(self)@),
    {
        proof {
            use_type_invariant(&*self);
            lemma_activated(self@, id);
        }
        let ghost before = self@;
        let mut entries: Vec<WorkspaceModel> = Vec::new();
        core::mem::swap(&mut self.workspaces, &mut entries);
        let mut index: usize = 0;
        while index < entries.len()
            invariant
                index <= entries.len(),
                entries.len() == before.len(),
                forall|k: int| 0 <= k < index ==> entries[k]@ == before[k].with_active_id(id),
                forall|k: int| index <= k < before.len() ==> entries[k]@ == before[k],
            decreases entries.len() - index,
        {
            let _ = entries[index].update(WorkspaceMessage::ActiveIdChanged { id });
            index = index + 1;
        }
        assert(entries@.map_values(|entry: WorkspaceModel| entry@) =~= activated(before, id));
        self.workspaces = entries;
    }

    /// Applies one message: additions, removals and changes of the active
    /// workspace change the registry, every other message leaves it as it
    /// is.
    pub fn update(&mut self, message: HyprlandMessage)
        ensures
            final(self)@ == step(old(self)@, message@),
            sorted_by_id(final(self)@),
    {
        proof {
            use_type_invariant(&*self);
        }
        match message {
            HyprlandMessage::Add { workspace } => self.add(workspace),
            HyprlandMessage::Remove { id } => self.remove(id),
            HyprlandMessage::Active { id } => self.active(id),
            _ => {},
        }
    }
}

/// The reported workspaces ordered ascending by id; workspaces with the
/// same id keep their order.
fn sort_by_id(workspaces: Vec<Workspace>) -> (ordered: Vec<Workspace>)
    ensures
        workspace_views(ordered@) == ordered_by_id(workspace_views(workspaces@)),
{
    let ghost reported = workspaces@.map_values(|workspace: Workspace| workspace@);
    let mut ordered: Vec<Workspace> = Vec::new();
    assert(reported.take(0) =~= Seq::empty());
    assert(ordered@.map_values(|workspace: Workspace| workspace@) =~= Seq::empty());
    for workspace in iter: workspaces
        invariant
            iter.seq() == workspaces@,
            reported == workspaces@.map_values(|workspace: Workspace| workspace@),
            ordered@.map_values(|workspace: Workspace| workspace@) == ordered_by_id(
                reported.take(iter.index() as int),
            ),
    {
        let ghost front = ordered@.map_values(|workspace: Workspace| workspace@);
        let ghost count = iter.index() as int;
        assert(reported.take(count + 1).drop_last() =~= reported.take(count));
        assert(reported.take(count + 1).last() == workspace@);
        let mut index: usize = ordered.len();
        assert(front.take(index as int) =~= front);
        while index > 0 && !(ordered[index - 1].id <= workspace.id)
            invariant
                index <= ordered.len(),
                front == ordered@.map_values(|workspace: Workspace| workspace@),
                ordered_position(front, workspace.id) == ordered_position(
                    front.take(index as int),
                    workspace.id,
                ),
            decreases index,
        {
            assert(front.take(index as int).drop_last() =~= front.take(index as int - 1));
            index = index - 1;
        }
        let ghost placed = workspace@;
        ordered.insert(index, workspace);
        assert(ordered@.map_values(|workspace: Workspace| workspace@) =~= front.insert(
            index as int,
            placed,
        ));
    }
    assert(reported.take(workspaces@.len() as int) =~= reported);
    ordered
}

/// The views of messages.
pub open spec fn message_views(messages: Seq<HyprlandMessage>) -> Seq<HyprlandMessageView> {
    messages.map_values(|message: HyprlandMessage| message@)
}

impl WorkspacesModel {
    /// Applies a run of messages, first to last.
    pub fn replay(&mut self, messages: Vec<HyprlandMessage>)
        ensures
            final(self)@ == replay(old(self)@, message_views(messages@)),
            sorted_by_id(final(self)@),
    {
        proof {
            use_type_invariant(&*self);
        }
        let ghost all = message_views(messages@);
        let ghost before = self@;
        assert(all.take(0) =~= Seq::empty());
        for message in iter: messages
            invariant
                iter.seq() == messages@,
                all == message_views(messages@),
                self@ == replay(before, all.take(iter.index() as int)),
                sorted_by_id(self@),
        {
            let ghost count = iter.index() as int;
            assert(all.take(count + 1).drop_last() =~= all.take(count));
            assert(all.take(count + 1).last() == message@);
            self.update(message);
        }
        assert(all.take(messages@.len() as int) =~= all);
    }

    /// A registry filled at start-up from what the window manager reported:
    /// all its workspaces and, if it named one, the id of the active workspace.
    pub fn populate(workspaces: Vec<Workspace>, active: Option<WorkspaceId>) -> (registry: Self)
        ensures
            registry@ == populated(workspace_views(workspaces@), active),
            sorted_by_id(registry@),
    {
        let mut registry = WorkspacesModel::new();
        registry.replay(Self::init_workspaces(workspaces, active));
        registry
    }

    /// The messages that fill a registry at start-up, from what the window
    /// manager reported: all its workspaces and, if it named one, the id of the
    /// active workspace.
    pub fn init_workspaces(workspaces: Vec<Workspace>, active: Option<WorkspaceId>) -> (messages: Vec<
        HyprlandMessage,
    >)
        ensures
            message_views(messages@) == init_messages(workspace_views(workspaces@), active),
    {
        let ordered = sort_by_id(workspaces);
        let ghost reported = ordered@.map_values(|workspace: Workspace| workspace@);
        let mut messages: Vec<HyprlandMessage> = Vec::new();
        assert(messages@.map_values(|message: HyprlandMessage| message@) =~= reported.take(
            0,
        ).map_values(|workspace: WorkspaceView| HyprlandMessageView::Add { workspace }));
        for workspace in iter: ordered
            invariant
                iter.seq() == ordered@,
                reported == ordered@.map_values(|workspace: Workspace| workspace@),
                messages@.map_values(|message: HyprlandMessage| message@) == reported.take(
                    iter.index() as int,
                ).map_values(|workspace: WorkspaceView| HyprlandMessageView::Add { workspace }),
        {
            let ghost sent = messages@.map_values(|message: HyprlandMessage| message@);
            let ghost count = iter.index() as int;
            let ghost addition = HyprlandMessageView::Add { workspace: workspace@ };
            messages.push(HyprlandMessage::Add { workspace });
            assert(messages@.map_values(|message: HyprlandMessage| message@) =~= sent.push(addition));
            assert(reported.take(count + 1).map_values(
                |workspace: WorkspaceView| HyprlandMessageView::Add { workspace },
            ) =~= sent.push(addition));
        }
        assert(reported.take(ordered@.len() as int) =~= reported);
        if let Some(id) = active {
            let ghost sent = messages@.map_values(|message: HyprlandMessage| message@);
            messages.push(HyprlandMessage::Active { id });
            assert(messages@.map_values(|message: HyprlandMessage| message@) =~= sent.push(
                HyprlandMessageView::Active { id },
            ));
        }
        messages
    }
}

} // verus!
