//! Look-up by id.

use vstd::prelude::*;
use crate::widgets::workspace::{Workspace, WorkspaceId, WorkspaceView};

verus! {

/// The first of the workspaces that has this id.
pub open spec fn first_with_id(workspaces: Seq<WorkspaceView>, id: WorkspaceId) -> Option<
    WorkspaceView,
>
    decreases workspaces.len(),
{
    if workspaces.len() == 0 {
        None
    } else if workspaces[0].id == id {
        Some(workspaces[0])
    } else {
        first_with_id(workspaces.skip(1), id)
    }
}

/// The views of reported workspaces.
pub open spec fn workspace_views(workspaces: Seq<Workspace>) -> Seq<WorkspaceView> {
    workspaces.map_values(|workspace: Workspace| workspace@)
}

/// The view of an optional workspace.
pub open spec fn optional_workspace_view(workspace: Option<Workspace>) -> Option<WorkspaceView> {
    match workspace {
        Some(workspace) => Some(workspace@),
        None => None,
    }
}

/// Values that are found by an id in what a source reported.
pub trait ById<T>: Sized {
    /// What the source reported.
    type Source;

    /// The value with this id.
    fn get_by_id(source: &Self::Source, id: T) -> Self;
}

impl ById<WorkspaceId> for Option<Workspace> {
    type Source = Vec<Workspace>;

    /// The first of the workspaces that has this id, if any has.
    fn get_by_id(source: &Vec<Workspace>, id: WorkspaceId) -> (found: Option<Workspace>)
        ensures
            optional_workspace_view(found) == first_with_id(workspace_views(source@), id),
    {
        let ghost all = workspace_views(source@);
        let mut index: usize = 0;
        assert(all.skip(0) =~= all);
        while index < source.len()
            invariant
                index <= source.len(),
                all == workspace_views(source@),
                first_with_id(all, id) == first_with_id(all.skip(index as int), id),
            decreases source.len() - index,
        {
            if source[index].id == id {
                return Some(source[index].clone());
            }
            assert(all.skip(index as int).skip(1) =~= all.skip(index as int + 1));
            index = index + 1;
        }
        None
    }
}

/// Law: the look-up gives the first workspace with the id. A workspace that
/// is found has the id, and none before it has; none is found exactly if no
/// workspace has the id.
pub proof fn lemma_first_with_id(workspaces: Seq<WorkspaceView>, id: WorkspaceId)
    ensures
        first_with_id(workspaces, id) matches Some(found) ==> found.id == id && exists|i: int|
            0 <= i < workspaces.len() && workspaces[i] == found && forall|k: int|
                0 <= k < i ==> (#[trigger] workspaces[k]).id != id,
        first_with_id(workspaces, id) is None <==> forall|k: int|
            0 <= k < workspaces.len() ==> (#[trigger] workspaces[k]).id != id,
    decreases workspaces.len(),
{
    if workspaces.len() > 0 {
        if workspaces[0].id == id {
            assert(forall|k: int| 0 <= k < 0 ==> (#[trigger] workspaces[k]).id != id);
        } else {
            let rest = workspaces.skip(1);
            lemma_first_with_id(rest, id);
            match first_with_id(rest, id) {
                Some(found) => {
                    let i = choose|i: int|
                        0 <= i < rest.len() && rest[i] == found && forall|k: int|
                            0 <= k < i ==> (#[trigger] rest[k]).id != id;
                    assert(workspaces[i + 1] == found);
                    assert forall|k: int| 0 <= k < i + 1 implies (#[trigger] workspaces[k]).id
                        != id by {
                        if k > 0 {
                            assert(rest[k - 1].id != id);
                        }
                    }
                },
                None => {
                    assert forall|k: int| 0 <= k < workspaces.len() implies (
                    #[trigger] workspaces[k]).id != id by {
                        if k > 0 {
                            assert(rest[k - 1].id != id);
                        }
                    }
                },
            }
        }
    }
}

} // verus!
