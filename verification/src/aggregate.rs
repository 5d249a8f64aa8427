//! The workspace aggregator: from the flat list of windows to one group of
//! shown windows per workspace.

use std::collections::HashMap;
use vstd::prelude::*;

use crate::window::{Window, WindowView};

verus! {

/// The predicate that keeps the shown windows of workspace `id`.
pub open spec fn on_workspace(id: int) -> spec_fn(WindowView) -> bool {
    |w: WindowView| w.mapped && w.workspace == id
}

/// The group of workspace `id`: its shown windows, in the order of `windows`.
pub open spec fn group(windows: Seq<WindowView>, id: int) -> Seq<WindowView> {
    windows.filter(on_workspace(id))
}

/// Some shown window is on workspace `id`.
pub open spec fn occupied(windows: Seq<WindowView>, id: int) -> bool {
    exists|i: int| 0 <= i < windows.len() && on_workspace(id)(#[trigger] windows[i])
}

/// A workspace has a group if the compositor lists it or a shown window is on it.
pub open spec fn has_group(windows: Seq<WindowView>, ids: Seq<i32>, id: i32) -> bool {
    ids.contains(id) || occupied(windows, id as int)
}

/// Every member of a group is shown and on the workspace of the group, and
/// a workspace is occupied exactly when its group is not empty.
pub proof fn lemma_group_members(windows: Seq<WindowView>, id: int)
    ensures
        forall|k: int|
            0 <= k < group(windows, id).len() ==> (#[trigger] group(windows, id)[k]).mapped
                && group(windows, id)[k].workspace == id,
        occupied(windows, id) <==> group(windows, id).len() > 0,
    decreases windows.len(),
{
    reveal(Seq::filter);
    if windows.len() > 0 {
        let init = windows.drop_last();
        lemma_group_members(init, id);
        assert(forall|i: int| 0 <= i < init.len() ==> init[i] == windows[i]);
        if occupied(init, id) {
            let i = choose|i: int| 0 <= i < init.len() && on_workspace(id)(#[trigger] init[i]);
            assert(on_workspace(id)(windows[i]));
        }
        if on_workspace(id)(windows.last()) {
            assert(on_workspace(id)(windows[windows.len() - 1]));
        }
        if occupied(windows, id) && !on_workspace(id)(windows.last()) {
            let i = choose|i: int|
                0 <= i < windows.len() && on_workspace(id)(#[trigger] windows[i]);
            assert(on_workspace(id)(init[i]));
        }
    }
}

/// Windows that are not shown change no group: the groups of a list are the
/// groups of its shown windows alone.
pub proof fn lemma_group_ignores_unmapped(windows: Seq<WindowView>, id: int)
    ensures
        group(windows, id) == group(windows.filter(crate::label::is_mapped()), id),
    decreases windows.len(),
{
    reveal(Seq::filter);
    let shown = crate::label::is_mapped();
    if windows.len() > 0 {
        let init = windows.drop_last();
        let last = windows.last();
        lemma_group_ignores_unmapped(init, id);
        if shown(last) {
            init.filter(shown).lemma_filter_push(last, on_workspace(id));
            assert(windows.filter(shown) == init.filter(shown).push(last));
        }
    } else {
        assert(windows.filter(shown) == windows);
    }
}

/// The shown windows of workspace `id`, in the order of `windows`.
pub fn group_of(windows: &Vec<Window>, id: i32) -> (members: Vec<Window>)
    ensures
        members.deep_view() == group(windows.deep_view(), id as int),
{
    let mut members: Vec<Window> = Vec::new();
    let mut i: usize = 0;
    proof {
        reveal(Seq::filter);
        assert(windows.deep_view().take(0).filter(on_workspace(id as int)).len() == 0);
        assert(members.deep_view() == group(windows.deep_view().take(0), id as int));
    }
    while i < windows.len()
        invariant
            i <= windows.len(),
            members.deep_view() == group(windows.deep_view().take(i as int), id as int),
        decreases windows.len() - i,
    {
        let ghost before = windows.deep_view().take(i as int);
        let ghost after = windows.deep_view().take(i + 1);
        let ghost old_members = members.deep_view();
        proof {
            assert(after == before.push(windows[i as int]@));
            before.lemma_filter_push(windows[i as int]@, on_workspace(id as int));
        }
        if windows[i].mapped && windows[i].workspace == id {
            let member = windows[i].clone();
            members.push(member);
            assert(members.deep_view() == old_members.push(windows[i as int]@));
        }
        i += 1;
    }
    assert(windows.deep_view().take(windows.len() as int) == windows.deep_view());
    members
}

/// Groups `windows` by workspace.
///
/// Every identifier in `all_workspace_ids` is a key, with an empty group
/// where no shown window is on that workspace; so is the workspace of every
/// shown window. Windows that are not shown are in no group. Within a group
/// the windows keep the order they have in `windows`.
pub fn aggregate(windows: &Vec<Window>, all_workspace_ids: &Vec<i32>) -> (groups: HashMap<
    i32,
    Vec<Window>,
>)
    ensures
        forall|id: i32|
            groups@.contains_key(id) <==> has_group(windows.deep_view(), all_workspace_ids@, id),
        forall|id: i32|
            groups@.contains_key(id) ==> (#[trigger] groups@[id]).deep_view() == group(
                windows.deep_view(),
                id as int,
            ),
{
    broadcast use vstd::std_specs::hash::group_hash_axioms;

    let mut groups: HashMap<i32, Vec<Window>> = HashMap::new();
    let mut i: usize = 0;
    while i < all_workspace_ids.len()
        invariant
            i <= all_workspace_ids.len(),
            forall|id: i32|
                groups@.contains_key(id) <==> all_workspace_ids@.take(i as int).contains(id),
            forall|id: i32|
                groups@.contains_key(id) ==> (#[trigger] groups@[id]).deep_view() == group(
                    windows.deep_view(),
                    id as int,
                ),
        decreases all_workspace_ids.len() - i,
    {
        let id = all_workspace_ids[i];
        let members = group_of(windows, id);
        let ghost before = all_workspace_ids@.take(i as int);
        let ghost after = all_workspace_ids@.take(i + 1);
        groups.insert(id, members);
        proof {
            assert(after == before.push(id));
            assert forall|other: i32| groups@.contains_key(other) <==> after.contains(
                other,
            ) by {
                if other == id {
                    assert(after[i as int] == id);
                } else if before.contains(other) {
                    let k = choose|k: int| 0 <= k < before.len() && before[k] == other;
                    assert(after[k] == other);
                } else if after.contains(other) {
                    let k = choose|k: int| 0 <= k < after.len() && after[k] == other;
                    assert(before[k] == other);
                }
            }
        }
        i += 1;
    }
    assert(all_workspace_ids@.take(all_workspace_ids.len() as int) == all_workspace_ids@);
    let mut j: usize = 0;
    while j < windows.len()
        invariant
            j <= windows.len(),
            forall|id: i32|
                groups@.contains_key(id) <==> has_group(
                    windows.deep_view().take(j as int),
                    all_workspace_ids@,
                    id,
                ),
            forall|id: i32|
                groups@.contains_key(id) ==> (#[trigger] groups@[id]).deep_view() == group(
                    windows.deep_view(),
                    id as int,
                ),
        decreases windows.len() - j,
    {
        let ghost before = windows.deep_view().take(j as int);
        let ghost after = windows.deep_view().take(j + 1);
        let ghost old_groups = groups@;
        if windows[j].mapped {
            let id = windows[j].workspace;
            if !groups.contains_key(&id) {
                let members = group_of(windows, id);
                groups.insert(id, members);
            }
        }
        proof {
            assert(after == before.push(windows[j as int]@));
            assert forall|id: i32| groups@.contains_key(id) <==> has_group(
                after,
                all_workspace_ids@,
                id,
            ) by {
                if occupied(before, id as int) {
                    let k = choose|k: int|
                        0 <= k < before.len() && on_workspace(id as int)(#[trigger] before[k]);
                    assert(on_workspace(id as int)(after[k]));
                }
                if occupied(after, id as int) {
                    let k = choose|k: int|
                        0 <= k < after.len() && on_workspace(id as int)(#[trigger] after[k]);
                    if k < before.len() {
                        assert(on_workspace(id as int)(before[k]));
                    } else {
                        assert(after[k] == windows[j as int]@);
                    }
                }
                if windows[j as int].mapped && windows[j as int].workspace == id {
                    assert(on_workspace(id as int)(after[j as int]));
                }
            }
        }
        j += 1;
    }
    assert(windows.deep_view().take(windows.len() as int) == windows.deep_view());
    groups
}

} // verus!
