//! The synchronization engine, as far as it decides: from one snapshot of
//! the compositor to the renames that bring every workspace name up to date.
//!
//! A pass keeps no state. It reads the snapshot it is handed and answers
//! with the renames to issue; issuing them is the caller's business.

use vstd::prelude::*;

use crate::aggregate::{aggregate, group, group_of, lemma_group_ignores_unmapped};
use crate::args::Args;
use crate::icons::{IconMapping, IconMappingView};
use crate::label::{compose, composed, is_mapped};
use crate::window::{Window, WindowView, Workspace, WorkspaceView};

verus! {

/// The command to give workspace `id` the name `name`.
pub struct Rename {
    pub id: i32,
    pub name: String,
}

/// The mathematical value of a [`Rename`].
pub struct RenameView {
    pub id: int,
    pub name: Seq<char>,
}

impl View for Rename {
    type V = RenameView;

    open spec fn view(&self) -> RenameView {
        RenameView { id: self.id as int, name: self.name@ }
    }
}

impl DeepView for Rename {
    type V = RenameView;

    open spec fn deep_view(&self) -> RenameView {
        self@
    }
}

/// The name that workspace `id` ought to show: the label of its group.
pub open spec fn desired_name(
    mapping: IconMappingView,
    windows: Seq<WindowView>,
    id: int,
    deduplicate: bool,
) -> Seq<char> {
    composed(mapping, id, group(windows, id), deduplicate)
}

/// The predicate that keeps the workspaces whose shown name is not the
/// desired one.
pub open spec fn is_stale(mapping: IconMappingView, windows: Seq<WindowView>, deduplicate: bool)
    -> spec_fn(WorkspaceView) -> bool {
    |ws: WorkspaceView| ws.name != desired_name(mapping, windows, ws.id, deduplicate)
}

/// The rename that brings a workspace up to date.
pub open spec fn rename_of(mapping: IconMappingView, windows: Seq<WindowView>, deduplicate: bool)
    -> spec_fn(WorkspaceView) -> RenameView {
    |ws: WorkspaceView|
        RenameView { id: ws.id, name: desired_name(mapping, windows, ws.id, deduplicate) }
}

/// The renames of one pass: one for each workspace whose name is stale, in
/// the order of the workspaces, and none for the others.
pub open spec fn plan(
    mapping: IconMappingView,
    workspaces: Seq<WorkspaceView>,
    windows: Seq<WindowView>,
    deduplicate: bool,
) -> Seq<RenameView> {
    workspaces.filter(is_stale(mapping, windows, deduplicate)).map_values(
        rename_of(mapping, windows, deduplicate),
    )
}

/// The workspace as it is once `rename` has been carried out.
pub open spec fn after_rename(rename: RenameView) -> spec_fn(WorkspaceView) -> WorkspaceView {
    |ws: WorkspaceView|
        if ws.id == rename.id {
            WorkspaceView { id: ws.id, name: rename.name, windows: ws.windows }
        } else {
            ws
        }
}

/// The workspaces as they are once every rename of `renames` has been
/// carried out, in order.
pub open spec fn renamed(workspaces: Seq<WorkspaceView>, renames: Seq<RenameView>) -> Seq<
    WorkspaceView,
>
    decreases renames.len(),
{
    if renames.len() == 0 {
        workspaces
    } else {
        renamed(workspaces, renames.drop_last()).map_values(after_rename(renames.last()))
    }
}

/// Every planned rename is owed: it names a workspace of the snapshot whose
/// shown name differs from the new one, and the new name is the desired one.
pub proof fn lemma_plan_is_owed(
    mapping: IconMappingView,
    workspaces: Seq<WorkspaceView>,
    windows: Seq<WindowView>,
    deduplicate: bool,
    k: int,
)
    requires
        0 <= k < plan(mapping, workspaces, windows, deduplicate).len(),
    ensures
        ({
            let rename = plan(mapping, workspaces, windows, deduplicate)[k];
            &&& rename.name == desired_name(mapping, windows, rename.id, deduplicate)
            &&& exists|i: int|
                0 <= i < workspaces.len() && (#[trigger] workspaces[i]).id == rename.id
                    && workspaces[i].name != rename.name
        }),
{
    let stale = is_stale(mapping, windows, deduplicate);
    let kept = workspaces.filter(stale);
    workspaces.lemma_filter_pred(stale, k);
    lemma_filter_source(workspaces, stale, k);
}

/// Each member of a filtered sequence is a member of the sequence.
proof fn lemma_filter_source<A>(s: Seq<A>, pred: spec_fn(A) -> bool, k: int)
    requires
        0 <= k < s.filter(pred).len(),
    ensures
        exists|i: int| 0 <= i < s.len() && #[trigger] s[i] == s.filter(pred)[k],
    decreases s.len(),
{
    reveal(Seq::filter);
    if s.len() > 0 {
        let init = s.drop_last();
        if pred(s.last()) && k == init.filter(pred).len() {
            assert(s[s.len() - 1] == s.filter(pred)[k]);
        } else {
            lemma_filter_source(init, pred, k);
            let i = choose|i: int| 0 <= i < init.len() && #[trigger] init[i] == init.filter(pred)[k];
            assert(s[i] == s.filter(pred)[k]);
        }
    }
}

/// A workspace whose shown name is stale gets a rename.
pub proof fn lemma_stale_is_planned(
    mapping: IconMappingView,
    workspaces: Seq<WorkspaceView>,
    windows: Seq<WindowView>,
    deduplicate: bool,
    i: int,
)
    requires
        0 <= i < workspaces.len(),
        workspaces[i].name != desired_name(mapping, windows, workspaces[i].id, deduplicate),
    ensures
        exists|k: int|
            0 <= k < plan(mapping, workspaces, windows, deduplicate).len() && (#[trigger] plan(
                mapping,
                workspaces,
                windows,
                deduplicate,
            )[k]) == (RenameView {
                id: workspaces[i].id,
                name: desired_name(mapping, windows, workspaces[i].id, deduplicate),
            }),
{
    let stale = is_stale(mapping, windows, deduplicate);
    let kept = workspaces.filter(stale);
    assert(stale(workspaces[i]));
    workspaces.lemma_filter_contains(stale, i);
    let k = choose|k: int| 0 <= k < kept.len() && kept[k] == workspaces[i];
    assert(plan(mapping, workspaces, windows, deduplicate)[k] == rename_of(
        mapping,
        windows,
        deduplicate,
    )(kept[k]));
}

/// Where every workspace already shows its desired name, a pass plans no
/// rename at all.
pub proof fn lemma_up_to_date_plans_nothing(
    mapping: IconMappingView,
    workspaces: Seq<WorkspaceView>,
    windows: Seq<WindowView>,
    deduplicate: bool,
)
    requires
        forall|i: int|
            0 <= i < workspaces.len() ==> (#[trigger] workspaces[i]).name == desired_name(
                mapping,
                windows,
                workspaces[i].id,
                deduplicate,
            ),
    ensures
        plan(mapping, workspaces, windows, deduplicate) == Seq::<RenameView>::empty(),
{
    let stale = is_stale(mapping, windows, deduplicate);
    if workspaces.filter(stale).len() > 0 {
        workspaces.lemma_filter_pred(stale, 0);
        lemma_filter_source(workspaces, stale, 0);
    }
}

/// Carrying out renames that each give the desired name leaves every
/// workspace with its old name or its desired one, and with the desired one
/// wherever a rename was for it.
proof fn lemma_renamed_names(
    mapping: IconMappingView,
    workspaces: Seq<WorkspaceView>,
    windows: Seq<WindowView>,
    deduplicate: bool,
    renames: Seq<RenameView>,
)
    requires
        forall|k: int|
            0 <= k < renames.len() ==> (#[trigger] renames[k]).name == desired_name(
                mapping,
                windows,
                renames[k].id,
                deduplicate,
            ),
    ensures
        renamed(workspaces, renames).len() == workspaces.len(),
        forall|i: int|
            0 <= i < workspaces.len() ==> {
                let now = #[trigger] renamed(workspaces, renames)[i];
                let want = desired_name(mapping, windows, workspaces[i].id, deduplicate);
                &&& now.id == workspaces[i].id
                &&& now.windows == workspaces[i].windows
                &&& now.name == workspaces[i].name || now.name == want
                &&& (exists|k: int| 0 <= k < renames.len() && (#[trigger] renames[k]).id
                    == workspaces[i].id) ==> now.name == want
            },
    decreases renames.len(),
{
    if renames.len() > 0 {
        let init = renames.drop_last();
        let last = renames.last();
        assert(forall|k: int| 0 <= k < init.len() ==> init[k] == renames[k]);
        lemma_renamed_names(mapping, workspaces, windows, deduplicate, init);
        let before = renamed(workspaces, init);
        let now = renamed(workspaces, renames);
        assert(last == renames[renames.len() - 1]);
        assert forall|i: int| 0 <= i < workspaces.len() implies {
            let n = #[trigger] now[i];
            let want = desired_name(mapping, windows, workspaces[i].id, deduplicate);
            &&& n.id == workspaces[i].id
            &&& n.windows == workspaces[i].windows
            &&& n.name == workspaces[i].name || n.name == want
            &&& (exists|k: int| 0 <= k < renames.len() && (#[trigger] renames[k]).id
                == workspaces[i].id) ==> n.name == want
        } by {
            assert(now[i] == after_rename(last)(before[i]));
            if exists|k: int| 0 <= k < renames.len() && (#[trigger] renames[k]).id
                == workspaces[i].id {
                let k = choose|k: int| 0 <= k < renames.len() && (#[trigger] renames[k]).id
                    == workspaces[i].id;
                if k < init.len() {
                    assert(init[k].id == workspaces[i].id);
                }
            }
        }
    }
}

/// A second pass over an unchanged compositor plans nothing: once the
/// renames of a pass are carried out, the next pass over the same windows
/// finds every name up to date.
pub proof fn lemma_resync_is_idempotent(
    mapping: IconMappingView,
    workspaces: Seq<WorkspaceView>,
    windows: Seq<WindowView>,
    deduplicate: bool,
)
    ensures
        plan(
            mapping,
            renamed(workspaces, plan(mapping, workspaces, windows, deduplicate)),
            windows,
            deduplicate,
        ) == Seq::<RenameView>::empty(),
{
    let first = plan(mapping, workspaces, windows, deduplicate);
    let then = renamed(workspaces, first);
    assert forall|k: int| 0 <= k < first.len() implies (#[trigger] first[k]).name == desired_name(
        mapping,
        windows,
        first[k].id,
        deduplicate,
    ) by {
        lemma_plan_is_owed(mapping, workspaces, windows, deduplicate, k);
    }
    lemma_renamed_names(mapping, workspaces, windows, deduplicate, first);
    assert forall|i: int| 0 <= i < then.len() implies (#[trigger] then[i]).name == desired_name(
        mapping,
        windows,
        then[i].id,
        deduplicate,
    ) by {
        if workspaces[i].name != desired_name(mapping, windows, workspaces[i].id, deduplicate) {
            lemma_stale_is_planned(mapping, workspaces, windows, deduplicate, i);
            let k = choose|k: int|
                0 <= k < first.len() && (#[trigger] first[k]) == (RenameView {
                    id: workspaces[i].id,
                    name: desired_name(mapping, windows, workspaces[i].id, deduplicate),
                });
            assert(first[k].id == workspaces[i].id);
        }
    }
    lemma_up_to_date_plans_nothing(mapping, then, windows, deduplicate);
}

/// Windows that are not shown change no name: the desired names for a list
/// of windows are those for its shown windows alone.
pub proof fn lemma_unmapped_windows_change_nothing(
    mapping: IconMappingView,
    windows: Seq<WindowView>,
    id: int,
    deduplicate: bool,
)
    ensures
        desired_name(mapping, windows, id, deduplicate) == desired_name(
            mapping,
            windows.filter(is_mapped()),
            id,
            deduplicate,
        ),
{
    lemma_group_ignores_unmapped(windows, id);
}

/// The identifiers of `workspaces`, in order.
pub fn workspace_ids(workspaces: &Vec<Workspace>) -> (ids: Vec<i32>)
    ensures
        ids@.len() == workspaces.len(),
        forall|i: int| 0 <= i < ids@.len() ==> ids@[i] == workspaces[i].id,
{
    let mut ids: Vec<i32> = Vec::new();
    let mut i: usize = 0;
    while i < workspaces.len()
        invariant
            i <= workspaces.len(),
            ids@.len() == i,
            forall|j: int| 0 <= j < i ==> ids@[j] == workspaces[j].id,
        decreases workspaces.len() - i,
    {
        ids.push(workspaces[i].id);
        i += 1;
    }
    ids
}

/// One pass of the engine over a snapshot of the compositor.
///
/// The windows are grouped by workspace, the label of every workspace is
/// composed, and a rename is planned for each workspace whose shown name
/// differs from its label. A workspace that already shows its label gets
/// none.
pub fn resync(
    config: &IconMapping,
    args: &Args,
    workspaces: &Vec<Workspace>,
    windows: &Vec<Window>,
) -> (renames: Vec<Rename>)
    ensures
        renames.deep_view() == plan(
            config@,
            workspaces.deep_view(),
            windows.deep_view(),
            args.deduplicate,
        ),
{
    broadcast use vstd::std_specs::hash::group_hash_axioms;

    let ids = workspace_ids(workspaces);
    let groups = aggregate(windows, &ids);
    let mut renames: Vec<Rename> = Vec::new();
    let ghost stale = is_stale(config@, windows.deep_view(), args.deduplicate);
    let ghost fix = rename_of(config@, windows.deep_view(), args.deduplicate);
    let mut i: usize = 0;
    proof {
        reveal(Seq::filter);
        assert(workspaces.deep_view().take(0).filter(stale).len() == 0);
        assert(renames.deep_view() == plan(
            config@,
            workspaces.deep_view().take(0),
            windows.deep_view(),
            args.deduplicate,
        ));
    }
    while i < workspaces.len()
        invariant
            i <= workspaces.len(),
            stale == is_stale(config@, windows.deep_view(), args.deduplicate),
            fix == rename_of(config@, windows.deep_view(), args.deduplicate),
            forall|id: i32|
                groups@.contains_key(id) ==> (#[trigger] groups@[id]).deep_view() == group(
                    windows.deep_view(),
                    id as int,
                ),
            renames.deep_view() == plan(
                config@,
                workspaces.deep_view().take(i as int),
                windows.deep_view(),
                args.deduplicate,
            ),
        decreases workspaces.len() - i,
    {
        let id = workspaces[i].id;
        let ghost before = workspaces.deep_view().take(i as int);
        let ghost after = workspaces.deep_view().take(i + 1);
        let ghost old_renames = renames.deep_view();
        let name = match groups.get(&id) {
            Some(members) => compose(config, id, members, args.deduplicate),
            None => {
                let members = group_of(windows, id);
                compose(config, id, &members, args.deduplicate)
            },
        };
        proof {
            assert(name@ == desired_name(
                config@,
                windows.deep_view(),
                id as int,
                args.deduplicate,
            ));
            assert(after == before.push(workspaces[i as int]@));
            before.lemma_filter_push(workspaces[i as int]@, stale);
        }
        if name != workspaces[i].name {
            let rename = Rename { id, name };
            renames.push(rename);
            assert(renames.deep_view() == old_renames.push(rename@));
            assert(rename@ == fix(workspaces[i as int]@));
            assert(after.filter(stale).map_values(fix) == before.filter(stale).map_values(
                fix,
            ).push(fix(workspaces[i as int]@)));
        }
        i += 1;
    }
    assert(workspaces.deep_view().take(workspaces.len() as int) == workspaces.deep_view());
    renames
}

} // verus!
