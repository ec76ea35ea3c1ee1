use vstd::prelude::*;

use crate::commit::{content_of, CommitView, NewCommitView};
use crate::edit::{edited_commit, keeps_everything, CommitEditView};
use crate::error::RegraphError;
use crate::oid::Oid;
use crate::refs::Reference;
use crate::regraph::{
    entries_from_run, planned_updates, remap_id, start_error, visit_outcome, RefUpdate, RegraphView,
};

verus! {

/// An edit that keeps every field asks the store for the original commit
/// itself. A store that names commits by their content gives back the
/// original's id, and the run refuses to start with `NoChange`.
pub proof fn lemma_keep_all_edit_is_no_change(
    e: CommitEditView,
    c: CommitView,
    message: Seq<char>,
    store: spec_fn(NewCommitView) -> Oid,
)
    requires
        keeps_everything(e),
        c.message == Some(message),
        store(content_of(c, message)) == c.id,
    ensures
        edited_commit(e, c) == Ok::<NewCommitView, RegraphError>(content_of(c, message)),
        start_error(c.id, store(content_of(c, message))) == Some(RegraphError::NoChange),
{
}

/// A rebuilt commit has the original's tree, message, author and committer;
/// a parent id differs from the original's only where that parent was
/// replaced.
pub proof fn lemma_rebuild_preserves_content(table: Map<Oid, Oid>, c: CommitView, n: NewCommitView)
    requires
        visit_outcome(table, c) == Ok::<Option<NewCommitView>, RegraphError>(Some(n)),
    ensures
        c.message == Some(n.message),
        n.tree_id == c.tree_id,
        n.author == c.author,
        n.committer == c.committer,
        n.parent_ids.len() == c.parent_ids.len(),
        forall|i: int|
            0 <= i < c.parent_ids.len() && n.parent_ids[i] != c.parent_ids[i]
                ==> table.contains_key(#[trigger] c.parent_ids[i]),
{
}

/// A rebuilt commit has as many parents as the original, in the same order:
/// each is the original's parent translated through the table.
pub proof fn lemma_rebuild_keeps_parent_order(table: Map<Oid, Oid>, c: CommitView, n: NewCommitView)
    requires
        visit_outcome(table, c) == Ok::<Option<NewCommitView>, RegraphError>(Some(n)),
    ensures
        n.parent_ids.len() == c.parent_ids.len(),
        forall|i: int|
            0 <= i < c.parent_ids.len() ==> n.parent_ids[i] == remap_id(table, #[trigger] c.parent_ids[i]),
{
}

/// A commit none of whose parents was replaced is not rebuilt.
pub proof fn lemma_untouched_commit_is_kept(table: Map<Oid, Oid>, c: CommitView)
    requires
        forall|i: int| 0 <= i < c.parent_ids.len() ==> !table.contains_key(#[trigger] c.parent_ids[i]),
    ensures
        visit_outcome(table, c) == Ok::<Option<NewCommitView>, RegraphError>(None),
{
}

/// Over a run, a commit that was kept as it was, because none of its parents
/// had been replaced when it was visited, never gets an entry in the table:
/// it keeps its id. The walk visits each commit once and leaves out the
/// edited one.
pub proof fn lemma_kept_commit_keeps_its_id(v: RegraphView, i: int)
    requires
        entries_from_run(v),
        0 <= i < v.history.len(),
        v.history[i].1 is None,
        v.history[i].0 != v.target,
        forall|j: int| 0 <= j < v.history.len() && j != i ==> (#[trigger] v.history[j]).0 != v.history[i].0,
    ensures
        !v.table.contains_key(v.history[i].0),
{
    let k = v.history[i].0;
    if v.table.contains_key(k) {
        let j = choose|j: int| 0 <= j < v.history.len() && (#[trigger] v.history[j]).0 == k && v.history[j].1 is Some;
        assert(j != i);
    }
}

/// A reference whose target has no replacement gets no move: the moves owed
/// to the references are the same with it left out. Every move takes a
/// reference from a replaced commit to its replacement.
pub proof fn lemma_unreplaced_ref_is_left(refs: Seq<Reference>, table: Map<Oid, Oid>, j: int)
    requires
        0 <= j < refs.len(),
        !table.contains_key(refs[j].target),
    ensures
        planned_updates(refs, table) == planned_updates(refs.remove(j), table),
    decreases refs.len(),
{
    if j == refs.len() - 1 {
        assert(refs.remove(j) =~= refs.drop_last());
    } else {
        assert(refs.remove(j).drop_last() =~= refs.drop_last().remove(j));
        assert(refs.remove(j).last() == refs.last());
        lemma_unreplaced_ref_is_left(refs.drop_last(), table, j);
    }
}

/// Every move that a run plans takes a reference from a replaced commit to
/// that commit's replacement.
pub proof fn lemma_planned_moves_follow_table(refs: Seq<Reference>, table: Map<Oid, Oid>)
    ensures
        forall|i: int| 0 <= i < planned_updates(refs, table).len() ==> {
            let u = #[trigger] planned_updates(refs, table)[i];
            table.contains_key(u.old_target) && u.new_target == table[u.old_target]
        },
    decreases refs.len(),
{
    if refs.len() > 0 {
        let rest = planned_updates(refs.drop_last(), table);
        lemma_planned_moves_follow_table(refs.drop_last(), table);
        assert forall|i: int| 0 <= i < planned_updates(refs, table).len() implies {
            let u = #[trigger] planned_updates(refs, table)[i];
            table.contains_key(u.old_target) && u.new_target == table[u.old_target]
        } by {
            if i < rest.len() {
                assert(planned_updates(refs, table)[i] == rest[i]);
            }
        }
    }
}

} // verus!
