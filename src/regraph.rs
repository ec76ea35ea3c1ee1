use vstd::prelude::*;
use vstd::string::*;

use crate::commit::{Commit, CommitView, NewCommit, NewCommitView};
use crate::error::RegraphError;
use crate::oid::{hex_of, Oid};
use crate::refs::{copy_reference, Reference};
use crate::remap::RemapTable;

verus! {

/// `id` as the table translates it: its replacement if it has one, else
/// itself.
pub open spec fn remap_id(table: Map<Oid, Oid>, id: Oid) -> Oid {
    if table.contains_key(id) {
        table[id]
    } else {
        id
    }
}

/// Whether some id of `parents` has a replacement in the table.
pub open spec fn touches(table: Map<Oid, Oid>, parents: Seq<Oid>) -> bool {
    exists|i: int| 0 <= i < parents.len() && table.contains_key(#[trigger] parents[i])
}

/// `parents` with each id translated through the table, in the same order.
pub open spec fn remap_parents(table: Map<Oid, Oid>, parents: Seq<Oid>) -> Seq<Oid> {
    parents.map_values(|p: Oid| remap_id(table, p))
}

/// The commit that replaces `c` once its parents are translated: every
/// other field as `c` has it.
pub open spec fn rebuilt(table: Map<Oid, Oid>, c: CommitView, message: Seq<char>) -> NewCommitView {
    NewCommitView {
        parent_ids: remap_parents(table, c.parent_ids),
        tree_id: c.tree_id,
        message,
        author: c.author,
        committer: c.committer,
    }
}

/// What visiting `c` yields: nothing when none of its parents was replaced;
/// otherwise the commit to write in its place, or an error when its message
/// is not text.
pub open spec fn visit_outcome(table: Map<Oid, Oid>, c: CommitView) -> Result<Option<NewCommitView>, RegraphError> {
    if !touches(table, c.parent_ids) {
        Ok(None)
    } else {
        match c.message {
            None => Err(RegraphError::InvalidMessageEncoding { commit: c.id }),
            Some(m) => Ok(Some(rebuilt(table, c, m))),
        }
    }
}

/// The error with which a run refuses to start: `NoChange` when the edited
/// commit's new version is the very same commit.
pub open spec fn start_error(target: Oid, replacement: Oid) -> Option<RegraphError> {
    if target == replacement {
        Some(RegraphError::NoChange)
    } else {
        None
    }
}

/// The text recorded in the log of each reference a run moves.
pub open spec fn audit_text(target: Oid, replacement: Oid) -> Seq<char> {
    "regraph: update after editing commit "@ + hex_of(target.bytes@) + " -> "@ + hex_of(
        replacement.bytes@,
    )
}

/// One move of a reference: from its current target to that target's
/// replacement.
#[derive(Clone, Debug, PartialEq, Eq)]
pub struct RefUpdate {
    pub name: String,
    pub old_target: Oid,
    pub new_target: Oid,
}

/// The moves owed to `refs`, in their order: one for each reference whose
/// target has a replacement, none for the others.
pub open spec fn planned_updates(refs: Seq<Reference>, table: Map<Oid, Oid>) -> Seq<RefUpdate>
    decreases refs.len(),
{
    if refs.len() == 0 {
        Seq::empty()
    } else {
        let rest = planned_updates(refs.drop_last(), table);
        let r = refs.last();
        if table.contains_key(r.target) {
            rest.push(RefUpdate { name: r.name, old_target: r.target, new_target: table[r.target] })
        } else {
            rest
        }
    }
}

/// The state of one regraph run, as the contracts see it.
pub struct RegraphView {
    /// The commit that was edited.
    pub target: Oid,
    /// The commit written in its place.
    pub replacement: Oid,
    /// Every replacement made so far, the edited commit's included.
    pub table: Map<Oid, Oid>,
    /// The references the run moves.
    pub refs: Seq<Reference>,
    /// A commit whose replacement has been asked for and not yet reported.
    pub pending: Option<Oid>,
    /// The commits visited so far, in order, each with the id of the commit
    /// written in its place, or `None` when it was kept as it is.
    pub history: Seq<(Oid, Option<Oid>)>,
}

/// Every entry of the table is the edited commit's, or that of a commit of
/// the history that was rebuilt.
pub open spec fn entries_from_run(v: RegraphView) -> bool {
    forall|k: Oid|
        #[trigger] v.table.contains_key(k) ==> k == v.target || exists|i: int|
            0 <= i < v.history.len() && (#[trigger] v.history[i]).0 == k && v.history[i].1 is Some
}

/// One regraph run. The caller performs the store's reads and writes and
/// reports the results:
///
/// 1. `begin` with the references to move, the edited commit and the id the
///    store gave to its edited version;
/// 2. walk the commits reachable from `walk_starts`, leaving out `target` and
///    what is reachable only through it, parents before children, and hand
///    each to `visit`; when it returns a commit, write it and report its id
///    with `record`;
/// 3. move the references as `ref_updates` says.
pub struct Regraph {
    target: Oid,
    replacement: Oid,
    table: RemapTable,
    refs: Vec<Reference>,
    pending: Option<Oid>,
    history: Ghost<Seq<(Oid, Option<Oid>)>>,
}

impl View for Regraph {
    type V = RegraphView;

    closed spec fn view(&self) -> RegraphView {
        RegraphView {
            target: self.target,
            replacement: self.replacement,
            table: self.table@,
            refs: self.refs@,
            pending: self.pending,
            history: self.history@,
        }
    }
}

impl Regraph {
    /// The run's invariant: the table holds a replacement for the edited
    /// commit, maps no id to itself, and has entries only for commits that
    /// the run rebuilt.
    pub closed spec fn wf(&self) -> bool {
        &&& self.table.wf()
        &&& self.table@.contains_key(self.target)
        &&& forall|k: Oid| #[trigger] self.table@.contains_key(k) ==> self.table@[k] != k
        &&& entries_from_run(self@)
    }

    /// Starts a run after the edited commit `target` was written again as
    /// `replacement`. Fails with `NoChange` when the two are the same commit.
    pub fn begin(refs: Vec<Reference>, target: Oid, replacement: Oid) -> (r: Result<Regraph, RegraphError>)
        ensures
            match r {
                Ok(g) => {
                    &&& start_error(target, replacement) is None
                    &&& g.wf()
                    &&& entries_from_run(g@)
                    &&& g@ == (RegraphView {
                        target,
                        replacement,
                        table: map![target => replacement],
                        refs: refs@,
                        pending: None,
                        history: Seq::empty(),
                    })
                },
                Err(e) => start_error(target, replacement) == Some(e),
            },
    {
        if target.same(&replacement) {
            return Err(RegraphError::NoChange);
        }
        let mut table = RemapTable::new();
        table.insert(target, replacement);
        proof {
            assert(table@ =~= map![target => replacement]);
        }
        Ok(Regraph { target, replacement, table, refs, pending: None, history: Ghost(Seq::empty()) })
    }

    /// The commit that was edited: the walk leaves it out.
    pub fn target(&self) -> (r: Oid)
        ensures
            r == self@.target,
    {
        self.target
    }

    /// The commit written in place of the edited one.
    pub fn replacement(&self) -> (r: Oid)
        ensures
            r == self@.replacement,
    {
        self.replacement
    }

    /// The replacement recorded for `id`, if any.
    pub fn replacement_of(&self, id: &Oid) -> (r: Option<Oid>)
        requires
            self.wf(),
        ensures
            match r {
                Some(v) => self@.table.contains_key(*id) && self@.table[*id] == v,
                None => !self@.table.contains_key(*id),
            },
    {
        self.table.get(id)
    }

    /// Where the walk starts: the targets of the references to move, in
    /// order.
    pub fn walk_starts(&self) -> (r: Vec<Oid>)
        ensures
            r@ == self@.refs.map_values(|x: Reference| x.target),
    {
        let mut out: Vec<Oid> = Vec::new();
        let mut i: usize = 0;
        while i < self.refs.len()
            invariant
                0 <= i <= self.refs@.len(),
                out@ =~= self.refs@.take(i as int).map_values(|x: Reference| x.target),
            decreases self.refs@.len() - i,
        {
            out.push(self.refs[i].target);
            i = i + 1;
        }
        assert(self.refs@.take(self.refs@.len() as int) =~= self.refs@);
        out
    }

    /// Decides what becomes of the next commit of the walk. When none of its
    /// parents was replaced it is kept as it is. Otherwise the commit to write
    /// in its place is returned, with every parent translated and every other
    /// field unchanged; its id is then owed to `record`. A commit to rewrite
    /// whose message is not text stops the run.
    pub fn visit(&mut self, commit: Commit) -> (r: Result<Option<NewCommit>, RegraphError>)
        requires
            old(self).wf(),
            old(self)@.pending is None,
        ensures
            final(self).wf(),
            entries_from_run(final(self)@),
            match r {
                Ok(Some(n)) => {
                    &&& visit_outcome(old(self)@.table, commit@) == Ok::<Option<NewCommitView>, RegraphError>(Some(n@))
                    &&& final(self)@ == (RegraphView { pending: Some(commit.id), ..old(self)@ })
                },
                Ok(None) => {
                    &&& visit_outcome(old(self)@.table, commit@) == Ok::<Option<NewCommitView>, RegraphError>(None)
                    &&& final(self)@ == (RegraphView {
                        history: old(self)@.history.push((commit.id, None)),
                        ..old(self)@
                    })
                },
                Err(e) => {
                    &&& visit_outcome(old(self)@.table, commit@) == Err::<Option<NewCommitView>, RegraphError>(e)
                    &&& final(self)@ == old(self)@
                },
            },
    {
        let ghost table = self.table@;
        let ghost ps = commit.parent_ids@;
        let mut parents: Vec<Oid> = Vec::new();
        let mut touched = false;
        let mut i: usize = 0;
        while i < commit.parent_ids.len()
            invariant
                self.table.wf(),
                self.table@ == table,
                commit.parent_ids@ == ps,
                0 <= i <= ps.len(),
                parents@ =~= remap_parents(table, ps.take(i as int)),
                touched == touches(table, ps.take(i as int)),
            decreases ps.len() - i,
        {
            let p = commit.parent_ids[i];
            proof {
                assert(ps.take(i + 1) =~= ps.take(i as int).push(p));
                if touches(table, ps.take(i as int)) {
                    let j = choose|j: int| 0 <= j < i && table.contains_key(#[trigger] ps.take(i as int)[j]);
                    assert(ps.take(i + 1)[j] == ps.take(i as int)[j]);
                }
                if touches(table, ps.take(i + 1)) {
                    let j = choose|j: int| 0 <= j < i + 1 && table.contains_key(#[trigger] ps.take(i + 1)[j]);
                    if j < i {
                        assert(ps.take(i as int)[j] == ps.take(i + 1)[j]);
                    }
                }
            }
            match self.table.get(&p) {
                Some(n) => {
                    parents.push(n);
                    touched = true;
                    assert(ps.take(i + 1)[i as int] == p);
                },
                None => {
                    parents.push(p);
                },
            }
            i = i + 1;
        }
        assert(ps.take(ps.len() as int) =~= ps);
        if !touched {
            let ghost before = self.history@;
            self.history = Ghost(before.push((commit.id, None)));
            proof {
                assert forall|k: Oid| #[trigger] self.table@.contains_key(k) implies k == self.target
                    || exists|i: int|
                    0 <= i < self.history@.len() && (#[trigger] self.history@[i]).0 == k
                        && self.history@[i].1 is Some by {
                    if k != self.target {
                        let i = choose|i: int|
                            0 <= i < before.len() && (#[trigger] before[i]).0 == k && before[i].1 is Some;
                        assert(self.history@[i] == before[i]);
                    }
                }
                assert(self@.history == self.history@);
                assert(self@.table == self.table@);
                assert(self@.target == self.target);
                assert(entries_from_run(self@));
            }
            return Ok(None);
        }
        match commit.message {
            None => Err(RegraphError::InvalidMessageEncoding { commit: commit.id }),
            Some(message) => {
                self.pending = Some(commit.id);
                proof {
                    assert(self@.history == old(self)@.history);
                    assert(self@.table == old(self)@.table);
                    assert(self@.target == old(self)@.target);
                }
                Ok(
                    Some(
                        NewCommit {
                            parent_ids: parents,
                            tree_id: commit.tree_id,
                            message,
                            author: commit.author,
                            committer: commit.committer,
                        },
                    ),
                )
            },
        }
    }

    /// Reports the id that the store gave to the commit last returned by
    /// `visit`. The store addresses commits by content and that commit's
    /// parents differ from the original's, so the id differs too.
    pub fn record(&mut self, new_id: Oid)
        requires
            old(self).wf(),
            old(self)@.pending is Some,
            old(self)@.pending->0 != new_id,
        ensures
            final(self).wf(),
            entries_from_run(final(self)@),
            final(self)@ == (RegraphView {
                table: old(self)@.table.insert(old(self)@.pending->0, new_id),
                pending: None,
                history: old(self)@.history.push((old(self)@.pending->0, Some(new_id))),
                ..old(self)@
            }),
    {
        if let Some(old_id) = self.pending {
            let ghost before = self.history@;
            let ghost old_table = self.table@;
            self.table.insert(old_id, new_id);
            self.pending = None;
            self.history = Ghost(before.push((old_id, Some(new_id))));
            proof {
                assert forall|k: Oid| #[trigger] self.table@.contains_key(k) implies k == self.target
                    || exists|i: int|
                    0 <= i < self.history@.len() && (#[trigger] self.history@[i]).0 == k
                        && self.history@[i].1 is Some by {
                    if k == old_id {
                        assert(self.history@[before.len() as int] == (old_id, Some(new_id)));
                    } else if k != self.target {
                        assert(old_table.contains_key(k));
                        let i = choose|i: int|
                            0 <= i < before.len() && (#[trigger] before[i]).0 == k && before[i].1 is Some;
                        assert(self.history@[i] == before[i]);
                    }
                }
                assert(self@.history == self.history@);
                assert(self@.table == self.table@);
                assert(self@.target == self.target);
                assert(entries_from_run(self@));
            }
        }
    }

    /// The moves of references that finish the run, in the order of the
    /// references.
    pub fn ref_updates(&self) -> (r: Vec<RefUpdate>)
        requires
            self.wf(),
            self@.pending is None,
        ensures
            r@ == planned_updates(self@.refs, self@.table),
    {
        let mut out: Vec<RefUpdate> = Vec::new();
        let mut i: usize = 0;
        while i < self.refs.len()
            invariant
                self.table.wf(),
                0 <= i <= self.refs@.len(),
                out@ == planned_updates(self.refs@.take(i as int), self.table@),
            decreases self.refs@.len() - i,
        {
            assert(self.refs@.take(i + 1).drop_last() =~= self.refs@.take(i as int));
            let r = &self.refs[i];
            if let Some(new_target) = self.table.get(&r.target) {
                let c = copy_reference(r);
                out.push(RefUpdate { name: c.name, old_target: r.target, new_target });
            }
            i = i + 1;
        }
        assert(self.refs@.take(self.refs@.len() as int) =~= self.refs@);
        out
    }

    /// The text to record with each move of a reference: which commit was
    /// edited, and what replaced it.
    pub fn audit_message(&self) -> (r: String)
        ensures
            r@ == audit_text(self@.target, self@.replacement),
    {
        let mut s = String::from_str("regraph: update after editing commit ");
        let t = self.target.to_hex();
        s.append(t.as_str());
        s.append(" -> ");
        let n = self.replacement.to_hex();
        s.append(n.as_str());
        s
    }
}

} // verus!
