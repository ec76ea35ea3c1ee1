use vstd::prelude::*;

use crate::oid::Oid;

verus! {

/// The identifiers that one regraph run has replaced, each with its
/// replacement.
pub struct RemapTable {
    entries: Vec<(Oid, Oid)>,
}

/// The map that a list of pairs with distinct keys stands for.
pub closed spec fn pairs_map(s: Seq<(Oid, Oid)>) -> Map<Oid, Oid> {
    Map::new(
        |k: Oid| exists|i: int| 0 <= i < s.len() && (#[trigger] s[i]).0 == k,
        |k: Oid| s[choose|i: int| 0 <= i < s.len() && (#[trigger] s[i]).0 == k].1,
    )
}

pub open spec fn keys_distinct(s: Seq<(Oid, Oid)>) -> bool {
    forall|i: int, j: int| 0 <= i < s.len() && 0 <= j < s.len() && i != j ==> (#[trigger] s[i]).0 != (#[trigger] s[j]).0
}

proof fn lemma_pairs_map_at(s: Seq<(Oid, Oid)>, i: int)
    requires
        keys_distinct(s),
        0 <= i < s.len(),
    ensures
        pairs_map(s).contains_key(s[i].0),
        pairs_map(s)[s[i].0] == s[i].1,
{
    let k = s[i].0;
    assert(exists|j: int| 0 <= j < s.len() && (#[trigger] s[j]).0 == k);
    let j = choose|j: int| 0 <= j < s.len() && (#[trigger] s[j]).0 == k;
    assert(j == i);
}

proof fn lemma_pairs_map_missing(s: Seq<(Oid, Oid)>, k: Oid)
    requires
        forall|i: int| 0 <= i < s.len() ==> (#[trigger] s[i]).0 != k,
    ensures
        !pairs_map(s).contains_key(k),
{
}

impl View for RemapTable {
    type V = Map<Oid, Oid>;

    closed spec fn view(&self) -> Map<Oid, Oid> {
        pairs_map(self.entries@)
    }
}

impl RemapTable {
    pub closed spec fn wf(&self) -> bool {
        keys_distinct(self.entries@)
    }

    /// A table with no entry.
    pub fn new() -> (r: RemapTable)
        ensures
            r.wf(),
            r@ == Map::<Oid, Oid>::empty(),
    {
        let r = RemapTable { entries: Vec::new() };
        assert(r@ =~= Map::<Oid, Oid>::empty());
        r
    }

    /// The replacement of `id`, if it has one.
    pub fn get(&self, id: &Oid) -> (r: Option<Oid>)
        requires
            self.wf(),
        ensures
            match r {
                Some(v) => self@.contains_key(*id) && self@[*id] == v,
                None => !self@.contains_key(*id),
            },
    {
        let mut i: usize = 0;
        while i < self.entries.len()
            invariant
                self.wf(),
                0 <= i <= self.entries@.len(),
                forall|j: int| 0 <= j < i ==> (#[trigger] self.entries@[j]).0 != *id,
            decreases self.entries@.len() - i,
        {
            if self.entries[i].0.same(id) {
                proof {
                    lemma_pairs_map_at(self.entries@, i as int);
                }
                return Some(self.entries[i].1);
            }
            i = i + 1;
        }
        proof {
            lemma_pairs_map_missing(self.entries@, *id);
        }
        None
    }

    /// Whether `id` has a replacement.
    pub fn contains_key(&self, id: &Oid) -> (r: bool)
        requires
            self.wf(),
        ensures
            r == self@.contains_key(*id),
    {
        self.get(id).is_some()
    }

    /// Records `new` as the replacement of `old_id`, in place of any earlier
    /// one.
    pub fn insert(&mut self, old_id: Oid, new: Oid)
        requires
            old(self).wf(),
        ensures
            final(self).wf(),
            final(self)@ == old(self)@.insert(old_id, new),
    {
        let ghost before = self.entries@;
        let mut i: usize = 0;
        while i < self.entries.len()
            invariant
                self.entries@ == before,
                old(self).entries@ == before,
                keys_distinct(before),
                0 <= i <= before.len(),
                forall|j: int| 0 <= j < i ==> (#[trigger] before[j]).0 != old_id,
            decreases before.len() - i,
        {
            if self.entries[i].0.same(&old_id) {
                self.entries.set(i, (old_id, new));
                proof {
                    let after = self.entries@;
                    assert(keys_distinct(after));
                    assert forall|k: Oid| #[trigger] pairs_map(after).contains_key(k)
                        == pairs_map(before).insert(old_id, new).contains_key(k) by {
                        if pairs_map(after).contains_key(k) {
                            let j = choose|j: int| 0 <= j < after.len() && (#[trigger] after[j]).0 == k;
                            if j != i {
                                lemma_pairs_map_at(before, j);
                            }
                        }
                        if pairs_map(before).contains_key(k) {
                            let j = choose|j: int| 0 <= j < before.len() && (#[trigger] before[j]).0 == k;
                            lemma_pairs_map_at(after, j);
                        }
                        lemma_pairs_map_at(after, i as int);
                    }
                    assert forall|k: Oid| #[trigger] pairs_map(after).contains_key(k)
                        implies pairs_map(after)[k] == pairs_map(before).insert(old_id, new)[k] by {
                        let j = choose|j: int| 0 <= j < after.len() && (#[trigger] after[j]).0 == k;
                        lemma_pairs_map_at(after, j);
                        if j != i {
                            lemma_pairs_map_at(before, j);
                        }
                    }
                    assert(pairs_map(after) =~= pairs_map(before).insert(old_id, new));
                }
                return;
            }
            i = i + 1;
        }
        self.entries.push((old_id, new));
        proof {
            let after = self.entries@;
            assert(keys_distinct(after));
            assert forall|k: Oid| #[trigger] pairs_map(after).contains_key(k)
                == pairs_map(before).insert(old_id, new).contains_key(k) by {
                if pairs_map(after).contains_key(k) {
                    let j = choose|j: int| 0 <= j < after.len() && (#[trigger] after[j]).0 == k;
                    if j < before.len() {
                        lemma_pairs_map_at(before, j);
                    }
                }
                if pairs_map(before).contains_key(k) {
                    let j = choose|j: int| 0 <= j < before.len() && (#[trigger] before[j]).0 == k;
                    lemma_pairs_map_at(after, j);
                }
                lemma_pairs_map_at(after, before.len() as int);
            }
            assert forall|k: Oid| #[trigger] pairs_map(after).contains_key(k)
                implies pairs_map(after)[k] == pairs_map(before).insert(old_id, new)[k] by {
                let j = choose|j: int| 0 <= j < after.len() && (#[trigger] after[j]).0 == k;
                lemma_pairs_map_at(after, j);
                if j < before.len() {
                    lemma_pairs_map_at(before, j);
                }
            }
            assert(pairs_map(after) =~= pairs_map(before).insert(old_id, new));
        }
    }
}

} // verus!
