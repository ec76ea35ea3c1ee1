use vstd::prelude::*;

use crate::oid::Oid;

verus! {

/// A named pointer to a commit, already followed through any symbolic
/// indirection to its direct target.
#[derive(Clone, Debug, PartialEq, Eq)]
pub struct Reference {
    pub name: String,
    pub target: Oid,
    /// Whether the name marks it as a remote-tracking reference.
    pub is_remote: bool,
}

/// Which references a regraph run moves.
#[derive(Clone, Debug, PartialEq, Eq)]
pub enum RefArg {
    /// Every reference that is not a remote-tracking one.
    AllLocalRefs,
    /// Exactly these.
    Refs(Vec<Reference>),
}

/// The references of `all` that are not remote-tracking ones, in order.
pub open spec fn local_refs(all: Seq<Reference>) -> Seq<Reference>
    decreases all.len(),
{
    if all.len() == 0 {
        Seq::empty()
    } else {
        let rest = local_refs(all.drop_last());
        if all.last().is_remote {
            rest
        } else {
            rest.push(all.last())
        }
    }
}

/// The references that `arg` selects from the listing `all`.
pub open spec fn selected_refs(arg: RefArg, all: Seq<Reference>) -> Seq<Reference> {
    match arg {
        RefArg::AllLocalRefs => local_refs(all),
        RefArg::Refs(v) => v@,
    }
}

/// A copy of `r`.
pub(crate) fn copy_reference(r: &Reference) -> (c: Reference)
    ensures
        c == *r,
{
    Reference { name: r.name.clone(), target: r.target, is_remote: r.is_remote }
}

impl RefArg {
    /// The references to move, given the listing of every reference of the
    /// store.
    pub fn resolve(self, all: Vec<Reference>) -> (r: Vec<Reference>)
        ensures
            r@ == selected_refs(self, all@),
    {
        match self {
            RefArg::AllLocalRefs => {
                let mut out: Vec<Reference> = Vec::new();
                let mut i: usize = 0;
                while i < all.len()
                    invariant
                        0 <= i <= all@.len(),
                        out@ == local_refs(all@.take(i as int)),
                    decreases all@.len() - i,
                {
                    assert(all@.take(i + 1).drop_last() =~= all@.take(i as int));
                    if !all[i].is_remote {
                        out.push(copy_reference(&all[i]));
                    }
                    i = i + 1;
                }
                assert(all@.take(all@.len() as int) =~= all@);
                out
            },
            RefArg::Refs(refs) => refs,
        }
    }
}

} // verus!
