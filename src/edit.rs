use vstd::prelude::*;

use crate::commit::{Commit, CommitView, NewCommit, NewCommitView, Signature, SignatureView};
use crate::error::RegraphError;
use crate::oid::Oid;

verus! {

/// What to change in one commit: each field is either kept (`None`) or
/// replaced by the value given.
#[derive(Clone, Debug, PartialEq, Eq)]
pub struct CommitEdit {
    pub parents: Option<Vec<Oid>>,
    pub message: Option<String>,
    pub tree: Option<Oid>,
    pub author: Option<Signature>,
    pub committer: Option<Signature>,
}

pub struct CommitEditView {
    pub parents: Option<Seq<Oid>>,
    pub message: Option<Seq<char>>,
    pub tree: Option<Oid>,
    pub author: Option<SignatureView>,
    pub committer: Option<SignatureView>,
}

impl View for CommitEdit {
    type V = CommitEditView;

    open spec fn view(&self) -> CommitEditView {
        CommitEditView {
            parents: match self.parents {
                Some(p) => Some(p@),
                None => None,
            },
            message: match self.message {
                Some(m) => Some(m@),
                None => None,
            },
            tree: self.tree,
            author: match self.author {
                Some(a) => Some(a@),
                None => None,
            },
            committer: match self.committer {
                Some(c) => Some(c@),
                None => None,
            },
        }
    }
}

/// An edit that keeps every field.
pub open spec fn keeps_everything(e: CommitEditView) -> bool {
    &&& e.parents is None
    &&& e.message is None
    &&& e.tree is None
    &&& e.author is None
    &&& e.committer is None
}

/// The commit that applying `e` to `c` asks the store to write: each field
/// replaced where the edit gives a value, the original's otherwise. It fails
/// when the resulting message would be the original's and that is not text.
pub open spec fn edited_commit(e: CommitEditView, c: CommitView) -> Result<NewCommitView, RegraphError> {
    let message = match e.message {
        Some(m) => Some(m),
        None => c.message,
    };
    match message {
        None => Err(RegraphError::InvalidMessageEncoding { commit: c.id }),
        Some(m) => Ok(
            NewCommitView {
                parent_ids: match e.parents {
                    Some(p) => p,
                    None => c.parent_ids,
                },
                tree_id: match e.tree {
                    Some(t) => t,
                    None => c.tree_id,
                },
                message: m,
                author: match e.author {
                    Some(a) => a,
                    None => c.author,
                },
                committer: match e.committer {
                    Some(a) => a,
                    None => c.committer,
                },
            },
        ),
    }
}

impl CommitEdit {
    /// An edit that keeps every field.
    pub fn new() -> (r: CommitEdit)
        ensures
            keeps_everything(r@),
    {
        CommitEdit { parents: None, message: None, tree: None, author: None, committer: None }
    }

    /// Replaces the parents. Each field may be set once.
    pub fn edit_parents(&mut self, parents: Vec<Oid>)
        requires
            old(self).parents is None,
        ensures
            final(self)@ == (CommitEditView { parents: Some(parents@), ..old(self)@ }),
    {
        self.parents = Some(parents);
    }

    /// Replaces the message. Each field may be set once.
    pub fn edit_message(&mut self, message: String)
        requires
            old(self).message is None,
        ensures
            final(self)@ == (CommitEditView { message: Some(message@), ..old(self)@ }),
    {
        self.message = Some(message);
    }

    /// Replaces the tree. Each field may be set once.
    pub fn edit_tree(&mut self, tree: Oid)
        requires
            old(self).tree is None,
        ensures
            final(self)@ == (CommitEditView { tree: Some(tree), ..old(self)@ }),
    {
        self.tree = Some(tree);
    }

    /// Replaces the author. Each field may be set once.
    pub fn edit_author(&mut self, author: Signature)
        requires
            old(self).author is None,
        ensures
            final(self)@ == (CommitEditView { author: Some(author@), ..old(self)@ }),
    {
        self.author = Some(author);
    }

    /// Replaces the committer. Each field may be set once.
    pub fn edit_committer(&mut self, committer: Signature)
        requires
            old(self).committer is None,
        ensures
            final(self)@ == (CommitEditView { committer: Some(committer@), ..old(self)@ }),
    {
        self.committer = Some(committer);
    }

    /// The commit to write in place of `original`: the edit's values over the
    /// original's.
    pub fn resolve(self, original: Commit) -> (r: Result<NewCommit, RegraphError>)
        ensures
            match r {
                Ok(n) => edited_commit(self@, original@) == Ok::<NewCommitView, RegraphError>(n@),
                Err(e) => edited_commit(self@, original@) == Err::<NewCommitView, RegraphError>(e),
            },
    {
        let message = match self.message {
            Some(m) => m,
            None => match original.message {
                Some(m) => m,
                None => {
                    return Err(RegraphError::InvalidMessageEncoding { commit: original.id });
                },
            },
        };
        let parent_ids = match self.parents {
            Some(p) => p,
            None => original.parent_ids,
        };
        let tree_id = match self.tree {
            Some(t) => t,
            None => original.tree_id,
        };
        let author = match self.author {
            Some(a) => a,
            None => original.author,
        };
        let committer = match self.committer {
            Some(c) => c,
            None => original.committer,
        };
        Ok(NewCommit { parent_ids, tree_id, message, author, committer })
    }
}

} // verus!
