use vstd::prelude::*;

use crate::oid::Oid;

verus! {

/// Who made a commit, and when.
#[derive(Clone, Debug, PartialEq, Eq)]
pub struct Signature {
    pub name: Vec<u8>,
    pub email: Vec<u8>,
    /// Seconds since the Unix epoch.
    pub seconds: i64,
    /// Offset of the local time zone from UTC, in minutes.
    pub offset_minutes: i32,
}

pub struct SignatureView {
    pub name: Seq<u8>,
    pub email: Seq<u8>,
    pub seconds: i64,
    pub offset_minutes: i32,
}

impl View for Signature {
    type V = SignatureView;

    open spec fn view(&self) -> SignatureView {
        SignatureView {
            name: self.name@,
            email: self.email@,
            seconds: self.seconds,
            offset_minutes: self.offset_minutes,
        }
    }
}

/// A commit as the store holds it.
///
/// `message` is `None` when the stored message is not valid UTF-8 text.
#[derive(Clone, Debug, PartialEq, Eq)]
pub struct Commit {
    pub id: Oid,
    pub parent_ids: Vec<Oid>,
    pub tree_id: Oid,
    pub message: Option<String>,
    pub author: Signature,
    pub committer: Signature,
}

pub struct CommitView {
    pub id: Oid,
    pub parent_ids: Seq<Oid>,
    pub tree_id: Oid,
    pub message: Option<Seq<char>>,
    pub author: SignatureView,
    pub committer: SignatureView,
}

pub open spec fn message_view(m: Option<String>) -> Option<Seq<char>> {
    match m {
        Some(s) => Some(s@),
        None => None,
    }
}

impl View for Commit {
    type V = CommitView;

    open spec fn view(&self) -> CommitView {
        CommitView {
            id: self.id,
            parent_ids: self.parent_ids@,
            tree_id: self.tree_id,
            message: message_view(self.message),
            author: self.author@,
            committer: self.committer@,
        }
    }
}

/// The fields of a commit that is to be written: the store assigns its id.
#[derive(Clone, Debug, PartialEq, Eq)]
pub struct NewCommit {
    pub parent_ids: Vec<Oid>,
    pub tree_id: Oid,
    pub message: String,
    pub author: Signature,
    pub committer: Signature,
}

pub struct NewCommitView {
    pub parent_ids: Seq<Oid>,
    pub tree_id: Oid,
    pub message: Seq<char>,
    pub author: SignatureView,
    pub committer: SignatureView,
}

impl View for NewCommit {
    type V = NewCommitView;

    open spec fn view(&self) -> NewCommitView {
        NewCommitView {
            parent_ids: self.parent_ids@,
            tree_id: self.tree_id,
            message: self.message@,
            author: self.author@,
            committer: self.committer@,
        }
    }
}

/// The content of a stored commit, when its message is text: what writing
/// it again would hand to the store.
pub open spec fn content_of(c: CommitView, message: Seq<char>) -> NewCommitView {
    NewCommitView {
        parent_ids: c.parent_ids,
        tree_id: c.tree_id,
        message,
        author: c.author,
        committer: c.committer,
    }
}

} // verus!
