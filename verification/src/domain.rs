//! The entities the pipeline moves around.
//!
//! Accounts and claims are remote-sourced and immutable within a run; a
//! comment is the unit of change detection.  `CommentEntity` is the one
//! locally-owned record: the denormalized row the store keeps per comment id.
//! Timestamps are carried as integer epoch seconds exactly as the remote API
//! encodes them; turning them into calendar dates is presentation work that
//! stays outside the library.

use vstd::prelude::*;

verus! {

/// A remote account, the root of the fan-out hierarchy.
#[derive(Clone, Debug)]
pub struct Account {
    pub id: String,
    pub name: String,
    pub is_default: bool,
}

/// A claim owned by one account; comments hang under claims.
#[derive(Clone, Debug)]
pub struct Claim {
    pub id: String,
    pub name: String,
    /// Epoch seconds, as the remote API encodes instants.
    pub timestamp: i64,
}

/// One remote comment, the unit the change detector classifies.
#[derive(Clone, Debug)]
pub struct Comment {
    pub id: String,
    pub claim_id: String,
    pub comment: String,
    pub commenter_id: String,
    pub commenter_name: String,
    pub commenter_url: String,
    pub is_hidden: bool,
    /// Epoch seconds, as the remote API encodes instants.
    pub timestamp: i64,
}

/// The persisted record kept per comment id: the comment's own fields plus
/// the denormalized `account_id` and `claim_name` of its position in the
/// hierarchy.
#[derive(Debug)]
pub struct CommentEntity {
    pub id: String,
    pub account_id: String,
    pub claim_id: String,
    pub claim_name: String,
    pub commenter_id: String,
    pub commenter_name: String,
    pub commenter_url: String,
    pub comment: String,
    pub is_hidden: bool,
    pub timestamp: i64,
}

/// Why one page fetch produced no envelope.  Both kinds are absorbed at the
/// pagination boundary: a failed page contributes zero items.
#[derive(Clone, Copy, Debug, PartialEq, Eq, Structural)]
pub enum ApiError {
    /// The transport failed before a response body was obtained.
    NetworkError,
    /// A response arrived but could not be decoded into the expected shape.
    InvalidResponse,
}

/// The outcome of holding one observed comment against the store.
#[derive(Clone, Copy, Debug, PartialEq, Eq, Structural)]
pub enum Classification {
    /// No record with this comment id existed.
    New,
    /// A record existed, with a different text.
    Updated,
    /// A record existed, with the same text.
    Unchanged,
}

impl Account {
    /// An equal copy of the account.
    pub fn duplicate(&self) -> (r: Account)
        ensures
            r == *self,
    {
        Account { id: self.id.clone(), name: self.name.clone(), is_default: self.is_default }
    }
}

impl Claim {
    /// An equal copy of the claim.
    pub fn duplicate(&self) -> (r: Claim)
        ensures
            r == *self,
    {
        Claim { id: self.id.clone(), name: self.name.clone(), timestamp: self.timestamp }
    }
}

impl Comment {
    /// An equal copy of the comment.
    pub fn duplicate(&self) -> (r: Comment)
        ensures
            r == *self,
    {
        Comment {
            id: self.id.clone(),
            claim_id: self.claim_id.clone(),
            comment: self.comment.clone(),
            commenter_id: self.commenter_id.clone(),
            commenter_name: self.commenter_name.clone(),
            commenter_url: self.commenter_url.clone(),
            is_hidden: self.is_hidden,
            timestamp: self.timestamp,
        }
    }
}

impl CommentEntity {
    /// An equal copy of the record.
    pub fn duplicate(&self) -> (r: CommentEntity)
        ensures
            r == *self,
    {
        CommentEntity {
            id: self.id.clone(),
            account_id: self.account_id.clone(),
            claim_id: self.claim_id.clone(),
            claim_name: self.claim_name.clone(),
            commenter_id: self.commenter_id.clone(),
            commenter_name: self.commenter_name.clone(),
            commenter_url: self.commenter_url.clone(),
            comment: self.comment.clone(),
            is_hidden: self.is_hidden,
            timestamp: self.timestamp,
        }
    }
}

/// The persisted record that observing `comment` under `account` / `claim`
/// gives rise to.
pub open spec fn spec_entity(account: Account, claim: Claim, comment: Comment) -> CommentEntity {
    CommentEntity {
        id: comment.id,
        account_id: account.id,
        claim_id: comment.claim_id,
        claim_name: claim.name,
        commenter_id: comment.commenter_id,
        commenter_name: comment.commenter_name,
        commenter_url: comment.commenter_url,
        comment: comment.comment,
        is_hidden: comment.is_hidden,
        timestamp: comment.timestamp,
    }
}

/// Builds the persisted record for one observed triple.
pub fn make_entity(account: &Account, claim: &Claim, comment: &Comment) -> (r: CommentEntity)
    ensures
        r == spec_entity(*account, *claim, *comment),
{
    CommentEntity {
        id: comment.id.clone(),
        account_id: account.id.clone(),
        claim_id: comment.claim_id.clone(),
        claim_name: claim.name.clone(),
        commenter_id: comment.commenter_id.clone(),
        commenter_name: comment.commenter_name.clone(),
        commenter_url: comment.commenter_url.clone(),
        comment: comment.comment.clone(),
        is_hidden: comment.is_hidden,
        timestamp: comment.timestamp,
    }
}

} // verus!
