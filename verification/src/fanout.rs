//! The hierarchical fan-out: account → claim → comment, under a bound.
//!
//! Accounts stream in; each account is expanded into its claims, and each
//! (account, claim) pair into its comments, every comment paired with the
//! account and claim it came from.  Expansions run concurrently, but never
//! more than `bound` of them per level: the caller asks
//! [`FanOut::begin_claim_expansion`] / [`FanOut::begin_comment_expansion`]
//! for the next unit of work and is refused while the level is saturated —
//! the concurrency cap is part of the contract, not a usage convention.
//! Completion order is free: results may be handed back in any order, and
//! the fan-out is complete exactly when the account stream is exhausted and
//! nothing is queued or in flight.

use vstd::prelude::*;

use crate::domain::{Account, Claim, Comment};

verus! {

/// Relies on num_cpus::get: the number of logical processing units of the
/// host, documented to always be at least 1.
#[verifier::external_body]
fn host_processing_units() -> (n: usize)
    ensures
        n >= 1,
{
    num_cpus::get()
}

/// The fan-out's book-keeping: what is queued, what is in flight, and every
/// triple produced so far.
pub struct FanOut {
    bound: usize,
    accounts_done: bool,
    pending_accounts: Vec<Account>,
    claim_expansions: usize,
    pending_pairs: Vec<(Account, Claim)>,
    comment_expansions: usize,
    triples: Vec<(Account, Claim, Comment)>,
}

impl FanOut {
    /// The per-level cap on concurrent expansions.
    pub closed spec fn bound(&self) -> usize {
        self.bound
    }

    /// Whether the account stream has ended.
    pub closed spec fn accounts_done(&self) -> bool {
        self.accounts_done
    }

    /// Accounts waiting for their claim expansion to start.
    pub closed spec fn pending_accounts(&self) -> Seq<Account> {
        self.pending_accounts@
    }

    /// Claim expansions currently in flight.
    pub closed spec fn claim_expansions(&self) -> usize {
        self.claim_expansions
    }

    /// Pairs waiting for their comment expansion to start.
    pub closed spec fn pending_pairs(&self) -> Seq<(Account, Claim)> {
        self.pending_pairs@
    }

    /// Comment expansions currently in flight.
    pub closed spec fn comment_expansions(&self) -> usize {
        self.comment_expansions
    }

    /// Every triple produced so far.
    pub closed spec fn triples(&self) -> Seq<(Account, Claim, Comment)> {
        self.triples@
    }

    /// The fan-out's invariant: neither level ever exceeds the bound.
    pub open spec fn wf(&self) -> bool {
        &&& self.bound() >= 1
        &&& self.claim_expansions() <= self.bound()
        &&& self.comment_expansions() <= self.bound()
    }

    /// An empty fan-out with the given per-level bound.
    pub fn new(bound: usize) -> (r: Self)
        requires
            bound >= 1,
        ensures
            r.wf(),
            r.bound() == bound,
            !r.accounts_done(),
            r.pending_accounts() == Seq::<Account>::empty(),
            r.claim_expansions() == 0,
            r.pending_pairs() == Seq::<(Account, Claim)>::empty(),
            r.comment_expansions() == 0,
            r.triples() == Seq::<(Account, Claim, Comment)>::empty(),
    {
        FanOut {
            bound,
            accounts_done: false,
            pending_accounts: Vec::new(),
            claim_expansions: 0,
            pending_pairs: Vec::new(),
            comment_expansions: 0,
            triples: Vec::new(),
        }
    }

    /// An empty fan-out bounded by the host's processing-unit count — the
    /// default cap.
    pub fn with_default_bound() -> (r: Self)
        ensures
            r.wf(),
            !r.accounts_done(),
            r.pending_accounts() == Seq::<Account>::empty(),
            r.claim_expansions() == 0,
            r.pending_pairs() == Seq::<(Account, Claim)>::empty(),
            r.comment_expansions() == 0,
            r.triples() == Seq::<(Account, Claim, Comment)>::empty(),
    {
        let bound: usize = host_processing_units();
        Self::new(bound)
    }

    /// Takes one account from the account stream.
    pub fn push_account(&mut self, account: Account)
        requires
            old(self).wf(),
            !old(self).accounts_done(),
        ensures
            final(self).wf(),
            final(self).pending_accounts() == old(self).pending_accounts().push(account),
            final(self).bound() == old(self).bound(),
            final(self).accounts_done() == old(self).accounts_done(),
            final(self).claim_expansions() == old(self).claim_expansions(),
            final(self).pending_pairs() == old(self).pending_pairs(),
            final(self).comment_expansions() == old(self).comment_expansions(),
            final(self).triples() == old(self).triples(),
    {
        self.pending_accounts.push(account);
    }

    /// Marks the account stream exhausted.
    pub fn accounts_exhausted(&mut self)
        requires
            old(self).wf(),
        ensures
            final(self).wf(),
            final(self).accounts_done(),
            final(self).bound() == old(self).bound(),
            final(self).pending_accounts() == old(self).pending_accounts(),
            final(self).claim_expansions() == old(self).claim_expansions(),
            final(self).pending_pairs() == old(self).pending_pairs(),
            final(self).comment_expansions() == old(self).comment_expansions(),
            final(self).triples() == old(self).triples(),
    {
        self.accounts_done = true;
    }

    /// Hands out the next account whose claims are to be fetched — unless
    /// the claim level is already running `bound` expansions, or no account
    /// waits.  Handing one out puts one more expansion in flight, and the
    /// in-flight count never passes the bound.
    pub fn begin_claim_expansion(&mut self) -> (r: Option<Account>)
        requires
            old(self).wf(),
        ensures
            final(self).wf(),
            final(self).claim_expansions() <= final(self).bound(),
            old(self).claim_expansions() < old(self).bound() && old(self).pending_accounts().len()
                > 0 ==> {
                &&& r == Some(old(self).pending_accounts()[0])
                &&& final(self).pending_accounts() == old(self).pending_accounts().drop_first()
                &&& final(self).claim_expansions() == old(self).claim_expansions() + 1
            },
            old(self).claim_expansions() >= old(self).bound() || old(self).pending_accounts().len()
                == 0 ==> r is None && *final(self) == *old(self),
            final(self).bound() == old(self).bound(),
            final(self).accounts_done() == old(self).accounts_done(),
            final(self).pending_pairs() == old(self).pending_pairs(),
            final(self).comment_expansions() == old(self).comment_expansions(),
            final(self).triples() == old(self).triples(),
    {
        if self.claim_expansions < self.bound && self.pending_accounts.len() > 0 {
            let account = self.pending_accounts.remove(0);
            self.claim_expansions = self.claim_expansions + 1;
            proof {
                assert(old(self).pending_accounts().remove(0)
                    =~= old(self).pending_accounts().drop_first());
            }
            Some(account)
        } else {
            None
        }
    }

    /// Takes the claims one expansion fetched, pairing each claim with its
    /// account and queueing the pair for comment expansion; the expansion
    /// leaves the in-flight count.
    pub fn finish_claim_expansion(&mut self, account: &Account, claims: Vec<Claim>)
        requires
            old(self).wf(),
            old(self).claim_expansions() > 0,
        ensures
            final(self).wf(),
            final(self).claim_expansions() == old(self).claim_expansions() - 1,
            final(self).pending_pairs() == old(self).pending_pairs() + claims@.map_values(
                |c: Claim| (*account, c),
            ),
            final(self).bound() == old(self).bound(),
            final(self).accounts_done() == old(self).accounts_done(),
            final(self).pending_accounts() == old(self).pending_accounts(),
            final(self).comment_expansions() == old(self).comment_expansions(),
            final(self).triples() == old(self).triples(),
    {
        self.claim_expansions = self.claim_expansions - 1;
        let mut i: usize = 0;
        proof {
            assert(old(self).pending_pairs() + claims@.take(0).map_values(|c: Claim| (*account, c))
                =~= old(self).pending_pairs());
        }
        while i < claims.len()
            invariant
                i <= claims.len(),
                self.bound == old(self).bound(),
                self.accounts_done == old(self).accounts_done(),
                self.pending_accounts@ == old(self).pending_accounts(),
                self.claim_expansions == old(self).claim_expansions() - 1,
                self.comment_expansions == old(self).comment_expansions(),
                self.triples@ == old(self).triples(),
                self.pending_pairs@ == old(self).pending_pairs() + claims@.take(
                    i as int,
                ).map_values(|c: Claim| (*account, c)),
            decreases claims.len() - i,
        {
            self.pending_pairs.push((account.duplicate(), claims[i].duplicate()));
            proof {
                assert(claims@.take(i + 1).map_values(|c: Claim| (*account, c)) =~= claims@.take(
                    i as int,
                ).map_values(|c: Claim| (*account, c)).push((*account, claims@[i as int])));
            }
            i = i + 1;
        }
        proof {
            assert(claims@.take(claims@.len() as int) =~= claims@);
        }
    }

    /// Hands out the next pair whose comments are to be fetched, under the
    /// same cap as the claim level.
    pub fn begin_comment_expansion(&mut self) -> (r: Option<(Account, Claim)>)
        requires
            old(self).wf(),
        ensures
            final(self).wf(),
            final(self).comment_expansions() <= final(self).bound(),
            old(self).comment_expansions() < old(self).bound() && old(self).pending_pairs().len()
                > 0 ==> {
                &&& r == Some(old(self).pending_pairs()[0])
                &&& final(self).pending_pairs() == old(self).pending_pairs().drop_first()
                &&& final(self).comment_expansions() == old(self).comment_expansions() + 1
            },
            old(self).comment_expansions() >= old(self).bound() || old(self).pending_pairs().len()
                == 0 ==> r is None && *final(self) == *old(self),
            final(self).bound() == old(self).bound(),
            final(self).accounts_done() == old(self).accounts_done(),
            final(self).pending_accounts() == old(self).pending_accounts(),
            final(self).claim_expansions() == old(self).claim_expansions(),
            final(self).triples() == old(self).triples(),
    {
        if self.comment_expansions < self.bound && self.pending_pairs.len() > 0 {
            let pair = self.pending_pairs.remove(0);
            self.comment_expansions = self.comment_expansions + 1;
            proof {
                assert(old(self).pending_pairs().remove(0)
                    =~= old(self).pending_pairs().drop_first());
            }
            Some(pair)
        } else {
            None
        }
    }

    /// Takes the comments one expansion fetched, pairing every comment with
    /// the account and claim it came from; the expansion leaves the
    /// in-flight count.
    pub fn finish_comment_expansion(&mut self, account: &Account, claim: &Claim, comments: Vec<Comment>)
        requires
            old(self).wf(),
            old(self).comment_expansions() > 0,
        ensures
            final(self).wf(),
            final(self).comment_expansions() == old(self).comment_expansions() - 1,
            final(self).triples() == old(self).triples() + comments@.map_values(
                |c: Comment| (*account, *claim, c),
            ),
            final(self).bound() == old(self).bound(),
            final(self).accounts_done() == old(self).accounts_done(),
            final(self).pending_accounts() == old(self).pending_accounts(),
            final(self).claim_expansions() == old(self).claim_expansions(),
            final(self).pending_pairs() == old(self).pending_pairs(),
    {
        self.comment_expansions = self.comment_expansions - 1;
        let mut i: usize = 0;
        proof {
            assert(old(self).triples() + comments@.take(0).map_values(
                |c: Comment| (*account, *claim, c),
            ) =~= old(self).triples());
        }
        while i < comments.len()
            invariant
                i <= comments.len(),
                self.bound == old(self).bound(),
                self.accounts_done == old(self).accounts_done(),
                self.pending_accounts@ == old(self).pending_accounts(),
                self.claim_expansions == old(self).claim_expansions(),
                self.comment_expansions == old(self).comment_expansions() - 1,
                self.pending_pairs@ == old(self).pending_pairs(),
                self.triples@ == old(self).triples() + comments@.take(i as int).map_values(
                    |c: Comment| (*account, *claim, c),
                ),
            decreases comments.len() - i,
        {
            self.triples.push((account.duplicate(), claim.duplicate(), comments[i].duplicate()));
            proof {
                assert(comments@.take(i + 1).map_values(|c: Comment| (*account, *claim, c))
                    =~= comments@.take(i as int).map_values(|c: Comment| (*account, *claim, c)).push(
                    (*account, *claim, comments@[i as int]),
                ));
            }
            i = i + 1;
        }
        proof {
            assert(comments@.take(comments@.len() as int) =~= comments@);
        }
    }

    /// Whether the fan-out has terminated: the account stream ended and
    /// every spawned expansion — including ones still in flight when it
    /// ended — has completed.
    pub fn is_complete(&self) -> (r: bool)
        ensures
            r == (self.accounts_done() && self.pending_accounts().len() == 0
                && self.claim_expansions() == 0 && self.pending_pairs().len() == 0
                && self.comment_expansions() == 0),
    {
        self.accounts_done && self.pending_accounts.len() == 0 && self.claim_expansions == 0
            && self.pending_pairs.len() == 0 && self.comment_expansions == 0
    }

    /// How many claim expansions are in flight, for instrumentation.
    pub fn claim_expansions_in_flight(&self) -> (r: usize)
        ensures
            r == self.claim_expansions(),
    {
        self.claim_expansions
    }

    /// How many comment expansions are in flight, for instrumentation.
    pub fn comment_expansions_in_flight(&self) -> (r: usize)
        ensures
            r == self.comment_expansions(),
    {
        self.comment_expansions
    }

    /// The configured per-level bound, for instrumentation.
    pub fn configured_bound(&self) -> (r: usize)
        ensures
            r == self.bound(),
    {
        self.bound
    }

    /// Gives the fan-out up and keeps the produced triples.
    pub fn into_triples(self) -> (r: Vec<(Account, Claim, Comment)>)
        ensures
            r@ == self.triples(),
    {
        self.triples
    }
}

/// The concurrency-bound law: in every well-formed fan-out state — and
/// every method keeps the state well-formed — the number of claim
/// expansions in flight and the number of comment expansions in flight are
/// each at most the configured bound.
pub proof fn lemma_fanout_bounded(f: FanOut)
    requires
        f.wf(),
    ensures
        f.claim_expansions() <= f.bound(),
        f.comment_expansions() <= f.bound(),
{
}

} // verus!
