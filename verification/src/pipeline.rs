//! The change detector: classifying each observed triple against the store
//! and applying the matching mutation.
//!
//! For one `(account, claim, comment)` triple the detector looks the comment
//! id up, classifies the comment as new, updated or unchanged, mutates the
//! store accordingly — insert for a new comment, delete-then-insert for a
//! changed text, nothing for an unchanged one — and hands the freshly
//! persisted record on for notification when there is one.  Change is defined
//! solely by text inequality; no other field triggers an update.
//!
//! At the bottom stands the idempotence law: one run brings the store in
//! sync with what was observed, so running the very same observations again
//! mutates nothing and notifies nobody.

use vstd::prelude::*;

use crate::domain::{Account, Claim, Classification, Comment, CommentEntity};
use crate::domain::spec_entity;
use crate::sink::NotificationSink;
use crate::store::{
    find_rec, lemma_find_rec_absent, lemma_find_rec_push, lemma_remove_rec_find_other,
    lemma_remove_rec_props, remove_rec, Storage,
};

verus! {

/// How a comment relates to what the store already holds for its id.
pub open spec fn spec_classify(existing: Option<CommentEntity>, comment: Comment) -> Classification {
    match existing {
        None => Classification::New,
        Some(e) => if e.comment@ == comment.comment@ {
            Classification::Unchanged
        } else {
            Classification::Updated
        },
    }
}

/// Classifies one observed comment against the record its id looked up.
pub fn classify(existing: &Option<CommentEntity>, comment: &Comment) -> (r: Classification)
    ensures
        r == spec_classify(*existing, *comment),
{
    match existing {
        None => Classification::New,
        Some(e) => {
            if e.comment == comment.comment {
                Classification::Unchanged
            } else {
                Classification::Updated
            }
        },
    }
}

/// What processing one triple does to the record list, and the record it
/// forwards for notification: a new comment is inserted and forwarded, a
/// changed text replaces the old record (delete, then insert under the same
/// id) and is forwarded, an unchanged comment leaves the store alone and
/// forwards nothing.
pub open spec fn spec_process(
    records: Seq<CommentEntity>,
    account: Account,
    claim: Claim,
    comment: Comment,
) -> (Seq<CommentEntity>, Option<CommentEntity>) {
    let entity = spec_entity(account, claim, comment);
    match find_rec(records, comment.id@) {
        None => (records.push(entity), Some(entity)),
        Some(e) => if e.comment@ == comment.comment@ {
            (records, None)
        } else {
            (remove_rec(records, comment.id@).push(entity), Some(entity))
        },
    }
}

/// Classifies one triple and applies the matching store mutation; returns
/// the classification and the record to notify for, if any.
pub fn process_comment(
    storage: &mut Storage,
    account: &Account,
    claim: &Claim,
    comment: &Comment,
) -> (r: (Classification, Option<CommentEntity>))
    requires
        old(storage).wf(),
    ensures
        final(storage).wf(),
        r.0 == spec_classify(find_rec(old(storage).records(), comment.id@), *comment),
        (final(storage).records(), r.1) == spec_process(
            old(storage).records(),
            *account,
            *claim,
            *comment,
        ),
{
    let existing = storage.get_comment_by_id(comment.id.clone());
    let classification = classify(&existing, comment);
    match classification {
        Classification::Unchanged => (classification, None),
        Classification::New => {
            let entity = storage.save_comment(account, claim, comment);
            (classification, Some(entity))
        },
        Classification::Updated => {
            storage.delete_comment_by_id(comment.id.clone());
            proof {
                lemma_remove_rec_props(old(storage).records(), comment.id@);
                lemma_find_rec_absent(storage.records(), comment.id@);
            }
            let entity = storage.save_comment(account, claim, comment);
            (classification, Some(entity))
        },
    }
}

/// What a whole run does: the record list after every triple is processed in
/// order, and the forwarded records in that same order.
pub open spec fn spec_run(
    records: Seq<CommentEntity>,
    triples: Seq<(Account, Claim, Comment)>,
) -> (Seq<CommentEntity>, Seq<CommentEntity>)
    decreases triples.len(),
{
    if triples.len() == 0 {
        (records, Seq::empty())
    } else {
        let t = triples[0];
        let step = spec_process(records, t.0, t.1, t.2);
        let rest = spec_run(step.0, triples.drop_first());
        (
            rest.0,
            match step.1 {
                Some(e) => seq![e] + rest.1,
                None => rest.1,
            },
        )
    }
}

/// Processes every observed triple in order and returns the records to
/// notify for, one per new or updated comment, in processing order.
pub fn run_detection(
    storage: &mut Storage,
    triples: &Vec<(Account, Claim, Comment)>,
) -> (notifications: Vec<CommentEntity>)
    requires
        old(storage).wf(),
    ensures
        final(storage).wf(),
        final(storage).records() == spec_run(old(storage).records(), triples@).0,
        notifications@ == spec_run(old(storage).records(), triples@).1,
{
    let ghost full = spec_run(old(storage).records(), triples@);
    let mut notifications: Vec<CommentEntity> = Vec::new();
    let mut i: usize = 0;
    proof {
        assert(triples@.skip(0) =~= triples@);
    }
    while i < triples.len()
        invariant
            i <= triples.len(),
            storage.wf(),
            full == spec_run(old(storage).records(), triples@),
            full.0 == spec_run(storage.records(), triples@.skip(i as int)).0,
            full.1 == notifications@ + spec_run(storage.records(), triples@.skip(i as int)).1,
        decreases triples.len() - i,
    {
        let ghost rest = triples@.skip(i as int);
        proof {
            assert(rest[0] == triples@[i as int]);
            assert(rest.drop_first() =~= triples@.skip(i + 1));
        }
        let triple = &triples[i];
        let step = process_comment(storage, &triple.0, &triple.1, &triple.2);
        match step.1 {
            Some(entity) => {
                proof {
                    let tail = spec_run(storage.records(), triples@.skip(i + 1)).1;
                    assert(notifications@ + (seq![entity] + tail) =~= notifications@.push(entity)
                        + tail);
                }
                notifications.push(entity);
            },
            None => {},
        }
        i = i + 1;
    }
    proof {
        assert(triples@.skip(triples@.len() as int) =~= Seq::<(Account, Claim, Comment)>::empty());
        assert(notifications@ + Seq::<CommentEntity>::empty() =~= notifications@);
    }
    notifications
}

/// One detection pass feeding the sink: every observed triple is classified
/// and persisted, and exactly the new or updated records are queued for
/// delivery, in processing order.
pub fn notify_new_comments(
    storage: &mut Storage,
    triples: &Vec<(Account, Claim, Comment)>,
    sink: &mut NotificationSink,
)
    requires
        old(storage).wf(),
        old(sink).wf(),
    ensures
        final(storage).wf(),
        final(sink).wf(),
        final(storage).records() == spec_run(old(storage).records(), triples@).0,
        final(sink).queued() == old(sink).queued() + spec_run(old(storage).records(), triples@).1,
        final(sink).delivered() == old(sink).delivered(),
        final(sink).in_flight() == old(sink).in_flight(),
{
    let notifications = run_detection(storage, triples);
    let mut i: usize = 0;
    proof {
        assert(old(sink).queued() + notifications@.take(0) =~= old(sink).queued());
    }
    while i < notifications.len()
        invariant
            i <= notifications.len(),
            sink.wf(),
            sink.queued() == old(sink).queued() + notifications@.take(i as int),
            sink.delivered() == old(sink).delivered(),
            sink.in_flight() == old(sink).in_flight(),
        decreases notifications.len() - i,
    {
        sink.enqueue(notifications[i].duplicate());
        proof {
            assert(old(sink).queued() + notifications@.take(i + 1) =~= (old(sink).queued()
                + notifications@.take(i as int)).push(notifications@[i as int]));
        }
        i = i + 1;
    }
    proof {
        assert(notifications@.take(notifications@.len() as int) =~= notifications@);
    }
}

/// No two triples observe the same comment id — what one pass over an
/// unchanged upstream delivers, since each comment lives under one claim.
pub open spec fn distinct_comment_ids(triples: Seq<(Account, Claim, Comment)>) -> bool {
    forall|i: int, j: int| 0 <= i < j < triples.len() ==> triples[i].2.id@ != triples[j].2.id@
}

/// The store already reflects the triple: its comment id is persisted with
/// the observed text.
pub open spec fn in_sync(records: Seq<CommentEntity>, t: (Account, Claim, Comment)) -> bool {
    match find_rec(records, t.2.id@) {
        Some(e) => e.comment@ == t.2.comment@,
        None => false,
    }
}

/// Processing a triple leaves every other comment id's lookup unchanged.
proof fn lemma_process_find_other(
    records: Seq<CommentEntity>,
    account: Account,
    claim: Claim,
    comment: Comment,
    other: Seq<char>,
)
    requires
        other != comment.id@,
    ensures
        find_rec(spec_process(records, account, claim, comment).0, other) == find_rec(
            records,
            other,
        ),
{
    let entity = spec_entity(account, claim, comment);
    lemma_find_rec_push(records, entity, other);
    lemma_remove_rec_find_other(records, comment.id@, other);
    lemma_find_rec_push(remove_rec(records, comment.id@), entity, other);
}

/// After a triple is processed, the store reflects it.
proof fn lemma_process_in_sync(
    records: Seq<CommentEntity>,
    account: Account,
    claim: Claim,
    comment: Comment,
)
    ensures
        in_sync(spec_process(records, account, claim, comment).0, (account, claim, comment)),
{
    let entity = spec_entity(account, claim, comment);
    lemma_find_rec_push(records, entity, comment.id@);
    lemma_find_rec_push(remove_rec(records, comment.id@), entity, comment.id@);
}

/// A run leaves every comment id it never observed alone.
proof fn lemma_run_find_other(
    records: Seq<CommentEntity>,
    triples: Seq<(Account, Claim, Comment)>,
    other: Seq<char>,
)
    requires
        forall|k: int| 0 <= k < triples.len() ==> (#[trigger] triples[k]).2.id@ != other,
    ensures
        find_rec(spec_run(records, triples).0, other) == find_rec(records, other),
    decreases triples.len(),
{
    if triples.len() > 0 {
        let t = triples[0];
        lemma_process_find_other(records, t.0, t.1, t.2, other);
        assert forall|k: int| 0 <= k < triples.drop_first().len() implies (#[trigger] triples.drop_first()[k]).2.id@
            != other by {
            assert(triples[k + 1].2.id@ != other);
        }
        lemma_run_find_other(spec_process(records, t.0, t.1, t.2).0, triples.drop_first(), other);
    }
}

/// After one run over triples with distinct comment ids, the store reflects
/// every one of them.
proof fn lemma_run_in_sync(records: Seq<CommentEntity>, triples: Seq<(Account, Claim, Comment)>)
    requires
        distinct_comment_ids(triples),
    ensures
        forall|k: int| 0 <= k < triples.len() ==> in_sync(
            spec_run(records, triples).0,
            #[trigger] triples[k],
        ),
    decreases triples.len(),
{
    if triples.len() > 0 {
        let t = triples[0];
        let after = spec_process(records, t.0, t.1, t.2).0;
        let rest = triples.drop_first();
        assert(distinct_comment_ids(rest)) by {
            assert forall|i: int, j: int| 0 <= i < j < rest.len() implies rest[i].2.id@
                != rest[j].2.id@ by {
                assert(triples[i + 1].2.id@ != triples[j + 1].2.id@);
            }
        }
        lemma_run_in_sync(after, rest);
        lemma_process_in_sync(records, t.0, t.1, t.2);
        assert forall|k: int| 0 <= k < rest.len() implies (#[trigger] rest[k]).2.id@ != t.2.id@ by {
            assert(triples[k + 1].2.id@ != triples[0].2.id@);
        }
        lemma_run_find_other(after, rest, t.2.id@);
        assert forall|k: int| 0 <= k < triples.len() implies in_sync(
            spec_run(records, triples).0,
            #[trigger] triples[k],
        ) by {
            if k > 0 {
                assert(in_sync(spec_run(after, rest).0, rest[k - 1]));
            }
        }
    }
}

/// A run over triples the store already reflects does nothing: no store
/// mutation, no notification.
proof fn lemma_run_noop(records: Seq<CommentEntity>, triples: Seq<(Account, Claim, Comment)>)
    requires
        forall|k: int| 0 <= k < triples.len() ==> in_sync(records, #[trigger] triples[k]),
    ensures
        spec_run(records, triples) == (records, Seq::<CommentEntity>::empty()),
    decreases triples.len(),
{
    if triples.len() > 0 {
        let t = triples[0];
        assert(in_sync(records, t));
        assert(spec_process(records, t.0, t.1, t.2) == (records, None::<CommentEntity>));
        assert forall|k: int| 0 <= k < triples.drop_first().len() implies in_sync(
            records,
            #[trigger] triples.drop_first()[k],
        ) by {
            assert(in_sync(records, triples[k + 1]));
        }
        lemma_run_noop(records, triples.drop_first());
    }
}

/// Idempotence.  Against an unchanged upstream — the same triples, one per
/// comment id — a second run adds no record, removes no record, and forwards
/// zero notifications.
pub proof fn lemma_run_idempotent(
    records: Seq<CommentEntity>,
    triples: Seq<(Account, Claim, Comment)>,
)
    requires
        distinct_comment_ids(triples),
    ensures
        spec_run(spec_run(records, triples).0, triples).0 == spec_run(records, triples).0,
        spec_run(spec_run(records, triples).0, triples).1 == Seq::<CommentEntity>::empty(),
{
    lemma_run_in_sync(records, triples);
    lemma_run_noop(spec_run(records, triples).0, triples);
}

} // verus!
