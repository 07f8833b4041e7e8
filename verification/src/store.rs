//! The persisted store's read/write contract, modelled in memory.
//!
//! The store is the sole authority on "have we already notified for this
//! comment": one record per comment id.  This module gives the pipeline the
//! exact contract it relies on — insert one record, find by id, delete by
//! id — over a record list whose ids are unique.  How the records survive
//! between runs (a database, a file) is the caller's business; the caller
//! loads them through [`Storage::insert_record`] and reads them back through
//! [`Storage::all_records`].

use vstd::prelude::*;

use crate::domain::{Account, Claim, Comment, CommentEntity};
use crate::domain::{make_entity, spec_entity};

verus! {

/// The record holding `id`, scanning from the back of the list.  With unique
/// ids the direction does not matter; recursing over the back makes insertion
/// at the back the easy case.
pub open spec fn find_rec(records: Seq<CommentEntity>, id: Seq<char>) -> Option<CommentEntity>
    decreases records.len(),
{
    if records.len() == 0 {
        None
    } else if records.last().id@ == id {
        Some(records.last())
    } else {
        find_rec(records.drop_last(), id)
    }
}

/// The record list without any record holding `id`, order otherwise kept.
pub open spec fn remove_rec(records: Seq<CommentEntity>, id: Seq<char>) -> Seq<CommentEntity>
    decreases records.len(),
{
    if records.len() == 0 {
        records
    } else if records.last().id@ == id {
        remove_rec(records.drop_last(), id)
    } else {
        remove_rec(records.drop_last(), id).push(records.last())
    }
}

/// No two records share an id.
pub open spec fn unique_ids(records: Seq<CommentEntity>) -> bool {
    forall|i: int, j: int| 0 <= i < j < records.len() ==> records[i].id@ != records[j].id@
}

/// `find_rec` misses exactly when no record holds the id.
pub proof fn lemma_find_rec_absent(records: Seq<CommentEntity>, id: Seq<char>)
    ensures
        find_rec(records, id) is None <==> (forall|i: int|
            0 <= i < records.len() ==> records[i].id@ != id),
    decreases records.len(),
{
    if records.len() > 0 {
        lemma_find_rec_absent(records.drop_last(), id);
        if records.last().id@ != id {
            if forall|i: int| 0 <= i < records.drop_last().len() ==> records.drop_last()[i].id@ != id {
                assert forall|i: int| 0 <= i < records.len() implies records[i].id@ != id by {
                    if i < records.len() - 1 {
                        assert(records.drop_last()[i].id@ != id);
                    }
                }
            }
        }
    }
}

/// What `remove_rec` leaves behind: only records of other ids, each one taken
/// from the list it came from, uniqueness kept, and every other id found as
/// before.
pub proof fn lemma_remove_rec_props(records: Seq<CommentEntity>, id: Seq<char>)
    ensures
        remove_rec(records, id).len() <= records.len(),
        forall|j: int| 0 <= j < remove_rec(records, id).len()
            ==> (#[trigger] remove_rec(records, id)[j]).id@ != id,
        forall|j: int| 0 <= j < remove_rec(records, id).len()
            ==> records.contains(#[trigger] remove_rec(records, id)[j]),
        unique_ids(records) ==> unique_ids(remove_rec(records, id)),
    decreases records.len(),
{
    if records.len() > 0 {
        let rest = records.drop_last();
        lemma_remove_rec_props(rest, id);
        assert forall|j: int| 0 <= j < remove_rec(rest, id).len() implies records.contains(
            #[trigger] remove_rec(rest, id)[j],
        ) by {
            let w = choose|w: int| 0 <= w < rest.len() && rest[w] == remove_rec(rest, id)[j];
            assert(records[w] == remove_rec(rest, id)[j]);
        }
        if records.last().id@ != id {
            let kept = remove_rec(rest, id).push(records.last());
            assert(records.contains(records.last()));
            if unique_ids(records) {
                assert(unique_ids(rest)) by {
                    assert forall|i: int, j: int| 0 <= i < j < rest.len() implies rest[i].id@
                        != rest[j].id@ by {
                        assert(records[i].id@ != records[j].id@);
                    }
                }
                assert forall|i: int, j: int| 0 <= i < j < kept.len() implies kept[i].id@
                    != kept[j].id@ by {
                    if j < kept.len() - 1 {
                        assert(remove_rec(rest, id)[i].id@ != remove_rec(rest, id)[j].id@);
                    } else {
                        let w = choose|w: int|
                            0 <= w < rest.len() && rest[w] == remove_rec(rest, id)[i];
                        assert(records[w].id@ != records[records.len() - 1].id@);
                    }
                }
            }
        }
    }
}

/// Removing one id leaves every other id's lookup unchanged.
pub proof fn lemma_remove_rec_find_other(records: Seq<CommentEntity>, id: Seq<char>, other: Seq<char>)
    requires
        id != other,
    ensures
        find_rec(remove_rec(records, id), other) == find_rec(records, other),
    decreases records.len(),
{
    if records.len() > 0 {
        let rest = records.drop_last();
        lemma_remove_rec_find_other(rest, id, other);
        if records.last().id@ != id {
            let kept = remove_rec(rest, id).push(records.last());
            assert(kept.drop_last() =~= remove_rec(rest, id));
        }
    }
}

/// Looking a pushed record up: its own id hits it, any other id looks past
/// it.
pub proof fn lemma_find_rec_push(records: Seq<CommentEntity>, entity: CommentEntity, id: Seq<char>)
    ensures
        find_rec(records.push(entity), id) == if entity.id@ == id {
            Some(entity)
        } else {
            find_rec(records, id)
        },
{
    assert(records.push(entity).drop_last() =~= records);
}

/// The store: one record per comment id.
pub struct Storage {
    records: Vec<CommentEntity>,
}

impl Storage {
    /// The records the store holds, in insertion order.
    pub closed spec fn records(&self) -> Seq<CommentEntity> {
        self.records@
    }

    /// The store's invariant: ids are unique.
    pub open spec fn wf(&self) -> bool {
        unique_ids(self.records())
    }

    /// An empty store.
    pub fn new() -> (r: Self)
        ensures
            r.records() == Seq::<CommentEntity>::empty(),
            r.wf(),
    {
        Storage { records: Vec::new() }
    }

    /// The record persisted for `comment_id`, if one exists.
    pub fn get_comment_by_id(&self, comment_id: String) -> (r: Option<CommentEntity>)
        ensures
            r == find_rec(self.records(), comment_id@),
    {
        let mut i: usize = self.records.len();
        proof {
            assert(self.records@.take(self.records@.len() as int) =~= self.records@);
        }
        while i > 0
            invariant
                i <= self.records.len(),
                find_rec(self.records@, comment_id@) == find_rec(
                    self.records@.take(i as int),
                    comment_id@,
                ),
            decreases i,
        {
            i = i - 1;
            proof {
                assert(self.records@.take(i + 1).drop_last() =~= self.records@.take(i as int));
                assert(self.records@.take(i + 1).last() == self.records@[i as int]);
            }
            if self.records[i].id == comment_id {
                return Some(self.records[i].duplicate());
            }
        }
        None
    }

    /// Persists the record for one observed triple.  The caller has
    /// established that no record with the comment's id exists; the new
    /// record is built from the triple and appended.
    pub fn save_comment(&mut self, account: &Account, claim: &Claim, comment: &Comment) -> (r:
        CommentEntity)
        requires
            old(self).wf(),
            find_rec(old(self).records(), comment.id@) is None,
        ensures
            final(self).wf(),
            r == spec_entity(*account, *claim, *comment),
            final(self).records() == old(self).records().push(r),
    {
        let entity = make_entity(account, claim, comment);
        let record = entity.duplicate();
        proof {
            lemma_find_rec_absent(self.records@, comment.id@);
        }
        self.records.push(record);
        entity
    }

    /// Deletes the record holding `comment_id`; a miss deletes nothing.
    pub fn delete_comment_by_id(&mut self, comment_id: String)
        requires
            old(self).wf(),
        ensures
            final(self).wf(),
            final(self).records() == remove_rec(old(self).records(), comment_id@),
    {
        let mut kept: Vec<CommentEntity> = Vec::new();
        let mut i: usize = 0;
        while i < self.records.len()
            invariant
                i <= self.records.len(),
                kept@ == remove_rec(self.records@.take(i as int), comment_id@),
            decreases self.records.len() - i,
        {
            proof {
                assert(self.records@.take(i + 1).drop_last() =~= self.records@.take(i as int));
                assert(self.records@.take(i + 1).last() == self.records@[i as int]);
            }
            if self.records[i].id != comment_id {
                kept.push(self.records[i].duplicate());
            }
            i = i + 1;
        }
        proof {
            assert(self.records@.take(self.records@.len() as int) =~= self.records@);
            lemma_remove_rec_props(self.records@, comment_id@);
        }
        self.records = kept;
    }

    /// Takes one already-built record in, used to reload persisted state.
    /// The record is kept only when its id is still free, so reloading can
    /// never break the store's invariant.
    pub fn insert_record(&mut self, record: CommentEntity) -> (r: bool)
        requires
            old(self).wf(),
        ensures
            final(self).wf(),
            r == (find_rec(old(self).records(), record.id@) is None),
            r ==> final(self).records() == old(self).records().push(record),
            !r ==> final(self).records() == old(self).records(),
    {
        let existing = self.get_comment_by_id(record.id.clone());
        match existing {
            Some(_) => false,
            None => {
                proof {
                    lemma_find_rec_absent(self.records@, record.id@);
                }
                self.records.push(record);
                true
            },
        }
    }

    /// Every record the store holds, for the caller to persist.
    pub fn all_records(&self) -> (r: &Vec<CommentEntity>)
        ensures
            r@ == self.records(),
    {
        &self.records
    }
}

} // verus!
