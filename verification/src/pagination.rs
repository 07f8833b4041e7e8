//! Collecting one paginated remote result set.
//!
//! The remote API answers one query a page at a time; every answer carries
//! the total page count.  A `PaginatedCollector` is the decision half of that
//! stream: the caller fetches page 1, hands the outcome to [`PaginatedCollector::start`],
//! then fetches the remaining pages in any order — concurrently if it likes —
//! and hands each outcome to [`PaginatedCollector::deliver`].  The collector
//! tracks which pages are still owed and accumulates the items.
//!
//! A failed fetch is absorbed, never propagated: a failed first page ends the
//! stream with zero items, and a failed later page contributes an empty item
//! set while every other page still counts.  Items keep their order within a
//! page; across pages only page 1 is guaranteed to come first, so the law at
//! the bottom of this file speaks of multisets: whatever order the deliveries
//! arrive in, the collected items are exactly the union of the delivered
//! pages' items.

use vstd::multiset::Multiset;
use vstd::prelude::*;

use crate::domain::ApiError;

verus! {

/// One page envelope as the remote API returns it: the page's items plus the
/// paging bookkeeping that lets the caller know how many pages exist.
pub struct PaginatedApiResult<A> {
    pub items: Vec<A>,
    pub page: usize,
    pub page_size: usize,
    pub total_items: usize,
    pub total_pages: usize,
}

/// The pages still owed after a successful first page: `2, 3, ..., total`.
pub open spec fn remaining_pages(total: usize) -> Seq<usize> {
    Seq::new(
        if total < 2 {
            0
        } else {
            (total - 1) as nat
        },
        |i: int| (i + 2) as usize,
    )
}

/// The items one fetch outcome contributes: a failed page contributes none.
pub open spec fn page_batch<A>(fetched: Result<PaginatedApiResult<A>, ApiError>) -> Seq<A> {
    match fetched {
        Ok(envelope) => envelope.items@,
        Err(_) => Seq::empty(),
    }
}

/// The items a whole batch of fetch outcomes contributes, in delivery order.
pub open spec fn batches_of<A>(
    deliveries: Seq<(usize, Result<PaginatedApiResult<A>, ApiError>)>,
) -> Seq<A>
    decreases deliveries.len(),
{
    if deliveries.len() == 0 {
        Seq::empty()
    } else {
        batches_of(deliveries.drop_last()) + page_batch(deliveries.last().1)
    }
}

/// The consuming end of one paginated query: which pages are still owed, and
/// every item delivered so far.
pub struct PaginatedCollector<A> {
    started: bool,
    total_pages: usize,
    pending: Vec<usize>,
    collected: Vec<A>,
}

impl<A> PaginatedCollector<A> {
    /// Whether the first page's outcome has been handed in.
    pub closed spec fn started(&self) -> bool {
        self.started
    }

    /// The total page count the first page reported; zero before the first
    /// page, and zero when the first page failed.
    pub closed spec fn total(&self) -> usize {
        self.total_pages
    }

    /// The page numbers whose outcome is still owed.
    pub closed spec fn pending(&self) -> Seq<usize> {
        self.pending@
    }

    /// Every item delivered so far, page 1's items first.
    pub closed spec fn collected(&self) -> Seq<A> {
        self.collected@
    }

    /// The collector's invariant: no page is owed twice.
    pub open spec fn wf(&self) -> bool {
        forall|i: int, j: int| 0 <= i < j < self.pending().len() ==> self.pending()[i]
            != self.pending()[j]
    }

    /// A collector that has not seen its first page yet.
    pub fn new() -> (r: Self)
        ensures
            r.wf(),
            !r.started(),
            r.total() == 0,
            r.pending() == Seq::<usize>::empty(),
            r.collected() == Seq::<A>::empty(),
    {
        PaginatedCollector { started: false, total_pages: 0, pending: Vec::new(), collected: Vec::new() }
    }

    /// Hands in the outcome of fetching page 1.  On success the page's items
    /// are kept and pages `2..=total_pages` become owed; on failure the
    /// stream is over with zero items — the error is absorbed.
    pub fn start(&mut self, first: Result<PaginatedApiResult<A>, ApiError>)
        requires
            !old(self).started(),
        ensures
            final(self).wf(),
            final(self).started(),
            final(self).collected() == page_batch(first),
            (first matches Ok(envelope) ==> {
                &&& final(self).total() == envelope.total_pages
                &&& final(self).pending() == remaining_pages(envelope.total_pages)
            }),
            (first matches Err(_) ==> {
                &&& final(self).total() == 0
                &&& final(self).pending() == Seq::<usize>::empty()
            }),
    {
        match first {
            Ok(envelope) => {
                let total: usize = envelope.total_pages;
                self.collected = envelope.items;
                self.total_pages = total;
                self.pending = Vec::new();
                if total >= 2 {
                    let mut i: usize = 0;
                    while i < total - 1
                        invariant
                            total >= 2,
                            i <= total - 1,
                            self.total_pages == total,
                            self.collected@ == page_batch(first),
                            self.pending@ == remaining_pages(total).take(i as int),
                        decreases total - 1 - i,
                    {
                        self.pending.push(i + 2);
                        proof {
                            assert(remaining_pages(total).take(i + 1)
                                =~= remaining_pages(total).take(i as int).push((i + 2) as usize));
                        }
                        i = i + 1;
                    }
                    proof {
                        assert(remaining_pages(total).take(total - 1) =~= remaining_pages(total));
                    }
                }
                proof {
                    if total < 2 {
                        assert(self.pending@ =~= remaining_pages(total));
                    }
                }
            },
            Err(_) => {
                self.collected = Vec::new();
                self.total_pages = 0;
                self.pending = Vec::new();
                proof {
                    assert(page_batch(first) =~= Seq::<A>::empty());
                }
            },
        }
        self.started = true;
    }

    /// The pages whose outcome is still owed; the caller may fetch them in
    /// any order and deliver each outcome once.
    pub fn pending_pages(&self) -> (r: &Vec<usize>)
        ensures
            r@ == self.pending(),
    {
        &self.pending
    }

    /// Hands in the outcome of fetching one owed page.  The page stops being
    /// owed either way; its items are appended on success, and a failure
    /// contributes nothing — the error is absorbed and every other page is
    /// unaffected.
    pub fn deliver(&mut self, page: usize, fetched: Result<PaginatedApiResult<A>, ApiError>)
        requires
            old(self).wf(),
            old(self).started(),
            old(self).pending().contains(page),
        ensures
            final(self).wf(),
            final(self).started(),
            final(self).total() == old(self).total(),
            final(self).pending() == old(self).pending().remove_value(page),
            final(self).pending().len() == old(self).pending().len() - 1,
            !final(self).pending().contains(page),
            forall|q: usize| q != page ==> (final(self).pending().contains(q) <==> old(
                self,
            ).pending().contains(q)),
            final(self).collected() == old(self).collected() + page_batch(fetched),
    {
        let ghost old_pending = self.pending@;
        let mut i: usize = 0;
        while i < self.pending.len() && self.pending[i] != page
            invariant
                self == old(self),
                old(self).pending().contains(page),
                i <= self.pending.len(),
                forall|j: int| 0 <= j < i ==> self.pending@[j] != page,
            decreases self.pending.len() - i,
        {
            i = i + 1;
        }
        proof {
            assert(i < old_pending.len() && old_pending[i as int] == page) by {
                if i >= old_pending.len() {
                    let w = choose|w: int| 0 <= w < old_pending.len() && old_pending[w] == page;
                    assert(old_pending[w] != page);
                }
            }
            old_pending.index_of_first_ensures(page);
            match old_pending.index_of_first(page) {
                Some(k) => {
                    assert(k == i) by {
                        if k < i {
                            assert(old_pending[k] != page);
                        }
                        if i < k {
                            assert(old_pending[i as int] != page);
                        }
                    }
                },
                None => {},
            }
        }
        self.pending.remove(i);
        proof {
            let trimmed = old_pending.remove(i as int);
            old_pending.remove_ensures(i as int);
            assert forall|q: usize| q != page implies (trimmed.contains(q) <==> old_pending.contains(
                q,
            )) by {
                if trimmed.contains(q) {
                    let w = choose|w: int| 0 <= w < trimmed.len() && trimmed[w] == q;
                    if w < i {
                        assert(old_pending[w] == q);
                    } else {
                        assert(old_pending[w + 1] == q);
                    }
                }
                if old_pending.contains(q) {
                    let w = choose|w: int| 0 <= w < old_pending.len() && old_pending[w] == q;
                    if w < i {
                        assert(trimmed[w] == q);
                    } else {
                        assert(trimmed[w - 1] == q);
                    }
                }
            }
            assert forall|x: int, y: int| 0 <= x < y < trimmed.len() implies trimmed[x]
                != trimmed[y] by {
                let x0: int = if x < i { x } else { x + 1 };
                let y0: int = if y < i { y } else { y + 1 };
                assert(trimmed[x] == old_pending[x0]);
                assert(trimmed[y] == old_pending[y0]);
                assert(old_pending[x0] != old_pending[y0]);
            }
            assert(!trimmed.contains(page)) by {
                if trimmed.contains(page) {
                    let w = choose|w: int| 0 <= w < trimmed.len() && trimmed[w] == page;
                    let w0: int = if w < i { w } else { w + 1 };
                    assert(trimmed[w] == old_pending[w0]);
                    assert(old_pending[i as int] == page);
                    if w0 < i {
                        assert(old_pending[w0] != old_pending[i as int]);
                    } else {
                        assert(old_pending[i as int] != old_pending[w0]);
                    }
                }
            }
        }
        match fetched {
            Ok(envelope) => {
                let mut items = envelope.items;
                self.collected.append(&mut items);
            },
            Err(_) => {
                proof {
                    assert(self.collected@ =~= self.collected@ + page_batch(fetched));
                }
            },
        }
    }

    /// Hands in the outcomes of a whole batch of owed pages, in whatever
    /// order they completed.  Exactly those pages stop being owed, and the
    /// batches' items are appended in the delivered order — each failed page
    /// contributing nothing.
    pub fn deliver_many(
        &mut self,
        deliveries: Vec<(usize, Result<PaginatedApiResult<A>, ApiError>)>,
    )
        requires
            old(self).wf(),
            old(self).started(),
            forall|k: int| 0 <= k < deliveries@.len() ==> old(self).pending().contains(
                (#[trigger] deliveries@[k]).0,
            ),
            forall|k: int, l: int| 0 <= k < l < deliveries@.len() ==> deliveries@[k].0
                != deliveries@[l].0,
        ensures
            final(self).wf(),
            final(self).started(),
            final(self).total() == old(self).total(),
            final(self).collected() == old(self).collected() + batches_of(deliveries@),
            final(self).pending().len() == old(self).pending().len() - deliveries@.len(),
            forall|q: usize| final(self).pending().contains(q) <==> (old(
                self,
            ).pending().contains(q) && forall|k: int|
                0 <= k < deliveries@.len() ==> (#[trigger] deliveries@[k]).0 != q),
    {
        let ghost all = deliveries@;
        let total_count: usize = deliveries.len();
        proof {
            assert(all.len() == total_count);
        }
        let mut deliveries = deliveries;
        let mut i: usize = 0;
        proof {
            assert(old(self).collected() + batches_of(all.take(0)) =~= old(self).collected());
        }
        while deliveries.len() > 0
            invariant
                i <= all.len(),
                all.len() == total_count,
                deliveries@ == all.skip(i as int),
                self.wf(),
                self.started(),
                self.total() == old(self).total(),
                forall|k: int| 0 <= k < all.len() ==> old(self).pending().contains(
                    (#[trigger] all[k]).0,
                ),
                forall|k: int, l: int| 0 <= k < l < all.len() ==> all[k].0 != all[l].0,
                self.collected() == old(self).collected() + batches_of(all.take(i as int)),
                self.pending().len() == old(self).pending().len() - i,
                forall|q: usize| self.pending().contains(q) <==> (old(self).pending().contains(q)
                    && forall|k: int| 0 <= k < i ==> (#[trigger] all[k]).0 != q),
            decreases deliveries.len(),
        {
            proof {
                assert(all.skip(i as int)[0] == all[i as int]);
                assert(all.skip(i as int).remove(0) =~= all.skip(i + 1));
            }
            let entry = deliveries.remove(0);
            let (page, fetched) = entry;
            proof {
                assert(old(self).pending().contains(page));
                assert(self.pending().contains(page));
            }
            self.deliver(page, fetched);
            proof {
                assert(all.take(i + 1).drop_last() =~= all.take(i as int));
                assert(all.take(i + 1).last() == all[i as int]);
                assert(old(self).collected() + batches_of(all.take(i + 1)) =~= (old(
                    self,
                ).collected() + batches_of(all.take(i as int))) + page_batch(fetched));
            }
            i = i + 1;
        }
        proof {
            assert(all.take(all.len() as int) =~= all);
            assert(all.skip(all.len() as int) =~= Seq::<
                (usize, Result<PaginatedApiResult<A>, ApiError>),
            >::empty());
        }
    }

    /// Whether the whole result set has been accounted for: the first page
    /// was handed in and no page is owed any more.
    pub fn is_done(&self) -> (r: bool)
        ensures
            r == (self.started() && self.pending().len() == 0),
    {
        self.started && self.pending.len() == 0
    }

    /// Gives up the collector and keeps what it gathered.
    pub fn into_items(self) -> (r: Vec<A>)
        ensures
            r@ == self.collected(),
    {
        self.collected
    }
}

/// The union, as a multiset, of the items a batch of fetch outcomes
/// contributes.
pub open spec fn batch_multiset<A>(
    deliveries: Seq<(usize, Result<PaginatedApiResult<A>, ApiError>)>,
) -> Multiset<A>
    decreases deliveries.len(),
{
    if deliveries.len() == 0 {
        Multiset::empty()
    } else {
        page_batch(deliveries.last().1).to_multiset().add(batch_multiset(deliveries.drop_last()))
    }
}

/// A delivered batch contributes its items' union, whichever order it lists
/// the pages in.
proof fn lemma_batches_of_multiset<A>(
    deliveries: Seq<(usize, Result<PaginatedApiResult<A>, ApiError>)>,
)
    ensures
        batches_of(deliveries).to_multiset() == batch_multiset(deliveries),
    decreases deliveries.len(),
{
    broadcast use vstd::seq_lib::group_to_multiset_ensures;

    if deliveries.len() == 0 {
        assert(batches_of(deliveries).to_multiset() =~= Multiset::<A>::empty());
    } else {
        lemma_batches_of_multiset(deliveries.drop_last());
        vstd::seq_lib::lemma_multiset_commutative(
            batches_of(deliveries.drop_last()),
            page_batch(deliveries.last().1),
        );
        assert(batches_of(deliveries.drop_last()).to_multiset().add(
            page_batch(deliveries.last().1).to_multiset(),
        ) =~= page_batch(deliveries.last().1).to_multiset().add(
            batch_multiset(deliveries.drop_last()),
        ));
    }
}

/// Removing one delivery splits its batch off the union.
proof fn lemma_batch_multiset_split<A>(
    deliveries: Seq<(usize, Result<PaginatedApiResult<A>, ApiError>)>,
    entry: (usize, Result<PaginatedApiResult<A>, ApiError>),
)
    requires
        deliveries.contains(entry),
    ensures
        batch_multiset(deliveries) == page_batch(entry.1).to_multiset().add(
            batch_multiset(deliveries.remove_value(entry)),
        ),
    decreases deliveries.len(),
{
    deliveries.index_of_first_ensures(entry);
    match deliveries.index_of_first(entry) {
        Some(i) => {
            if i == deliveries.len() - 1 {
                assert(deliveries.remove(i) =~= deliveries.drop_last());
            } else {
                let front = deliveries.drop_last();
                assert(front[i] == entry);
                assert(front.contains(entry));
                lemma_batch_multiset_split(front, entry);
                front.index_of_first_ensures(entry);
                match front.index_of_first(entry) {
                    Some(k) => {
                        assert(k == i) by {
                            if k < i {
                                assert(deliveries[k] != entry);
                            }
                            if k > i {
                                assert(front[i] != entry);
                            }
                        }
                    },
                    None => {},
                }
                assert(deliveries.remove(i).last() == deliveries.last());
                assert(deliveries.remove(i).drop_last() =~= front.remove(i));
                assert(page_batch(deliveries.last().1).to_multiset().add(
                    page_batch(entry.1).to_multiset().add(batch_multiset(front.remove(i))),
                ) =~= page_batch(entry.1).to_multiset().add(
                    page_batch(deliveries.last().1).to_multiset().add(
                        batch_multiset(front.remove(i)),
                    ),
                ));
            }
        },
        None => {},
    }
}

/// Delivery order is irrelevant.  Two batches listing the same page outcomes
/// — the same multiset of (page, outcome) entries, in any two orders —
/// contribute exactly the same items, as a multiset.  Together with
/// [`PaginatedCollector::deliver_many`]'s contract this is pagination
/// completeness for the executable collector: once everything owed is
/// delivered, the collected items are the union of all delivered pages'
/// items, regardless of execution order.
pub proof fn lemma_delivery_order_irrelevant<A>(
    one: Seq<(usize, Result<PaginatedApiResult<A>, ApiError>)>,
    other: Seq<(usize, Result<PaginatedApiResult<A>, ApiError>)>,
)
    requires
        one.to_multiset() == other.to_multiset(),
    ensures
        batches_of(one).to_multiset() == batches_of(other).to_multiset(),
    decreases one.len(),
{
    broadcast use vstd::seq_lib::group_to_multiset_ensures;

    lemma_batches_of_multiset(one);
    lemma_batches_of_multiset(other);
    if one.len() == 0 {
        assert(other.to_multiset().len() == 0);
        assert(other.len() == 0);
    } else {
        let entry = one.last();
        assert(one.contains(entry));
        assert(one.to_multiset().count(entry) > 0);
        assert(other.contains(entry));
        lemma_batch_multiset_split(one, entry);
        lemma_batch_multiset_split(other, entry);
        one.index_of_first_ensures(entry);
        other.index_of_first_ensures(entry);
        match (one.index_of_first(entry), other.index_of_first(entry)) {
            (Some(i), Some(j)) => {
                assert(one.remove(i).to_multiset() == one.to_multiset().remove(entry));
                assert(other.remove(j).to_multiset() == other.to_multiset().remove(entry));
                lemma_delivery_order_irrelevant(one.remove_value(entry), other.remove_value(entry));
                lemma_batches_of_multiset(one.remove_value(entry));
                lemma_batches_of_multiset(other.remove_value(entry));
            },
            _ => {},
        }
    }
}

/// The state a collector reaches from `(pending, collected)` after the owed
/// pages are delivered in the order `order`, where `batches` maps each page
/// number to the items its fetch contributed (an empty sequence for a fetch
/// that failed).  Each step is exactly what [`PaginatedCollector::deliver`]
/// ensures of one delivery.
pub open spec fn deliver_all<A>(
    pending: Seq<usize>,
    collected: Seq<A>,
    order: Seq<usize>,
    batches: Map<usize, Seq<A>>,
) -> (Seq<usize>, Seq<A>)
    decreases order.len(),
{
    if order.len() == 0 {
        (pending, collected)
    } else {
        deliver_all(
            pending.remove_value(order[0]),
            collected + batches[order[0]],
            order.drop_first(),
            batches,
        )
    }
}

/// The union, as a multiset, of the batches of the listed pages.
pub open spec fn batch_union<A>(pages: Seq<usize>, batches: Map<usize, Seq<A>>) -> Multiset<A>
    decreases pages.len(),
{
    if pages.len() == 0 {
        Multiset::empty()
    } else {
        batches[pages[0]].to_multiset().add(batch_union(pages.drop_first(), batches))
    }
}

/// Removing one listed page splits its batch off the union.
proof fn lemma_batch_union_split<A>(pages: Seq<usize>, p: usize, batches: Map<usize, Seq<A>>)
    requires
        pages.contains(p),
    ensures
        batch_union(pages, batches)
            == batches[p].to_multiset().add(batch_union(pages.remove_value(p), batches)),
    decreases pages.len(),
{
    pages.index_of_first_ensures(p);
    match pages.index_of_first(p) {
        Some(i) => {
            if i == 0 {
                assert(pages.remove(0) =~= pages.drop_first());
            } else {
                let rest = pages.drop_first();
                assert(rest[i - 1] == p);
                assert(rest.contains(p));
                lemma_batch_union_split(rest, p, batches);
                rest.index_of_first_ensures(p);
                match rest.index_of_first(p) {
                    Some(k) => {
                        assert(k == i - 1) by {
                            if k < i - 1 {
                                assert(pages[k + 1] != p);
                            }
                            if i - 1 < k {
                                assert(rest[i - 1] != p);
                            }
                        }
                    },
                    None => {},
                }
                assert(pages.remove(i)[0] == pages[0]);
                assert(pages.remove(i).drop_first() =~= rest.remove(i - 1));
                assert(batch_union(pages.remove(i), batches)
                    == batches[pages[0]].to_multiset().add(batch_union(rest.remove(i - 1), batches)));
                assert(batches[pages[0]].to_multiset().add(
                    batches[p].to_multiset().add(batch_union(rest.remove(i - 1), batches)),
                ) =~= batches[p].to_multiset().add(
                    batches[pages[0]].to_multiset().add(batch_union(rest.remove(i - 1), batches)),
                ));
            }
        },
        None => {},
    }
}

/// Pagination completeness.  Whatever order the owed pages' outcomes arrive
/// in, once every one of them has been delivered nothing is owed any more,
/// and the collected items are exactly the items already collected plus the
/// union of all the delivered batches — where a failed page's batch is empty.
/// The union is written over the owed pages in their canonical order, so the
/// result is the same for every delivery order.
pub proof fn lemma_pagination_complete<A>(
    pending: Seq<usize>,
    collected: Seq<A>,
    order: Seq<usize>,
    batches: Map<usize, Seq<A>>,
)
    requires
        order.to_multiset() == pending.to_multiset(),
    ensures
        deliver_all(pending, collected, order, batches).0.len() == 0,
        deliver_all(pending, collected, order, batches).1.to_multiset()
            == collected.to_multiset().add(batch_union(pending, batches)),
    decreases order.len(),
{
    broadcast use vstd::seq_lib::group_to_multiset_ensures;

    if order.len() == 0 {
        assert(order.to_multiset().len() == 0);
        assert(pending.to_multiset().len() == 0);
        assert(pending.len() == 0);
        assert(batch_union(pending, batches) =~= Multiset::<A>::empty());
        assert(collected.to_multiset().add(Multiset::<A>::empty()) =~= collected.to_multiset());
    } else {
        let p = order[0];
        assert(order.contains(p));
        assert(pending.to_multiset().count(p) > 0);
        assert(pending.contains(p));
        lemma_batch_union_split(pending, p, batches);
        pending.index_of_first_ensures(p);
        match pending.index_of_first(p) {
            Some(i) => {
                assert(order.drop_first() =~= order.remove(0));
                assert(order.remove(0).to_multiset() == order.to_multiset().remove(p));
                assert(pending.remove(i).to_multiset() == pending.to_multiset().remove(p));
                lemma_pagination_complete(
                    pending.remove_value(p),
                    collected + batches[p],
                    order.drop_first(),
                    batches,
                );
                vstd::seq_lib::lemma_multiset_commutative(collected, batches[p]);
                assert(collected.to_multiset().add(batches[p].to_multiset()).add(
                    batch_union(pending.remove_value(p), batches),
                ) =~= collected.to_multiset().add(
                    batches[p].to_multiset().add(batch_union(pending.remove_value(p), batches)),
                ));
            },
            None => {},
        }
    }
}

} // verus!
