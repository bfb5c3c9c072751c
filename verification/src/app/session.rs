//! The reading session's bookkeeping: which decodes are in flight, which
//! results are still wanted, where the reader is, and how far it has read.
use std::collections::{HashMap, HashSet};
use vstd::prelude::*;
use vstd::std_specs::iter::IteratorSpec;

use crate::cache::{CachedPage, PageTextureCache};
use crate::decode::{CancellationToken, DecodePurpose, DecodeRequestId, Rotation};
use crate::library::models::{ComicAvailability, LibraryGridItem, Progress};
use crate::viewer::continuous::{increasing, insert_sorted};
use crate::viewer::layout::{PageId, PixelSize};
use crate::viewer::prefetch::{PageGeneration, PrefetchState};
use crate::viewer::state::{bumped, PageStatus, ViewerState, ZoomIdentity};

verus! {

broadcast use vstd::std_specs::hash::group_hash_axioms;

/// A decode that was handed to a worker and has not come back yet.
#[derive(Debug, Clone)]
pub struct InFlightPrefetch {
    pub page_index: usize,
    pub request_id: DecodeRequestId,
    pub generation: PageGeneration,
    pub purpose: DecodePurpose,
    pub cancellation_token: CancellationToken,
}

/// The prefetch bookkeeping of a reading session.
#[derive(Debug)]
pub struct PrefetchRuntime {
    pub generation: PageGeneration,
    pub queued_pages: HashSet<usize>,
    pub in_flight: HashMap<usize, InFlightPrefetch>,
    pub failed_pages: HashMap<usize, String>,
    /// The id the next decode request gets.
    pub next_request_id: u64,
}

impl Default for PrefetchRuntime {
    fn default() -> (r: Self)
        ensures
            r.generation == PageGeneration(0),
            r.queued_pages@ == Set::<usize>::empty(),
            r.in_flight@ == Map::<usize, InFlightPrefetch>::empty(),
            r.failed_pages@ == Map::<usize, String>::empty(),
            r.next_request_id == 1,
    {
        PrefetchRuntime {
            generation: PageGeneration(0),
            queued_pages: HashSet::new(),
            in_flight: HashMap::new(),
            failed_pages: HashMap::new(),
            next_request_id: 1,
        }
    }
}

/// The keys of a map, once each.
fn map_keys<V>(m: &HashMap<usize, V>) -> (r: Vec<usize>)
    ensures
        r@.to_set() == m@.dom(),
        r@.no_duplicates(),
{
    let mut r: Vec<usize> = Vec::new();
    let ghost all = vstd::std_specs::hash::spec_keys_iter(m).remaining();
    proof {
        vstd::std_specs::hash::axiom_spec_keys_iter(m);
    }
    for k in it: m.keys()
        invariant
            it.seq() == all,
            r.len() == it.index(),
            forall|j: int| 0 <= j < r.len() ==> r@[j] == *all[j],
    {
        r.push(*k);
    }
    proof {
        assert(r@ =~= all.unref());
    }
    r
}

proof fn lemma_push_contains(s: Seq<usize>, x: usize)
    ensures
        forall|q: usize| #[trigger] s.push(x).contains(q) <==> (s.contains(q) || q == x),
{
    assert forall|q: usize| #[trigger] s.push(x).contains(q) <==> (s.contains(q) || q == x) by {
        if s.push(x).contains(q) {
            let k = choose|k: int| 0 <= k < s.push(x).len() && #[trigger] s.push(x)[k] == q;
            if k < s.len() {
                assert(s[k] == q);
            }
        }
        if s.contains(q) {
            let k = choose|k: int| 0 <= k < s.len() && #[trigger] s[k] == q;
            assert(s.push(x)[k] == q);
        }
        if q == x {
            assert(s.push(x)[s.len() as int] == q);
        }
    }
}

/// Whether `v` holds `x`.
fn vec_contains(v: &Vec<usize>, x: usize) -> (r: bool)
    ensures
        r == v@.contains(x),
{
    let mut i: usize = 0;
    while i < v.len()
        invariant
            0 <= i <= v.len(),
            forall|j: int| 0 <= j < i ==> v@[j] != x,
        decreases v.len() - i,
    {
        if v[i] == x {
            return true;
        }
        i += 1;
    }
    false
}

/// The pages around `current` whose decodes are still useful: the current
/// page, the next two inside the comic and the previous one, unless already
/// cached.
pub open spec fn keep_window(current: usize, page_count: usize, cached: Set<usize>, p: usize) -> bool {
    &&& !cached.contains(p)
    &&& {
        ||| p == current
        ||| (p == current + 1 && p < page_count)
        ||| (p == current + 2 && p < page_count)
        ||| (current > 0 && p == current - 1)
    }
}

/// Moving away cancels only what is no longer near: the current page and
/// the next two and the previous page that exist are kept when not cached,
/// so every page the prefetcher asks for on the same page is kept; a cached
/// page and a page more than one before or two after the current one are
/// not.
pub proof fn lemma_kept_window(runtime: PrefetchRuntime, current: usize, page_count: usize, cached: Set<usize>, p: usize)
    ensures
        !cached.contains(p) && p == current ==> keep_window(current, page_count, cached, p),
        !cached.contains(p) && p == current + 1 && p < page_count ==> keep_window(current, page_count, cached, p),
        !cached.contains(p) && p == current + 2 && p < page_count ==> keep_window(current, page_count, cached, p),
        !cached.contains(p) && current >= 1 && p == current - 1 ==> keep_window(current, page_count, cached, p),
        runtime.dispatch_plan(current, page_count, cached).contains(p) ==> keep_window(current, page_count, cached, p),
        cached.contains(p) ==> !keep_window(current, page_count, cached, p),
        p + 1 < current || p > current + 2 ==> !keep_window(current, page_count, cached, p),
        current < page_count && p >= page_count ==> !keep_window(current, page_count, cached, p),
{
    let plan = runtime.dispatch_plan(current, page_count, cached);
    if plan.contains(p) {
        let a = runtime.if_due(page_count, cached, current + 1);
        let b = runtime.if_due(page_count, cached, current + 2);
        let c = runtime.if_due(page_count, cached, current - 1);
        let k = choose|k: int| 0 <= k < plan.len() && plan[k] == p;
        assert(plan == a + b + c);
        if k < a.len() {
            assert(plan[k] == a[k]);
        } else if k < a.len() + b.len() {
            assert(plan[k] == b[k - a.len()]);
        } else {
            assert(plan[k] == c[k - a.len() - b.len()]);
        }
    }
}

/// The decodes started ahead of the reader are exactly the pages next to
/// it that exist and are due: the next page, the one after it and the
/// previous page, each unless cached, queued, being decoded or failed
/// before.
pub proof fn lemma_dispatch_neighbours(runtime: PrefetchRuntime, current: usize, page_count: usize, cached: Set<usize>, p: usize)
    ensures
        runtime.dispatch_plan(current, page_count, cached).contains(p) <==> ((p == current + 1 || p == current + 2 || (
        current >= 1 && p == current - 1)) && p < page_count && !cached.contains(p)
            && !runtime.queued_pages@.contains(p) && !runtime.in_flight@.dom().contains(p)
            && !runtime.failed_pages@.dom().contains(p)),
{
    let plan = runtime.dispatch_plan(current, page_count, cached);
    let a = runtime.if_due(page_count, cached, current + 1);
    let b = runtime.if_due(page_count, cached, current + 2);
    let c = runtime.if_due(page_count, cached, current - 1);
    assert(plan == a + b + c);
    if plan.contains(p) {
        let k = choose|k: int| 0 <= k < plan.len() && plan[k] == p;
        if k < a.len() {
            assert(plan[k] == a[k]);
        } else if k < a.len() + b.len() {
            assert(plan[k] == b[k - a.len()]);
        } else {
            assert(plan[k] == c[k - a.len() - b.len()]);
        }
    }
    if (p == current + 1 || p == current + 2 || (current >= 1 && p == current - 1)) && p < page_count
        && runtime.due(cached, p) {
        if p == current + 1 {
            assert(plan[0] == p);
        } else if p == current + 2 {
            assert(plan[a.len() as int] == p);
        } else {
            assert(plan[(a.len() + b.len()) as int] == p);
        }
    }
}

/// The pages explicitly asked to be kept, unless already cached.
pub open spec fn keep_listed(keep: Set<usize>, cached: Set<usize>, p: usize) -> bool {
    keep.contains(p) && !cached.contains(p)
}

/// The generation after `g`; the last one stays.
pub open spec fn next_generation(g: PageGeneration) -> PageGeneration {
    if g.0 == u64::MAX {
        g
    } else {
        PageGeneration((g.0 + 1) as u64)
    }
}

/// A finished decode is taken only when it was requested in the current
/// generation.
pub open spec fn accepted_generation(requested: PageGeneration, current: PageGeneration) -> bool {
    requested == current
}

/// Once the reader moves on (the generation advances), a decode requested
/// before is no longer accepted, until the generations run out.
pub proof fn lemma_page_change_makes_results_stale(requested: PageGeneration)
    requires
        requested.0 < u64::MAX,
    ensures
        !accepted_generation(requested, next_generation(requested)),
{
}

impl PrefetchRuntime {
    /// Hands out a fresh request id; ids count up and stop at the largest
    /// one.
    pub fn next_request_id(&mut self) -> (r: DecodeRequestId)
        ensures
            r.0 == old(self).next_request_id,
            final(self).next_request_id == if old(self).next_request_id == u64::MAX {
                u64::MAX
            } else {
                (old(self).next_request_id + 1) as u64
            },
            final(self).generation == old(self).generation,
            final(self).queued_pages@ == old(self).queued_pages@,
            final(self).in_flight@ == old(self).in_flight@,
            final(self).failed_pages@ == old(self).failed_pages@,
    {
        let request_id = DecodeRequestId(self.next_request_id);
        self.next_request_id = self.next_request_id.saturating_add(1);
        request_id
    }

    /// Moves to the next page generation (stopping at the largest one), so
    /// results requested before now are recognised as stale.
    pub fn advance_generation(&mut self)
        ensures
            final(self).generation == next_generation(old(self).generation),
            final(self).queued_pages@ == old(self).queued_pages@,
            final(self).in_flight@ == old(self).in_flight@,
            final(self).failed_pages@ == old(self).failed_pages@,
            final(self).next_request_id == old(self).next_request_id,
    {
        self.generation = PageGeneration(self.generation.0.saturating_add(1));
    }

    /// Records that a page's decode was handed to a worker: it leaves the
    /// queue and is tracked under the current generation.
    pub fn track_in_flight(
        &mut self,
        page_index: usize,
        request_id: DecodeRequestId,
        purpose: DecodePurpose,
        cancellation_token: CancellationToken,
    )
        ensures
            final(self).queued_pages@ == old(self).queued_pages@.remove(page_index),
            final(self).in_flight@ == old(self).in_flight@.insert(
                page_index,
                InFlightPrefetch {
                    page_index,
                    request_id,
                    generation: old(self).generation,
                    purpose,
                    cancellation_token,
                },
            ),
            final(self).generation == old(self).generation,
            final(self).failed_pages@ == old(self).failed_pages@,
            final(self).next_request_id == old(self).next_request_id,
    {
        self.queued_pages.remove(&page_index);
        let entry = InFlightPrefetch {
            page_index,
            request_id,
            generation: self.generation,
            purpose,
            cancellation_token,
        };
        self.in_flight.insert(page_index, entry);
    }

    /// What the prefetcher knows, for a comic of `page_count` pages whose
    /// `cached` pages are decoded already.
    pub fn prefetch_state(&self, page_count: usize, cached: &Vec<usize>) -> (r: PrefetchState)
        ensures
            r.page_count == page_count,
            r.cached@ == cached@.to_set(),
            r.queued@ == self.queued_pages@,
            r.in_flight@ == self.in_flight@.dom(),
    {
        let mut cached_set: HashSet<usize> = HashSet::new();
        let mut i: usize = 0;
        while i < cached.len()
            invariant
                0 <= i <= cached.len(),
                cached_set@ == cached@.take(i as int).to_set(),
            decreases cached.len() - i,
        {
            proof {
                assert(cached@.take(i + 1) =~= cached@.take(i as int).push(cached@[i as int]));
                cached@.take(i as int).lemma_push_to_set_commute(cached@[i as int]);
            }
            cached_set.insert(cached[i]);
            proof {
                assert(cached_set@ =~= cached@.take(i + 1).to_set());
            }
            i += 1;
        }
        proof {
            assert(cached@.take(cached.len() as int) =~= cached@);
        }
        let mut queued: HashSet<usize> = HashSet::new();
        let ghost all = vstd::std_specs::hash::spec_hash_keys_iter(&self.queued_pages).remaining();
        proof {
            vstd::std_specs::hash::axiom_spec_hash_keys_iter(&self.queued_pages);
        }
        for p in it: self.queued_pages.iter()
            invariant
                it.seq() == all,
                queued@ == all.take(it.index() as int).unref().to_set(),
        {
            proof {
                assert(all.take(it.index() + 1).unref() =~= all.take(it.index() as int).unref().push(*all[it.index() as int]));
                all.take(it.index() as int).unref().lemma_push_to_set_commute(*all[it.index() as int]);
            }
            queued.insert(*p);
            proof {
                assert(queued@ =~= all.take(it.index() + 1).unref().to_set());
            }
        }
        proof {
            assert(all.take(all.len() as int) =~= all);
        }
        let keys = map_keys(&self.in_flight);
        let mut in_flight: HashSet<usize> = HashSet::new();
        let mut j: usize = 0;
        while j < keys.len()
            invariant
                0 <= j <= keys.len(),
                in_flight@ == keys@.take(j as int).to_set(),
            decreases keys.len() - j,
        {
            proof {
                assert(keys@.take(j + 1) =~= keys@.take(j as int).push(keys@[j as int]));
                keys@.take(j as int).lemma_push_to_set_commute(keys@[j as int]);
            }
            in_flight.insert(keys[j]);
            proof {
                assert(in_flight@ =~= keys@.take(j + 1).to_set());
            }
            j += 1;
        }
        proof {
            assert(keys@.take(keys.len() as int) =~= keys@);
        }
        PrefetchState { page_count, cached: cached_set, queued, in_flight }
    }

    /// Takes a finished request off the books when it is the one tracked for
    /// its page; a result for a request that was replaced is ignored.
    pub fn complete_request(&mut self, request_id: DecodeRequestId, page_index: usize) -> (r: Option<
        InFlightPrefetch,
    >)
        ensures
            match r {
                Some(e) => {
                    &&& old(self).in_flight@.contains_key(page_index)
                    &&& old(self).in_flight@[page_index].request_id == request_id
                    &&& e == old(self).in_flight@[page_index]
                    &&& final(self).in_flight@ == old(self).in_flight@.remove(page_index)
                },
                None => {
                    &&& !(old(self).in_flight@.contains_key(page_index) && old(self).in_flight@[page_index].request_id
                        == request_id)
                    &&& final(self).in_flight@ == old(self).in_flight@
                },
            },
            final(self).generation == old(self).generation,
            final(self).queued_pages@ == old(self).queued_pages@,
            final(self).failed_pages@ == old(self).failed_pages@,
            final(self).next_request_id == old(self).next_request_id,
    {
        let matches = match self.in_flight.get(&page_index) {
            Some(entry) => entry.request_id.0 == request_id.0,
            None => false,
        };
        if !matches {
            return None;
        }
        self.in_flight.remove(&page_index)
    }

    /// Takes a finished request off the books and returns it only when its
    /// result may still be shown: it was requested in the current generation
    /// and has not been cancelled. Whether it was cancelled is read from the
    /// shared flag at the time of the call.
    pub fn complete_fresh_request(&mut self, request_id: DecodeRequestId, page_index: usize) -> (r: Option<
        InFlightPrefetch,
    >)
        ensures
            (old(self).in_flight@.contains_key(page_index) && old(self).in_flight@[page_index].request_id
                == request_id) ==> final(self).in_flight@ == old(self).in_flight@.remove(page_index),
            !(old(self).in_flight@.contains_key(page_index) && old(self).in_flight@[page_index].request_id
                == request_id) ==> final(self).in_flight@ == old(self).in_flight@ && r is None,
            old(self).in_flight@.contains_key(page_index) && !accepted_generation(
                old(self).in_flight@[page_index].generation,
                old(self).generation,
            ) ==> r is None,
            r matches Some(e) ==> e == old(self).in_flight@[page_index] && accepted_generation(e.generation, old(self).generation),
            final(self).generation == old(self).generation,
            final(self).queued_pages@ == old(self).queued_pages@,
            final(self).failed_pages@ == old(self).failed_pages@,
            final(self).next_request_id == old(self).next_request_id,
    {
        let cancelled = self.tracked_cancelled(page_index);
        self.complete_fresh_request_given(request_id, page_index, cancelled)
    }

    /// Whether the token of the request tracked for `page_index` is
    /// cancelled, read from its shared flag now; `false` when no request is
    /// tracked for the page.
    pub fn tracked_cancelled(&self, page_index: usize) -> (r: bool)
        ensures
            !self.in_flight@.contains_key(page_index) ==> !r,
    {
        match self.in_flight.get(&page_index) {
            Some(entry) => entry.cancellation_token.is_cancelled(),
            None => false,
        }
    }

    /// Takes a finished request off the books, given whether its token is
    /// cancelled, and returns it exactly when its result may still be shown:
    /// it is the request tracked for its page, it was made in the current
    /// generation, and it is not cancelled.
    pub fn complete_fresh_request_given(&mut self, request_id: DecodeRequestId, page_index: usize, cancelled: bool) -> (r:
        Option<InFlightPrefetch>)
        ensures
            (old(self).in_flight@.contains_key(page_index) && old(self).in_flight@[page_index].request_id
                == request_id) ==> final(self).in_flight@ == old(self).in_flight@.remove(page_index),
            !(old(self).in_flight@.contains_key(page_index) && old(self).in_flight@[page_index].request_id
                == request_id) ==> final(self).in_flight@ == old(self).in_flight@,
            r == if tracked_fresh(*old(self), request_id, page_index) && !cancelled {
                Some(old(self).in_flight@[page_index])
            } else {
                None::<InFlightPrefetch>
            },
            final(self).generation == old(self).generation,
            final(self).queued_pages@ == old(self).queued_pages@,
            final(self).failed_pages@ == old(self).failed_pages@,
            final(self).next_request_id == old(self).next_request_id,
    {
        let in_flight = match self.complete_request(request_id, page_index) {
            Some(e) => e,
            None => {
                return None;
            },
        };
        if in_flight.generation.0 == self.generation.0 && !cancelled {
            Some(in_flight)
        } else {
            None
        }
    }

    /// Remembers why a page failed to decode.
    pub fn record_failed_page(&mut self, page_index: usize, message: String)
        ensures
            final(self).failed_pages@ == old(self).failed_pages@.insert(page_index, message),
            final(self).generation == old(self).generation,
            final(self).queued_pages@ == old(self).queued_pages@,
            final(self).in_flight@ == old(self).in_flight@,
            final(self).next_request_id == old(self).next_request_id,
    {
        self.failed_pages.insert(page_index, message);
    }

    /// Drops every in-flight request and queued page that `keep` rejects,
    /// cancelling the dropped requests; returns the dropped in-flight pages.
    fn drop_unwanted(&mut self, keep: &Vec<usize>) -> (r: Vec<usize>)
        ensures
            r@.no_duplicates(),
            r@.to_set() == old(self).in_flight@.dom().filter(|p: usize| !keep@.contains(p)),
            final(self).in_flight@ == old(self).in_flight@.restrict(old(self).in_flight@.dom().filter(|p: usize| keep@.contains(p))),
            final(self).queued_pages@ == old(self).queued_pages@.filter(|p: usize| keep@.contains(p)),
            final(self).generation == old(self).generation,
            final(self).failed_pages@ == old(self).failed_pages@,
            final(self).next_request_id == old(self).next_request_id,
    {
        let keys = map_keys(&self.in_flight);
        let mut stale: Vec<usize> = Vec::new();
        let mut i: usize = 0;
        while i < keys.len()
            invariant
                0 <= i <= keys.len(),
                keys@.no_duplicates(),
                keys@.to_set() == old(self).in_flight@.dom(),
                self.in_flight@ == old(self).in_flight@.restrict(old(self).in_flight@.dom().filter(
                    |p: usize| keep@.contains(p) || !keys@.take(i as int).contains(p),
                )),
                stale@.no_duplicates(),
                stale@.to_set() == keys@.take(i as int).to_set().filter(|p: usize| !keep@.contains(p)),
                self.generation == old(self).generation,
                self.queued_pages@ == old(self).queued_pages@,
                self.failed_pages@ == old(self).failed_pages@,
                self.next_request_id == old(self).next_request_id,
            decreases keys.len() - i,
        {
            let p = keys[i];
            proof {
                assert(keys@.take(i + 1) =~= keys@.take(i as int).push(p));
                keys@.take(i as int).lemma_push_to_set_commute(p);
                assert forall|q: usize| #[trigger] keys@.take(i + 1).contains(q) <==> (keys@.take(i as int).contains(q) || q == p) by {
                    if keys@.take(i + 1).contains(q) {
                        let j = choose|j: int| 0 <= j < i + 1 && #[trigger] keys@.take(i + 1)[j] == q;
                        if j < i {
                            assert(keys@.take(i as int)[j] == q);
                        }
                    }
                    if keys@.take(i as int).contains(q) {
                        let j = choose|j: int| 0 <= j < i && #[trigger] keys@.take(i as int)[j] == q;
                        assert(keys@.take(i + 1)[j] == q);
                    }
                    if q == p {
                        assert(keys@.take(i + 1)[i as int] == q);
                    }
                }
                assert(!keys@.take(i as int).contains(p)) by {
                    if keys@.take(i as int).contains(p) {
                        let j = choose|j: int| 0 <= j < i && #[trigger] keys@.take(i as int)[j] == p;
                        assert(keys@[j] == keys@[i as int]);
                    }
                }
            }
            if !vec_contains(keep, p) {
                let ghost before = stale@;
                stale.push(p);
                if let Some(entry) = self.in_flight.remove(&p) {
                    entry.cancellation_token.cancel();
                }
                proof {
                    before.lemma_push_to_set_commute(p);
                    assert(!keys@.take(i as int).to_set().contains(p));
                    assert(!before.to_set().contains(p));
                    assert(!before.contains(p));
                    assert(stale@.no_duplicates()) by {
                        assert forall|a: int, b: int| 0 <= a < b < stale@.len() implies stale@[a] != stale@[b] by {
                            if b == before.len() {
                                assert(before.contains(stale@[a]) || stale@[a] != p);
                                assert(stale@[a] == before[a]);
                            } else {
                                assert(stale@[a] == before[a] && stale@[b] == before[b]);
                            }
                        }
                    }
                }
            }
            proof {
                assert(stale@.to_set() =~= keys@.take(i + 1).to_set().filter(|q: usize| !keep@.contains(q)));
                assert(self.in_flight@ =~= old(self).in_flight@.restrict(old(self).in_flight@.dom().filter(
                    |q: usize| keep@.contains(q) || !keys@.take(i + 1).contains(q),
                )));
            }
            i += 1;
        }
        proof {
            assert(keys@.take(keys.len() as int) =~= keys@);
            assert(stale@.to_set() =~= old(self).in_flight@.dom().filter(|p: usize| !keep@.contains(p)));
            assert(self.in_flight@ =~= old(self).in_flight@.restrict(old(self).in_flight@.dom().filter(|p: usize| keep@.contains(p))));
        }
        let mut queued: HashSet<usize> = HashSet::new();
        let mut j: usize = 0;
        while j < keep.len()
            invariant
                0 <= j <= keep.len(),
                queued@ == self.queued_pages@.filter(|p: usize| keep@.take(j as int).contains(p)),
            decreases keep.len() - j,
        {
            let p = keep[j];
            proof {
                assert(keep@.take(j + 1) =~= keep@.take(j as int).push(p));
                assert forall|q: usize| #[trigger] keep@.take(j + 1).contains(q) <==> (keep@.take(j as int).contains(q) || q == p) by {
                    if keep@.take(j + 1).contains(q) {
                        let k = choose|k: int| 0 <= k < j + 1 && #[trigger] keep@.take(j + 1)[k] == q;
                        if k < j {
                            assert(keep@.take(j as int)[k] == q);
                        }
                    }
                    if keep@.take(j as int).contains(q) {
                        let k = choose|k: int| 0 <= k < j && #[trigger] keep@.take(j as int)[k] == q;
                        assert(keep@.take(j + 1)[k] == q);
                    }
                    if q == p {
                        assert(keep@.take(j + 1)[j as int] == q);
                    }
                }
            }
            if self.queued_pages.contains(&p) {
                queued.insert(p);
            }
            proof {
                assert(queued@ =~= self.queued_pages@.filter(|q: usize| keep@.take(j + 1).contains(q)));
            }
            j += 1;
        }
        proof {
            assert(keep@.take(keep.len() as int) =~= keep@);
        }
        self.queued_pages = queued;
        stale
    }

    /// Cancels the in-flight decodes and drops the queued pages that are no
    /// longer near page `current`; returns the cancelled pages.
    pub fn cancel_stale(&mut self, current_page: usize, page_count: usize, cached: &Vec<usize>) -> (r: Vec<usize>)
        ensures
            r@.no_duplicates(),
            r@.to_set() == old(self).in_flight@.dom().filter(
                |p: usize| !keep_window(current_page, page_count, cached@.to_set(), p),
            ),
            final(self).in_flight@ == old(self).in_flight@.restrict(
                old(self).in_flight@.dom().filter(|p: usize| keep_window(current_page, page_count, cached@.to_set(), p)),
            ),
            final(self).queued_pages@ == old(self).queued_pages@.filter(
                |p: usize| keep_window(current_page, page_count, cached@.to_set(), p),
            ),
            final(self).generation == old(self).generation,
            final(self).failed_pages@ == old(self).failed_pages@,
            final(self).next_request_id == old(self).next_request_id,
    {
        let mut keep: Vec<usize> = Vec::new();
        proof {
            assert forall|p: usize| keep@.contains(p) <==> (!cached@.contains(p) && false) by {
                if keep@.contains(p) {
                    let k = choose|k: int| 0 <= k < keep@.len() && #[trigger] keep@[k] == p;
                }
            }
        }
        let ghost k0 = keep@;
        if !vec_contains(cached, current_page) {
            keep.push(current_page);
            proof {
                lemma_push_contains(k0, current_page);
            }
        }
        let ghost k1 = keep@;
        if let Some(p) = current_page.checked_add(1) {
            if p < page_count && !vec_contains(cached, p) {
                keep.push(p);
                proof {
                    lemma_push_contains(k1, p);
                }
            }
        }
        let ghost k2 = keep@;
        if let Some(p) = current_page.checked_add(2) {
            if p < page_count && !vec_contains(cached, p) {
                keep.push(p);
                proof {
                    lemma_push_contains(k2, p);
                }
            }
        }
        let ghost k3 = keep@;
        if let Some(p) = current_page.checked_sub(1) {
            if !vec_contains(cached, p) {
                keep.push(p);
                proof {
                    lemma_push_contains(k3, p);
                }
            }
        }
        proof {
            assert forall|p: usize| keep@.contains(p) <==> keep_window(current_page, page_count, cached@.to_set(), p) by {
                assert(cached@.to_set().contains(p) == cached@.contains(p));
                assert(!k0.contains(p));
            }
        }
        let stale = self.drop_unwanted(&keep);
        proof {
            assert(stale@.to_set() =~= old(self).in_flight@.dom().filter(
                |p: usize| !keep_window(current_page, page_count, cached@.to_set(), p),
            ));
            assert(old(self).in_flight@.dom().filter(|p: usize| keep@.contains(p)) =~= old(self).in_flight@.dom().filter(
                |p: usize| keep_window(current_page, page_count, cached@.to_set(), p),
            ));
            assert(self.queued_pages@ =~= old(self).queued_pages@.filter(
                |p: usize| keep_window(current_page, page_count, cached@.to_set(), p),
            ));
        }
        stale
    }

    /// Cancels every in-flight decode and queued page outside `keep_pages`
    /// (cached pages count as outside); returns the cancelled pages.
    pub fn cancel_stale_except(&mut self, keep_pages: &Vec<usize>, cached: &Vec<usize>) -> (r: Vec<usize>)
        ensures
            r@.no_duplicates(),
            r@.to_set() == old(self).in_flight@.dom().filter(
                |p: usize| !keep_listed(keep_pages@.to_set(), cached@.to_set(), p),
            ),
            final(self).in_flight@ == old(self).in_flight@.restrict(
                old(self).in_flight@.dom().filter(|p: usize| keep_listed(keep_pages@.to_set(), cached@.to_set(), p)),
            ),
            final(self).queued_pages@ == old(self).queued_pages@.filter(
                |p: usize| keep_listed(keep_pages@.to_set(), cached@.to_set(), p),
            ),
            final(self).generation == old(self).generation,
            final(self).failed_pages@ == old(self).failed_pages@,
            final(self).next_request_id == old(self).next_request_id,
    {
        let mut keep: Vec<usize> = Vec::new();
        let mut i: usize = 0;
        while i < keep_pages.len()
            invariant
                0 <= i <= keep_pages.len(),
                forall|p: usize| keep@.contains(p) <==> (keep_pages@.take(i as int).contains(p) && !cached@.contains(p)),
            decreases keep_pages.len() - i,
        {
            let p = keep_pages[i];
            proof {
                assert(keep_pages@.take(i + 1) =~= keep_pages@.take(i as int).push(p));
                lemma_push_contains(keep_pages@.take(i as int), p);
            }
            let ghost before = keep@;
            if !vec_contains(cached, p) {
                keep.push(p);
                proof {
                    lemma_push_contains(before, p);
                }
            }
            proof {
                assert forall|q: usize| keep@.contains(q) <==> (keep_pages@.take(i + 1).contains(q) && !cached@.contains(q)) by {
                    assert(keep_pages@.take(i + 1).contains(q) <==> (keep_pages@.take(i as int).contains(q) || q == p));
                    assert(before.contains(q) <==> (keep_pages@.take(i as int).contains(q) && !cached@.contains(q)));
                }
            }
            i += 1;
        }
        proof {
            assert(keep_pages@.take(keep_pages.len() as int) =~= keep_pages@);
            assert forall|p: usize| keep@.contains(p) <==> keep_listed(keep_pages@.to_set(), cached@.to_set(), p) by {
                assert(cached@.to_set().contains(p) == cached@.contains(p));
                assert(keep_pages@.to_set().contains(p) == keep_pages@.contains(p));
            }
        }
        let stale = self.drop_unwanted(&keep);
        proof {
            assert(stale@.to_set() =~= old(self).in_flight@.dom().filter(
                |p: usize| !keep_listed(keep_pages@.to_set(), cached@.to_set(), p),
            ));
            assert(old(self).in_flight@.dom().filter(|p: usize| keep@.contains(p)) =~= old(self).in_flight@.dom().filter(
                |p: usize| keep_listed(keep_pages@.to_set(), cached@.to_set(), p),
            ));
            assert(self.queued_pages@ =~= old(self).queued_pages@.filter(
                |p: usize| keep_listed(keep_pages@.to_set(), cached@.to_set(), p),
            ));
        }
        stale
    }

    /// Cancels every in-flight decode and forgets the queue.
    pub fn cancel_all(&mut self)
        ensures
            final(self).in_flight@ == Map::<usize, InFlightPrefetch>::empty(),
            final(self).queued_pages@ == Set::<usize>::empty(),
            final(self).generation == old(self).generation,
            final(self).failed_pages@ == old(self).failed_pages@,
            final(self).next_request_id == old(self).next_request_id,
    {
        let keep: Vec<usize> = Vec::new();
        self.drop_unwanted(&keep);
        proof {
            assert(self.in_flight@ =~= Map::<usize, InFlightPrefetch>::empty());
            assert(self.queued_pages@ =~= Set::<usize>::empty());
        }
    }

    /// Page `p` is due for decoding: it is neither cached, queued, in flight
    /// nor failed earlier. A failed page is not tried again on its own.
    pub open spec fn due(&self, cached: Set<usize>, p: usize) -> bool {
        &&& !cached.contains(p)
        &&& !self.queued_pages@.contains(p)
        &&& !self.in_flight@.dom().contains(p)
        &&& !self.failed_pages@.dom().contains(p)
    }

    /// `seq![p]` when page `p` exists and is due, empty otherwise.
    pub open spec fn if_due(&self, page_count: usize, cached: Set<usize>, p: int) -> Seq<usize> {
        if 0 <= p < page_count && self.due(cached, p as usize) {
            seq![p as usize]
        } else {
            Seq::empty()
        }
    }

    /// The pages to decode ahead of the reader on page `current`, in the
    /// order they are wanted: the next page, the one after it, then the
    /// previous page, each when it exists and is due.
    pub open spec fn dispatch_plan(&self, current: usize, page_count: usize, cached: Set<usize>) -> Seq<usize> {
        self.if_due(page_count, cached, current + 1) + self.if_due(page_count, cached, current + 2)
            + self.if_due(page_count, cached, current - 1)
    }

    fn is_due(&self, cached: &Vec<usize>, p: usize) -> (r: bool)
        ensures
            r == self.due(cached@.to_set(), p),
    {
        proof {
            assert(cached@.to_set().contains(p) == cached@.contains(p));
        }
        !vec_contains(cached, p) && !self.queued_pages.contains(&p) && !self.in_flight.contains_key(&p)
            && !self.failed_pages.contains_key(&p)
    }

    /// The pages to start decoding ahead of the reader on page `current` of
    /// a comic of `page_count` pages whose `cached` pages are decoded.
    pub fn dispatch_pages(&self, current: usize, page_count: usize, cached: &Vec<usize>) -> (r: Vec<usize>)
        ensures
            r@ == self.dispatch_plan(current, page_count, cached@.to_set()),
    {
        let mut r: Vec<usize> = Vec::new();
        if let Some(p) = current.checked_add(1) {
            if p < page_count && self.is_due(cached, p) {
                r.push(p);
            }
        }
        if let Some(p) = current.checked_add(2) {
            if p < page_count && self.is_due(cached, p) {
                r.push(p);
            }
        }
        if let Some(p) = current.checked_sub(1) {
            if p < page_count && self.is_due(cached, p) {
                r.push(p);
            }
        }
        proof {
            assert(r@ =~= self.dispatch_plan(current, page_count, cached@.to_set()));
        }
        r
    }

    /// The pages of `window` to start decoding in continuous mode: those
    /// that are due, in the order of `window`.
    pub fn continuous_dispatch_pages(&self, window: &Vec<usize>, cached: &Vec<usize>) -> (r: Vec<usize>)
        ensures
            r@ == window@.filter(|p: usize| self.due(cached@.to_set(), p)),
    {
        let ghost pred = |p: usize| self.due(cached@.to_set(), p);
        let mut r: Vec<usize> = Vec::new();
        let mut i: usize = 0;
        while i < window.len()
            invariant
                0 <= i <= window.len(),
                pred == (|p: usize| self.due(cached@.to_set(), p)),
                r@ == window@.take(i as int).filter(pred),
            decreases window.len() - i,
        {
            let p = window[i];
            proof {
                assert(window@.take(i + 1).drop_last() =~= window@.take(i as int));
                reveal(Seq::filter);
            }
            if self.is_due(cached, p) {
                r.push(p);
            }
            i += 1;
        }
        proof {
            assert(window@.take(window.len() as int) =~= window@);
        }
        r
    }

    /// Whether decodes are queued or in flight.
    pub fn has_work(&self) -> (r: bool)
        ensures
            r == (!self.queued_pages@.is_empty() || !self.in_flight@.is_empty()),
    {
        !self.queued_pages.is_empty() || !self.in_flight.is_empty()
    }
}

/// A page's sidebar thumbnail is still to be requested: it is not loaded,
/// not pending and did not fail before.
pub open spec fn thumbnail_due(loaded: Seq<usize>, pending: Set<usize>, failed: Set<usize>, p: usize) -> bool {
    !loaded.contains(p) && !pending.contains(p) && !failed.contains(p)
}

/// The visible pages whose sidebar thumbnails to request, in the order they
/// are shown.
pub fn page_thumbnail_candidates(
    visible_pages: &Vec<usize>,
    loaded: &Vec<usize>,
    pending: &HashSet<usize>,
    failed: &HashSet<usize>,
) -> (r: Vec<usize>)
    ensures
        r@ == visible_pages@.filter(|p: usize| thumbnail_due(loaded@, pending@, failed@, p)),
{
    let ghost pred = |p: usize| thumbnail_due(loaded@, pending@, failed@, p);
    let mut r: Vec<usize> = Vec::new();
    let mut i: usize = 0;
    while i < visible_pages.len()
        invariant
            0 <= i <= visible_pages.len(),
            pred == (|p: usize| thumbnail_due(loaded@, pending@, failed@, p)),
            r@ == visible_pages@.take(i as int).filter(pred),
        decreases visible_pages.len() - i,
    {
        let p = visible_pages[i];
        proof {
            assert(visible_pages@.take(i + 1).drop_last() =~= visible_pages@.take(i as int));
            reveal(Seq::filter);
        }
        if !vec_contains(loaded, p) && !pending.contains(&p) && !failed.contains(&p) {
            r.push(p);
        }
        i += 1;
    }
    proof {
        assert(visible_pages@.take(visible_pages.len() as int) =~= visible_pages@);
    }
    r
}

/// The pages of `requested` inside a comic of `page_count` pages, in
/// increasing order and each once: the window a continuous view keeps.
pub fn window_pages(requested: &Vec<usize>, page_count: usize) -> (r: Vec<usize>)
    ensures
        increasing(r@),
        forall|p: usize| r@.contains(p) <==> (requested@.contains(p) && p < page_count),
{
    let mut r: Vec<usize> = Vec::new();
    let mut i: usize = 0;
    while i < requested.len()
        invariant
            0 <= i <= requested.len(),
            increasing(r@),
            forall|p: usize| r@.contains(p) <==> (requested@.take(i as int).contains(p) && p < page_count),
        decreases requested.len() - i,
    {
        let p = requested[i];
        proof {
            assert(requested@.take(i + 1) =~= requested@.take(i as int).push(p));
            lemma_push_contains(requested@.take(i as int), p);
        }
        if p < page_count {
            insert_sorted(&mut r, p);
        }
        i += 1;
    }
    proof {
        assert(requested@.take(requested.len() as int) =~= requested@);
    }
    r
}

/// The last page index of a comic of `page_count` pages, clamping `page`
/// to it.
pub open spec fn clamped_page(page: usize, page_count: usize) -> usize {
    if page_count == 0 {
        0
    } else if page < page_count {
        page
    } else {
        (page_count - 1) as usize
    }
}

/// Moves the reader to `page_index`, clamped to the comic; moving to another
/// page starts a new prefetch generation. Returns the new page index.
pub fn set_current_page(
    prefetch: &mut PrefetchRuntime,
    current_page_index: usize,
    page_index: usize,
    page_count: usize,
) -> (r: usize)
    ensures
        r == clamped_page(page_index, page_count),
        r != current_page_index ==> final(prefetch).generation == next_generation(old(prefetch).generation),
        r == current_page_index ==> final(prefetch).generation == old(prefetch).generation,
        final(prefetch).queued_pages@ == old(prefetch).queued_pages@,
        final(prefetch).in_flight@ == old(prefetch).in_flight@,
        final(prefetch).failed_pages@ == old(prefetch).failed_pages@,
        final(prefetch).next_request_id == old(prefetch).next_request_id,
{
    let last = page_count.saturating_sub(1);
    let next = if page_index < last {
        page_index
    } else {
        last
    };
    if current_page_index != next {
        prefetch.advance_generation();
    }
    next
}

/// Where a reader stands in a comic, as stored.
#[derive(Debug, Clone, Copy, PartialEq, Eq, Structural)]
pub struct ProgressSnapshot {
    pub comic_id: i64,
    pub current_page: u32,
    pub is_read: bool,
}

/// The stored progress of a reader on `current_page_index` of a comic of
/// `page_count` pages: the page, and finished once on the last page. A comic
/// without pages is never finished.
pub open spec fn snapshot_of(comic_id: i64, current_page_index: usize, page_count: usize) -> ProgressSnapshot {
    ProgressSnapshot {
        comic_id,
        current_page: current_page_index as u32,
        is_read: page_count > 0 && current_page_index + 1 >= page_count,
    }
}

pub fn progress_snapshot(comic_id: i64, current_page_index: usize, page_count: usize) -> (r: ProgressSnapshot)
    ensures
        r == snapshot_of(comic_id, current_page_index, page_count),
{
    #[verifier::truncate]
    let current_page = current_page_index as u32;
    ProgressSnapshot {
        comic_id,
        current_page,
        is_read: page_count > 0 && current_page_index >= page_count - 1,
    }
}

/// The request id of a sidebar thumbnail: the thumbnail generation in the
/// high 32 bits, the page index (its low 32 bits) below.
pub open spec fn thumbnail_request(generation: u64, page_index: usize) -> u64 {
    (generation << 32u64) | ((page_index as u64) & 0xFFFF_FFFFu64)
}

pub fn page_thumbnail_request_id(generation: u64, page_index: usize) -> (r: DecodeRequestId)
    ensures
        r.0 == thumbnail_request(generation, page_index),
{
    DecodeRequestId((generation << 32u64) | ((page_index as u64) & 0xFFFF_FFFFu64))
}

/// Whether a sidebar thumbnail result belongs to the current thumbnail
/// generation.
pub fn is_current_page_thumbnail(generation: u64, request_id: DecodeRequestId) -> (r: bool)
    ensures
        r == (request_id.0 >> 32u64 == generation),
{
    request_id.0 >> 32u64 == generation
}

/// A thumbnail request made in a generation that fits in 32 bits is
/// recognised as current in that generation and in no other, and carries the
/// page index (when it fits in 32 bits).
pub proof fn lemma_thumbnail_request_round_trip(generation: u64, other: u64, page_index: u64)
    requires
        generation < 0x1_0000_0000,
        other != generation,
    ensures
        ((generation << 32u64) | (page_index & 0xFFFF_FFFFu64)) >> 32u64 == generation,
        ((generation << 32u64) | (page_index & 0xFFFF_FFFFu64)) >> 32u64 != other,
        page_index < 0x1_0000_0000 ==> ((generation << 32u64) | (page_index & 0xFFFF_FFFFu64)) & 0xFFFF_FFFFu64
            == page_index,
{
    assert(((generation << 32u64) | (page_index & 0xFFFF_FFFFu64)) >> 32u64 == generation) by (bit_vector)
        requires
            generation < 0x1_0000_0000,
    ;
    assert(page_index < 0x1_0000_0000 ==> ((generation << 32u64) | (page_index & 0xFFFF_FFFFu64)) & 0xFFFF_FFFFu64
        == page_index) by (bit_vector);
}

/// Why a library comic cannot be opened in the reader, if it cannot: it is
/// unavailable, or it has no readable pages.
pub open spec fn open_refusal(item: LibraryGridItem) -> Option<Seq<char>> {
    if item.availability != ComicAvailability::Available {
        Some("Comic is unavailable"@)
    } else if item.page_count == 0 {
        Some("Comic contains no readable pages"@)
    } else {
        None
    }
}

pub fn grid_item_open_error(item: &LibraryGridItem) -> (r: Option<&'static str>)
    ensures
        match r {
            Some(m) => open_refusal(*item) == Some(m@),
            None => open_refusal(*item) is None,
        },
{
    match item.availability {
        ComicAvailability::Unavailable => Some("Comic is unavailable"),
        ComicAvailability::Available => {
            if item.page_count == 0 {
                Some("Comic contains no readable pages")
            } else {
                None
            }
        },
    }
}

/// The page a comic reopens on: the start when it was finished, otherwise
/// the saved page clamped to the comic.
pub open spec fn resume_page(progress: Progress, page_count: u32) -> int {
    if progress.is_read {
        0
    } else if page_count == 0 {
        0
    } else if progress.current_page < page_count {
        progress.current_page as int
    } else {
        page_count - 1
    }
}

pub fn resume_target(progress: &Progress, page_count: u32) -> (r: usize)
    ensures
        r == resume_page(*progress, page_count),
{
    if progress.is_read {
        return 0;
    }
    let last = page_count.saturating_sub(1);
    let page = if progress.current_page < last {
        progress.current_page
    } else {
        last
    };
    page as usize
}

} // verus!

verus! {

/// How a finished decode was taken in.
#[derive(Debug, Clone, Copy, PartialEq, Eq, Structural)]
pub enum Reconciled {
    /// The request was replaced, cancelled or from an earlier generation.
    Stale,
    /// The page was decoded and is now cached.
    Cached,
    /// The page failed and is remembered as failed.
    Failed,
}

/// The request of `page_index` tracked in `prefetch` is `request_id`, and
/// was made in the current generation.
pub open spec fn tracked_fresh(prefetch: PrefetchRuntime, request_id: DecodeRequestId, page_index: usize) -> bool {
    &&& prefetch.in_flight@.contains_key(page_index)
    &&& prefetch.in_flight@[page_index].request_id == request_id
    &&& accepted_generation(prefetch.in_flight@[page_index].generation, prefetch.generation)
}

/// Takes in a finished decode of `page_index`: a result for a request that
/// is no longer wanted is dropped; a fresh page enters the cache, and a
/// fresh failure is remembered. When the page was the reader's own request
/// for the page on screen, the viewer shows it (or its failure). Whether
/// the request was cancelled is read from its token's shared flag, and
/// `reconcile_decode_given` decides.
pub fn reconcile_decode<T: Clone>(
    prefetch: &mut PrefetchRuntime,
    cache: &mut PageTextureCache<CachedPage<T>>,
    viewer: &mut ViewerState<T>,
    current_page_index: usize,
    request_id: DecodeRequestId,
    page_index: usize,
    purpose: DecodePurpose,
    outcome: Result<(T, PixelSize), String>,
) -> (r: Reconciled)
    requires
        old(cache).wf(),
    ensures
        final(cache).wf(),
        !tracked_fresh(*old(prefetch), request_id, page_index) ==> r == Reconciled::Stale,
        r == Reconciled::Stale ==> {
            &&& final(cache).textures() == old(cache).textures()
            &&& final(cache).pages() == old(cache).pages()
            &&& *final(viewer) == *old(viewer)
            &&& final(prefetch).failed_pages@ == old(prefetch).failed_pages@
        },
        r != Reconciled::Stale ==> tracked_fresh(*old(prefetch), request_id, page_index)
            && final(prefetch).in_flight@ == old(prefetch).in_flight@.remove(page_index),
        outcome is Ok ==> r != Reconciled::Failed,
        outcome is Err ==> r != Reconciled::Cached,
        r == Reconciled::Cached ==> (outcome matches Ok(decoded) && {
            &&& final(cache).textures().contains_key(page_index)
            &&& final(cache).textures()[page_index].pixel_size == decoded.1
            &&& final(cache).pages()[0] == page_index
            &&& final(prefetch).failed_pages@ == old(prefetch).failed_pages@
            &&& (purpose == DecodePurpose::Direct && page_index == current_page_index) ==> (final(viewer).page_status
                matches PageStatus::Ready { page_id, pixel_size, .. } && page_id == PageId(page_index as u64)
                && pixel_size == decoded.1)
            &&& !(purpose == DecodePurpose::Direct && page_index == current_page_index) ==> *final(viewer)
                == *old(viewer)
        }),
        r == Reconciled::Failed ==> (outcome matches Err(message) && {
            &&& final(prefetch).failed_pages@ == old(prefetch).failed_pages@.insert(page_index, message)
            &&& final(cache).textures() == old(cache).textures()
            &&& final(cache).pages() == old(cache).pages()
            &&& (purpose == DecodePurpose::Direct && page_index == current_page_index) ==> final(viewer).page_status
                == (PageStatus::<T>::Failed { page_id: PageId(page_index as u64), message })
            &&& !(purpose == DecodePurpose::Direct && page_index == current_page_index) ==> *final(viewer)
                == *old(viewer)
        }),
        (old(prefetch).in_flight@.contains_key(page_index) && old(prefetch).in_flight@[page_index].request_id
            == request_id) ==> final(prefetch).in_flight@ == old(prefetch).in_flight@.remove(page_index),
        !(old(prefetch).in_flight@.contains_key(page_index) && old(prefetch).in_flight@[page_index].request_id
            == request_id) ==> final(prefetch).in_flight@ == old(prefetch).in_flight@,
        final(prefetch).generation == old(prefetch).generation,
        final(prefetch).queued_pages@ == old(prefetch).queued_pages@,
        final(prefetch).next_request_id == old(prefetch).next_request_id,
{
    let cancelled = prefetch.tracked_cancelled(page_index);
    reconcile_decode_given(
        prefetch,
        cache,
        viewer,
        current_page_index,
        request_id,
        page_index,
        purpose,
        outcome,
        cancelled,
    )
}

/// Takes in a finished decode of `page_index`, given whether its request
/// was cancelled: the result is taken exactly when its request is the one
/// tracked for the page, made in the current generation and not cancelled;
/// then a decoded page is cached and a failure is remembered.
pub fn reconcile_decode_given<T: Clone>(
    prefetch: &mut PrefetchRuntime,
    cache: &mut PageTextureCache<CachedPage<T>>,
    viewer: &mut ViewerState<T>,
    current_page_index: usize,
    request_id: DecodeRequestId,
    page_index: usize,
    purpose: DecodePurpose,
    outcome: Result<(T, PixelSize), String>,
    cancelled: bool,
) -> (r: Reconciled)
    requires
        old(cache).wf(),
    ensures
        final(cache).wf(),
        !tracked_fresh(*old(prefetch), request_id, page_index) ==> r == Reconciled::Stale,
        r == Reconciled::Stale ==> {
            &&& final(cache).textures() == old(cache).textures()
            &&& final(cache).pages() == old(cache).pages()
            &&& *final(viewer) == *old(viewer)
            &&& final(prefetch).failed_pages@ == old(prefetch).failed_pages@
        },
        r != Reconciled::Stale ==> tracked_fresh(*old(prefetch), request_id, page_index)
            && final(prefetch).in_flight@ == old(prefetch).in_flight@.remove(page_index),
        outcome is Ok ==> r != Reconciled::Failed,
        outcome is Err ==> r != Reconciled::Cached,
        r == Reconciled::Cached ==> (outcome matches Ok(decoded) && {
            &&& final(cache).textures().contains_key(page_index)
            &&& final(cache).textures()[page_index].pixel_size == decoded.1
            &&& final(cache).pages()[0] == page_index
            &&& final(prefetch).failed_pages@ == old(prefetch).failed_pages@
            &&& (purpose == DecodePurpose::Direct && page_index == current_page_index) ==> (final(viewer).page_status
                matches PageStatus::Ready { page_id, pixel_size, .. } && page_id == PageId(page_index as u64)
                && pixel_size == decoded.1)
            &&& !(purpose == DecodePurpose::Direct && page_index == current_page_index) ==> *final(viewer)
                == *old(viewer)
        }),
        r == Reconciled::Failed ==> (outcome matches Err(message) && {
            &&& final(prefetch).failed_pages@ == old(prefetch).failed_pages@.insert(page_index, message)
            &&& final(cache).textures() == old(cache).textures()
            &&& final(cache).pages() == old(cache).pages()
            &&& (purpose == DecodePurpose::Direct && page_index == current_page_index) ==> final(viewer).page_status
                == (PageStatus::<T>::Failed { page_id: PageId(page_index as u64), message })
            &&& !(purpose == DecodePurpose::Direct && page_index == current_page_index) ==> *final(viewer)
                == *old(viewer)
        }),
        (old(prefetch).in_flight@.contains_key(page_index) && old(prefetch).in_flight@[page_index].request_id
            == request_id) ==> final(prefetch).in_flight@ == old(prefetch).in_flight@.remove(page_index),
        !(old(prefetch).in_flight@.contains_key(page_index) && old(prefetch).in_flight@[page_index].request_id
            == request_id) ==> final(prefetch).in_flight@ == old(prefetch).in_flight@,
        final(prefetch).generation == old(prefetch).generation,
        final(prefetch).queued_pages@ == old(prefetch).queued_pages@,
        final(prefetch).next_request_id == old(prefetch).next_request_id,
        tracked_fresh(*old(prefetch), request_id, page_index) && !cancelled ==> r == (if outcome is Ok {
            Reconciled::Cached
        } else {
            Reconciled::Failed
        }),
        !(tracked_fresh(*old(prefetch), request_id, page_index) && !cancelled) ==> r == Reconciled::Stale,
{
    if prefetch.complete_fresh_request_given(request_id, page_index, cancelled).is_none() {
        return Reconciled::Stale;
    }
    let shown = match purpose {
        DecodePurpose::Direct => page_index == current_page_index,
        _ => false,
    };
    match outcome {
        Ok((texture, pixel_size)) => {
            if shown {
                viewer.set_ready(PageId(page_index as u64), texture.clone(), pixel_size);
            }
            cache.insert(page_index, CachedPage { texture, pixel_size });
            Reconciled::Cached
        },
        Err(message) => {
            if shown {
                viewer.set_failed(PageId(page_index as u64), message.clone());
            }
            prefetch.record_failed_page(page_index, message);
            Reconciled::Failed
        },
    }
}

} // verus!

verus! {

/// Forgets every decode made under the previous rendering settings (a new
/// rotation or new image adjustments): in-flight and queued requests are
/// cancelled, failures are forgotten, results still on their way become
/// stale, the page cache is emptied and the next page is no longer loaded.
pub fn invalidate_decoded_pages<T>(
    prefetch: &mut PrefetchRuntime,
    cache: &mut PageTextureCache<CachedPage<T>>,
    viewer: &mut ViewerState<T>,
)
    requires
        old(cache).wf(),
    ensures
        final(prefetch).in_flight@ == Map::<usize, InFlightPrefetch>::empty(),
        final(prefetch).queued_pages@ == Set::<usize>::empty(),
        final(prefetch).failed_pages@ == Map::<usize, String>::empty(),
        final(prefetch).generation == next_generation(old(prefetch).generation),
        final(prefetch).next_request_id == old(prefetch).next_request_id,
        final(cache).wf(),
        final(cache).pages().len() == 0,
        final(cache).textures() == Map::<usize, CachedPage<T>>::empty(),
        final(cache).cap() == old(cache).cap(),
        *final(viewer) == (ViewerState { next_page_status: PageStatus::Empty, ..*old(viewer) }),
{
    prefetch.cancel_all();
    prefetch.failed_pages.clear();
    prefetch.advance_generation();
    cache.clear();
    viewer.next_page_status = PageStatus::Empty;
}

} // verus!

verus! {

/// Fills in the page shown beside the current one in a spread: nothing when
/// spreads are off, no page past the last, and otherwise the page's decoded
/// texture from the cache, its remembered failure, or a loading marker while
/// its decode is still on its way. Returns whether it is still loading.
pub fn load_spread_next_page<T: Clone>(
    viewer: &mut ViewerState<T>,
    cache: &mut PageTextureCache<CachedPage<T>>,
    prefetch: &PrefetchRuntime,
    spread_mode_enabled: bool,
    current_page_index: usize,
    page_count: usize,
) -> (loading: bool)
    requires
        old(cache).wf(),
    ensures
        final(cache).wf(),
        final(cache).textures() == old(cache).textures(),
        final(cache).cap() == old(cache).cap(),
        ({
            let next = current_page_index + 1;
            let next_id = PageId(next as u64);
            if !spread_mode_enabled {
                *final(viewer) == *old(viewer) && !loading
            } else if next >= page_count {
                *final(viewer) == (ViewerState { next_page_status: PageStatus::Empty, ..*old(viewer) }) && !loading
            } else if old(viewer).next_page_status matches PageStatus::Ready { page_id, .. } && page_id == next_id {
                *final(viewer) == *old(viewer) && !loading
            } else if old(cache).textures().contains_key(next as usize) {
                &&& final(viewer).next_page_status matches PageStatus::Ready { page_id, pixel_size, .. }
                    && page_id == next_id && pixel_size == old(cache).textures()[next as usize].pixel_size
                &&& crate::viewer::state::page_kept(*old(viewer), *final(viewer))
                &&& crate::viewer::state::settings_kept(*old(viewer), *final(viewer))
                &&& !loading
            } else if prefetch.failed_pages@.contains_key(next as usize) {
                &&& final(viewer).next_page_status == (PageStatus::<T>::Failed {
                    page_id: next_id,
                    message: prefetch.failed_pages@[next as usize],
                })
                &&& crate::viewer::state::page_kept(*old(viewer), *final(viewer))
                &&& crate::viewer::state::settings_kept(*old(viewer), *final(viewer))
                &&& !loading
            } else {
                &&& final(viewer).next_page_status == (PageStatus::<T>::Loading { page_id: next_id })
                &&& crate::viewer::state::page_kept(*old(viewer), *final(viewer))
                &&& crate::viewer::state::settings_kept(*old(viewer), *final(viewer))
                &&& loading
            }
        }),
{
    if !spread_mode_enabled {
        return false;
    }
    let next = current_page_index.saturating_add(1);
    if next >= page_count {
        viewer.next_page_status = PageStatus::Empty;
        return false;
    }
    let next_id = PageId(next as u64);
    let already = match &viewer.next_page_status {
        PageStatus::Ready { page_id, .. } => page_id.0 == next_id.0,
        _ => false,
    };
    if already {
        return false;
    }
    let cached = match cache.get(next) {
        Some(page) => Some((page.texture.clone(), page.pixel_size)),
        None => None,
    };
    if let Some((texture, pixel_size)) = cached {
        viewer.set_next_ready(next_id, texture, pixel_size);
        return false;
    }
    if let Some(message) = prefetch.failed_pages.get(&next) {
        viewer.set_next_failed(next_id, message.clone());
        return false;
    }
    viewer.set_next_loading(next_id);
    true
}

} // verus!

verus! {

/// Turns the pages to `rotation`. When it differs from the current
/// rotation, every decode made under the old orientation is forgotten, as
/// `invalidate_decoded_pages` does, and zoom and pan start over; otherwise
/// nothing changes. Returns
/// whether the rotation changed.
pub fn apply_rotation<T>(
    current: &mut Rotation,
    rotation: Rotation,
    prefetch: &mut PrefetchRuntime,
    cache: &mut PageTextureCache<CachedPage<T>>,
    viewer: &mut ViewerState<T>,
) -> (changed: bool)
    requires
        old(cache).wf(),
    ensures
        changed == (*old(current) != rotation),
        *final(current) == rotation,
        final(cache).wf(),
        !changed ==> {
            &&& final(prefetch).in_flight@ == old(prefetch).in_flight@
            &&& final(prefetch).queued_pages@ == old(prefetch).queued_pages@
            &&& final(prefetch).failed_pages@ == old(prefetch).failed_pages@
            &&& final(prefetch).generation == old(prefetch).generation
            &&& final(prefetch).next_request_id == old(prefetch).next_request_id
            &&& final(cache).pages() == old(cache).pages()
            &&& final(cache).textures() == old(cache).textures()
            &&& final(cache).cap() == old(cache).cap()
            &&& *final(viewer) == *old(viewer)
        },
        changed ==> {
            &&& final(prefetch).in_flight@ == Map::<usize, InFlightPrefetch>::empty()
            &&& final(prefetch).queued_pages@ == Set::<usize>::empty()
            &&& final(prefetch).failed_pages@ == Map::<usize, String>::empty()
            &&& final(prefetch).generation == next_generation(old(prefetch).generation)
            &&& final(prefetch).next_request_id == old(prefetch).next_request_id
            &&& final(cache).pages().len() == 0
            &&& final(cache).textures() == Map::<usize, CachedPage<T>>::empty()
            &&& final(cache).cap() == old(cache).cap()
            &&& *final(viewer) == (ViewerState {
                next_page_status: PageStatus::Empty,
                zoom: ZoomIdentity {
                    active_page_id: None,
                    active_composition: None,
                    reset_generation: bumped(old(viewer).zoom.reset_generation),
                },
                ..*old(viewer)
            })
        },
{
    if *current == rotation {
        return false;
    }
    *current = rotation;
    invalidate_decoded_pages(prefetch, cache, viewer);
    viewer.zoom.start_over();
    true
}

} // verus!
