//! Which pages to decode ahead of the reader, and which decode results are
//! still wanted.
use std::collections::HashSet;
use vstd::prelude::*;

use crate::decode::DecodeRequestId;

verus! {

broadcast use vstd::std_specs::hash::group_hash_axioms;

/// The generation of the page the reader is on; it advances whenever the
/// reader moves away, so older results can be told apart.
#[derive(Debug, Clone, Copy, PartialEq, Eq, Hash, Structural)]
pub struct PageGeneration(pub u64);

/// What the prefetcher knows about the pages of a comic.
#[derive(Debug, PartialEq, Eq)]
pub struct PrefetchState {
    pub page_count: usize,
    pub cached: HashSet<usize>,
    pub queued: HashSet<usize>,
    pub in_flight: HashSet<usize>,
}

impl Default for PrefetchState {
    fn default() -> (r: Self)
        ensures
            r.page_count == 0,
            r.cached@ == Set::<usize>::empty(),
            r.queued@ == Set::<usize>::empty(),
            r.in_flight@ == Set::<usize>::empty(),
    {
        PrefetchState {
            page_count: 0,
            cached: HashSet::new(),
            queued: HashSet::new(),
            in_flight: HashSet::new(),
        }
    }
}

/// Page `p` exists and is neither cached, queued nor being decoded.
pub open spec fn wanted(state: PrefetchState, p: int) -> bool {
    &&& 0 <= p < state.page_count
    &&& !state.cached@.contains(p as usize)
    &&& !state.queued@.contains(p as usize)
    &&& !state.in_flight@.contains(p as usize)
}

/// `seq![p]` when page `p` is wanted, empty otherwise.
pub open spec fn if_wanted(state: PrefetchState, p: int) -> Seq<usize> {
    if wanted(state, p) {
        seq![p as usize]
    } else {
        Seq::empty()
    }
}

/// The pages to prefetch around `current`, in the order they are wanted:
/// the next page, the one after it, then the previous page.
pub open spec fn prefetch_plan(current: usize, state: PrefetchState) -> Seq<usize> {
    if_wanted(state, current + 1) + if_wanted(state, current + 2) + if_wanted(state, current - 1)
}

fn wanted_page(state: &PrefetchState, p: usize) -> (r: bool)
    ensures
        r == wanted(*state, p as int),
{
    p < state.page_count && !state.cached.contains(&p) && !state.queued.contains(&p)
        && !state.in_flight.contains(&p)
}

/// The prefetcher asks for exactly the pages next to the reader that are
/// wanted: the next page, the one after it and the previous page, each
/// when it exists and is neither cached, queued nor being decoded; the next
/// page comes first, the previous page last.
pub proof fn lemma_prefetch_neighbours(current: usize, state: PrefetchState, p: usize)
    ensures
        prefetch_plan(current, state).contains(p) <==> ((p == current + 1 || p == current + 2 || (current >= 1 && p
            == current - 1)) && wanted(state, p as int)),
        wanted(state, current + 1) ==> prefetch_plan(current, state)[0] == current + 1,
        current >= 1 && wanted(state, current - 1) ==> prefetch_plan(current, state).last() == current - 1,
        prefetch_plan(current, state).len() <= 3,
{
    let plan = prefetch_plan(current, state);
    let a = if_wanted(state, current + 1);
    let b = if_wanted(state, current + 2);
    let c = if_wanted(state, current - 1);
    assert(plan == a + b + c);
    if plan.contains(p) {
        let k = choose|k: int| 0 <= k < plan.len() && plan[k] == p;
        if k < a.len() {
            assert(plan[k] == a[k]);
        } else if k < a.len() + b.len() {
            assert(plan[k] == b[k - a.len()]);
        } else {
            assert(plan[k] == c[k - a.len() - b.len()]);
        }
    }
    if (p == current + 1 || p == current + 2 || (current >= 1 && p == current - 1)) && wanted(state, p as int) {
        if p == current + 1 {
            assert(plan[0] == p);
        } else if p == current + 2 {
            assert(plan[a.len() as int] == p);
        } else {
            assert(plan[(a.len() + b.len()) as int] == p);
        }
    }
}

/// The pages worth decoding ahead of the reader on page `current`: the next
/// two and the previous one, leaving out pages past the end and pages that
/// are cached, queued or in flight.
pub fn prefetch_candidates(current: usize, state: &PrefetchState) -> (r: Vec<usize>)
    ensures
        r@ == prefetch_plan(current, *state),
{
    let mut r: Vec<usize> = Vec::new();
    if let Some(p) = current.checked_add(1) {
        if wanted_page(state, p) {
            r.push(p);
        }
    }
    if let Some(p) = current.checked_add(2) {
        if wanted_page(state, p) {
            r.push(p);
        }
    }
    if let Some(p) = current.checked_sub(1) {
        if wanted_page(state, p) {
            r.push(p);
        }
    }
    proof {
        assert(r@ =~= prefetch_plan(current, *state));
    }
    r
}

/// In spread mode the same pages are prefetched as in single-page mode.
pub fn spread_prefetch_candidates(current: usize, state: &PrefetchState) -> (r: Vec<usize>)
    ensures
        r@ == prefetch_plan(current, *state),
{
    prefetch_candidates(current, state)
}

/// A decode result still belongs to the page on display: same generation and,
/// when a request is being waited for, that very request.
pub open spec fn matches_generation(
    active_generation: PageGeneration,
    result_generation: PageGeneration,
    active_request_id: Option<DecodeRequestId>,
    result_request_id: DecodeRequestId,
) -> bool {
    &&& active_generation == result_generation
    &&& match active_request_id {
        Some(active) => active == result_request_id,
        None => true,
    }
}

pub fn result_matches_generation(
    active_generation: PageGeneration,
    result_generation: PageGeneration,
    active_request_id: Option<DecodeRequestId>,
    result_request_id: DecodeRequestId,
) -> (r: bool)
    ensures
        r == matches_generation(active_generation, result_generation, active_request_id, result_request_id),
{
    active_generation.0 == result_generation.0 && match active_request_id {
        Some(active) => active.0 == result_request_id.0,
        None => true,
    }
}

/// A decode result that no longer belongs to the page on display.
pub fn is_stale_result(
    active_generation: PageGeneration,
    result_generation: PageGeneration,
    active_request_id: Option<DecodeRequestId>,
    result_request_id: DecodeRequestId,
) -> (r: bool)
    ensures
        r == !matches_generation(active_generation, result_generation, active_request_id, result_request_id),
{
    !result_matches_generation(active_generation, result_generation, active_request_id, result_request_id)
}

} // verus!
