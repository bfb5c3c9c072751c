//! Continuous (scrolling) reading: where a page's size came from, and which
//! pages a scrolled window touches.
use vstd::prelude::*;

verus! {

/// Where the size a continuous view lays a page out with came from.
#[derive(Debug, Clone, Copy, PartialEq, Eq, Structural)]
pub enum PageMeasurementSource {
    Unknown,
    Placeholder,
    Actual,
    FailedPlaceholder,
}

/// Every element of `s` is smaller than the next.
pub open spec fn increasing(s: Seq<usize>) -> bool {
    forall|i: int, j: int| 0 <= i < j < s.len() ==> s[i] < s[j]
}

/// Adds `x` to the increasing `v`, where it belongs, unless it is there.
pub(crate) fn insert_sorted(v: &mut Vec<usize>, x: usize)
    requires
        increasing(old(v)@),
    ensures
        increasing(final(v)@),
        forall|p: usize| final(v)@.contains(p) <==> (old(v)@.contains(p) || p == x),
{
    let mut i: usize = 0;
    while i < v.len() && v[i] < x
        invariant
            0 <= i <= v.len(),
            v@ == old(v)@,
            increasing(v@),
            forall|k: int| 0 <= k < i ==> v@[k] < x,
        decreases v.len() - i,
    {
        i += 1;
    }
    if i < v.len() && v[i] == x {
        proof {
            assert(v@[i as int] == x);
        }
        return;
    }
    let ghost before = v@;
    v.insert(i, x);
    proof {
        assert(v@ =~= before.take(i as int).push(x) + before.skip(i as int));
        assert forall|a: int, b: int| 0 <= a < b < v@.len() implies v@[a] < v@[b] by {
            if b < i {
            } else if b == i {
            } else if a < i {
                assert(v@[b] == before[b - 1]);
                assert(before[b - 1] >= x || b - 1 == i as int);
            } else if a == i {
                assert(v@[b] == before[b - 1]);
            } else {
                assert(v@[a] == before[a - 1]);
                assert(v@[b] == before[b - 1]);
            }
        }
        assert forall|p: usize| #![trigger v@.contains(p)] #![trigger before.contains(p)]
            v@.contains(p) <==> (before.contains(p) || p == x) by {
            if v@.contains(p) {
                let k = choose|k: int| 0 <= k < v@.len() && v@[k] == p;
                if k < i {
                    assert(before[k] == p);
                } else if k > i {
                    assert(before[k - 1] == p);
                }
            }
            if before.contains(p) {
                let k = choose|k: int| 0 <= k < before.len() && before[k] == p;
                if k < i {
                    assert(v@[k] == p);
                } else {
                    assert(v@[k + 1] == p);
                }
            }
            if p == x {
                assert(v@[i as int] == x);
            }
        }
        assert(before == old(v)@);
    }
}

/// A page window: every page that is visible or drawn ahead, in increasing
/// order and each once.
pub fn all_window_pages(visible_pages: &Vec<usize>, overdraw_pages: &Vec<usize>) -> (r: Vec<usize>)
    ensures
        increasing(r@),
        forall|p: usize| r@.contains(p) <==> (visible_pages@.contains(p) || overdraw_pages@.contains(p)),
{
    let mut r: Vec<usize> = Vec::new();
    let mut i: usize = 0;
    while i < visible_pages.len()
        invariant
            0 <= i <= visible_pages.len(),
            increasing(r@),
            forall|p: usize| r@.contains(p) <==> visible_pages@.take(i as int).contains(p),
        decreases visible_pages.len() - i,
    {
        let p = visible_pages[i];
        proof {
            lemma_take_next_contains(visible_pages@, i as int);
        }
        insert_sorted(&mut r, p);
        i += 1;
    }
    proof {
        assert(visible_pages@.take(visible_pages.len() as int) =~= visible_pages@);
    }
    let mut j: usize = 0;
    while j < overdraw_pages.len()
        invariant
            0 <= j <= overdraw_pages.len(),
            increasing(r@),
            forall|p: usize| r@.contains(p) <==> (visible_pages@.contains(p) || overdraw_pages@.take(j as int).contains(p)),
        decreases overdraw_pages.len() - j,
    {
        let p = overdraw_pages[j];
        proof {
            lemma_take_next_contains(overdraw_pages@, j as int);
        }
        insert_sorted(&mut r, p);
        j += 1;
    }
    proof {
        assert(overdraw_pages@.take(overdraw_pages.len() as int) =~= overdraw_pages@);
    }
    r
}

proof fn lemma_take_next_contains(s: Seq<usize>, i: int)
    requires
        0 <= i < s.len(),
    ensures
        forall|q: usize| #[trigger] s.take(i + 1).contains(q) <==> (s.take(i).contains(q) || q == s[i]),
{
    assert(s.take(i + 1) =~= s.take(i).push(s[i]));
    assert forall|q: usize| #[trigger] s.take(i + 1).contains(q) <==> (s.take(i).contains(q) || q == s[i]) by {
        if s.take(i + 1).contains(q) {
            let k = choose|k: int| 0 <= k < i + 1 && #[trigger] s.take(i + 1)[k] == q;
            if k < i {
                assert(s.take(i)[k] == q);
            }
        }
        if s.take(i).contains(q) {
            let k = choose|k: int| 0 <= k < i && #[trigger] s.take(i)[k] == q;
            assert(s.take(i + 1)[k] == q);
        }
        if q == s[i] {
            assert(s.take(i + 1)[i] == q);
        }
    }
}

/// The pages drawn just outside the visible run of a comic of `page_count`
/// pages: the one before the first visible page and the one after the last,
/// where they exist.
pub open spec fn overdraw_of(visible_pages: Seq<usize>, page_count: usize) -> Seq<usize> {
    if visible_pages.len() == 0 {
        Seq::empty()
    } else {
        let first = visible_pages[0];
        let last = visible_pages.last();
        (if first > 0 {
            seq![(first - 1) as usize]
        } else {
            Seq::empty()
        }) + (if last + 1 < page_count {
            seq![(last + 1) as usize]
        } else {
            Seq::empty()
        })
    }
}

/// The pages to draw ahead of a visible run, one on each side.
pub fn overdraw_pages(visible_pages: &Vec<usize>, page_count: usize) -> (r: Vec<usize>)
    ensures
        r@ == overdraw_of(visible_pages@, page_count),
{
    let mut r: Vec<usize> = Vec::new();
    if visible_pages.len() == 0 {
        return r;
    }
    let first = visible_pages[0];
    let last = visible_pages[visible_pages.len() - 1];
    if let Some(before) = first.checked_sub(1) {
        r.push(before);
    }
    if let Some(next) = last.checked_add(1) {
        if next < page_count {
            r.push(next);
        }
    }
    proof {
        assert(r@ =~= overdraw_of(visible_pages@, page_count));
    }
    r
}

} // verus!
