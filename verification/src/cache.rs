//! A bounded cache of decoded page textures, evicting the page used least
//! recently. The recency order is kept by the `lru` crate; the textures are
//! kept beside it, one per cached page.
use std::collections::HashMap;
use std::num::NonZeroUsize;
use vstd::prelude::*;

use crate::library::models::ArchivePage;
use crate::text::{chars_eq, chars_of, decimal, decimal_chars, owned, push_chars};
use crate::vfs::archive::ArchiveReader;
use crate::viewer::layout::PixelSize;

verus! {

broadcast use vstd::std_specs::hash::group_hash_axioms;

#[verifier::external_type_specification]
#[verifier::external_body]
#[verifier::reject_recursive_types(K)]
#[verifier::reject_recursive_types(V)]
#[verifier::reject_recursive_types(S)]
pub struct ExLruCache<K, V, S>(lru::LruCache<K, V, S>);

#[verifier::external_type_specification]
#[verifier::external_body]
pub struct ExLruHasher(lru::DefaultHasher);

/// The keys of an `lru::LruCache`, most recently used first.
pub uninterp spec fn lru_keys(c: lru::LruCache<usize, ()>) -> Seq<usize>;

/// The capacity an `lru::LruCache` was made or last resized with.
pub uninterp spec fn lru_capacity(c: lru::LruCache<usize, ()>) -> nat;

/// The keys of `s` other than `k`, in order.
pub open spec fn without(s: Seq<usize>, k: usize) -> Seq<usize> {
    s.filter(|x: usize| x != k)
}

/// `LruCache::new`: an empty cache holding at most `cap` keys.
#[verifier::external_body]
fn lru_new(cap: usize) -> (r: lru::LruCache<usize, ()>)
    requires
        cap > 0,
    ensures
        lru_keys(r) == Seq::<usize>::empty(),
        lru_capacity(r) == cap,
{
    lru::LruCache::new(NonZeroUsize::new(cap).unwrap())
}

/// `LruCache::push`: `k` becomes the most recently used key. A key already
/// cached is moved to the front and reported back; otherwise, in a full cache,
/// the least recently used key is dropped and reported; otherwise nothing is
/// reported.
#[verifier::external_body]
fn lru_push(c: &mut lru::LruCache<usize, ()>, k: usize) -> (r: Option<usize>)
    requires
        lru_keys(*old(c)).no_duplicates(),
        lru_keys(*old(c)).len() <= lru_capacity(*old(c)),
        lru_capacity(*old(c)) > 0,
    ensures
        lru_capacity(*final(c)) == lru_capacity(*old(c)),
        lru_keys(*old(c)).contains(k) ==> r == Some(k) && lru_keys(*final(c)) == seq![k] + without(
            lru_keys(*old(c)),
            k,
        ),
        !lru_keys(*old(c)).contains(k) && lru_keys(*old(c)).len() == lru_capacity(*old(c)) ==> r == Some(
            lru_keys(*old(c)).last(),
        ) && lru_keys(*final(c)) == seq![k] + lru_keys(*old(c)).drop_last(),
        !lru_keys(*old(c)).contains(k) && lru_keys(*old(c)).len() < lru_capacity(*old(c)) ==> r is None
            && lru_keys(*final(c)) == seq![k] + lru_keys(*old(c)),
{
    c.push(k, ()).map(|(key, _)| key)
}

/// `LruCache::promote`: a cached key becomes the most recently used one.
#[verifier::external_body]
fn lru_promote(c: &mut lru::LruCache<usize, ()>, k: usize) -> (r: bool)
    ensures
        r == lru_keys(*old(c)).contains(k),
        lru_capacity(*final(c)) == lru_capacity(*old(c)),
        r ==> lru_keys(*final(c)) == seq![k] + without(lru_keys(*old(c)), k),
        !r ==> lru_keys(*final(c)) == lru_keys(*old(c)),
{
    c.promote(&k)
}

/// `LruCache::contains`: whether `k` is cached, without touching its
/// recency.
#[verifier::external_body]
fn lru_contains(c: &lru::LruCache<usize, ()>, k: usize) -> (r: bool)
    ensures
        r == lru_keys(*c).contains(k),
{
    c.contains(&k)
}

/// `LruCache::pop_lru`: removes and returns the least recently used key.
#[verifier::external_body]
fn lru_pop_lru(c: &mut lru::LruCache<usize, ()>) -> (r: Option<usize>)
    ensures
        lru_capacity(*final(c)) == lru_capacity(*old(c)),
        lru_keys(*old(c)).len() == 0 ==> r is None && lru_keys(*final(c)) == lru_keys(*old(c)),
        lru_keys(*old(c)).len() > 0 ==> r == Some(lru_keys(*old(c)).last()) && lru_keys(*final(c)) == lru_keys(
            *old(c),
        ).drop_last(),
{
    c.pop_lru().map(|(key, _)| key)
}

/// `LruCache::cap`: the capacity.
#[verifier::external_body]
fn lru_cap(c: &lru::LruCache<usize, ()>) -> (r: usize)
    ensures
        r == lru_capacity(*c),
{
    c.cap().get()
}

/// `LruCache::resize` to a capacity no smaller than the number of cached
/// keys, which keeps every key in place.
#[verifier::external_body]
fn lru_grow(c: &mut lru::LruCache<usize, ()>, cap: usize)
    requires
        cap > 0,
        cap >= lru_keys(*old(c)).len(),
    ensures
        lru_keys(*final(c)) == lru_keys(*old(c)),
        lru_capacity(*final(c)) == cap,
{
    c.resize(NonZeroUsize::new(cap).unwrap())
}

/// `LruCache::clear`: drops every key.
#[verifier::external_body]
fn lru_clear(c: &mut lru::LruCache<usize, ()>)
    ensures
        lru_keys(*final(c)) == Seq::<usize>::empty(),
        lru_capacity(*final(c)) == lru_capacity(*old(c)),
{
    c.clear()
}

/// `LruCache::iter`, keys only: the cached keys, most recently used first.
#[verifier::external_body]
fn lru_key_list(c: &lru::LruCache<usize, ()>) -> (r: Vec<usize>)
    ensures
        r@ == lru_keys(*c),
{
    c.iter().map(|(key, _)| *key).collect()
}

/// Pages cached when no capacity is asked for.
pub const DEFAULT_PAGE_CACHE_CAPACITY: usize = 5;

/// The most pages the cache may hold, enough for the pages a tall window
/// shows in continuous scrolling plus their neighbours.
pub const MAX_PAGE_CACHE_CAPACITY: usize = 16;

/// Why a page cache could not be made.
#[derive(Debug, Clone, PartialEq, Eq, Structural)]
pub enum PageTextureCacheError {
    ZeroCapacity,
    CapacityTooLarge { capacity: usize, max: usize },
}

impl PageTextureCacheError {
    /// The text of the error as shown to the user.
    pub fn message(&self) -> (r: String)
        ensures
            *self == PageTextureCacheError::ZeroCapacity ==> r@ == "cache capacity must be at least one"@,
            self matches PageTextureCacheError::CapacityTooLarge { capacity, max } ==> r@ == "cache capacity "@
                + decimal(capacity as nat) + " exceeds max "@ + decimal(max as nat),
    {
        match self {
            PageTextureCacheError::ZeroCapacity => owned("cache capacity must be at least one"),
            PageTextureCacheError::CapacityTooLarge { capacity, max } => {
                let mut s = owned("cache capacity ");
                let c = decimal_chars(*capacity as u64);
                push_chars(&mut s, &c);
                let mid = chars_of(" exceeds max ");
                push_chars(&mut s, &mid);
                let m = decimal_chars(*max as u64);
                push_chars(&mut s, &m);
                s
            },
        }
    }
}

/// A decoded page as the reader keeps it: its texture and its size in pixels.
pub struct CachedPage<T> {
    pub texture: T,
    pub pixel_size: PixelSize,
}

/// A bounded least-recently-used cache of page textures, keyed by page
/// index.
pub struct PageTextureCache<T> {
    entries: lru::LruCache<usize, ()>,
    textures: HashMap<usize, T>,
    version: u64,
}

impl<T> PageTextureCache<T> {
    /// The keys are distinct, within a capacity between one and the maximum,
    /// and exactly the pages with a texture.
    pub closed spec fn wf(&self) -> bool {
        &&& lru_keys(self.entries).no_duplicates()
        &&& lru_keys(self.entries).len() <= lru_capacity(self.entries)
        &&& 1 <= lru_capacity(self.entries) <= MAX_PAGE_CACHE_CAPACITY
        &&& self.textures@.dom() == lru_keys(self.entries).to_set()
    }

    /// The cached pages, most recently used first.
    pub closed spec fn pages(&self) -> Seq<usize> {
        lru_keys(self.entries)
    }

    /// The texture cached for each page.
    pub closed spec fn textures(&self) -> Map<usize, T> {
        self.textures@
    }

    /// The most pages the cache holds.
    pub closed spec fn cap(&self) -> nat {
        lru_capacity(self.entries)
    }

    /// The change counter.
    pub closed spec fn stamp(&self) -> u64 {
        self.version
    }

    /// Makes an empty cache for at most `capacity` pages, which must be
    /// between one and the maximum.
    pub fn new(capacity: usize) -> (r: Result<Self, PageTextureCacheError>)
        ensures
            capacity == 0 ==> r == Err::<Self, PageTextureCacheError>(PageTextureCacheError::ZeroCapacity),
            capacity > MAX_PAGE_CACHE_CAPACITY ==> r == Err::<Self, PageTextureCacheError>(
                PageTextureCacheError::CapacityTooLarge { capacity, max: MAX_PAGE_CACHE_CAPACITY },
            ),
            1 <= capacity <= MAX_PAGE_CACHE_CAPACITY ==> (r matches Ok(c) && c.wf() && c.pages().len() == 0
                && c.cap() == capacity && c.stamp() == 0),
    {
        if capacity == 0 {
            return Err(PageTextureCacheError::ZeroCapacity);
        }
        if capacity > MAX_PAGE_CACHE_CAPACITY {
            return Err(PageTextureCacheError::CapacityTooLarge { capacity, max: MAX_PAGE_CACHE_CAPACITY });
        }
        let entries = lru_new(capacity);
        let textures: HashMap<usize, T> = HashMap::new();
        proof {
            assert(textures@.dom() =~= lru_keys(entries).to_set());
        }
        Ok(PageTextureCache { entries, textures, version: 0 })
    }

    /// A cache of the default capacity.
    pub fn with_default_capacity() -> (r: Self)
        ensures
            r.wf(),
            r.pages().len() == 0,
            r.cap() == DEFAULT_PAGE_CACHE_CAPACITY,
            r.stamp() == 0,
    {
        let entries = lru_new(DEFAULT_PAGE_CACHE_CAPACITY);
        let textures: HashMap<usize, T> = HashMap::new();
        proof {
            assert(textures@.dom() =~= lru_keys(entries).to_set());
        }
        PageTextureCache { entries, textures, version: 0 }
    }

    /// Grows the cache to hold at least `min_capacity` pages, up to the
    /// maximum; it never shrinks.
    pub fn ensure_capacity(&mut self, min_capacity: usize)
        requires
            old(self).wf(),
        ensures
            final(self).wf(),
            final(self).pages() == old(self).pages(),
            final(self).textures() == old(self).textures(),
            final(self).stamp() == old(self).stamp(),
            final(self).cap() == if old(self).cap() < clamp_capacity(min_capacity) {
                clamp_capacity(min_capacity)
            } else {
                old(self).cap()
            },
    {
        let target = if min_capacity < 1 {
            1
        } else if min_capacity > MAX_PAGE_CACHE_CAPACITY {
            MAX_PAGE_CACHE_CAPACITY
        } else {
            min_capacity
        };
        if target > lru_cap(&self.entries) {
            lru_grow(&mut self.entries, target);
        }
    }

    /// The texture of a cached page; looking it up makes the page the most
    /// recently used.
    pub fn get(&mut self, page_index: usize) -> (r: Option<&T>)
        requires
            old(self).wf(),
        ensures
            final(self).wf(),
            r matches Some(t) ==> old(self).textures().contains_key(page_index) && *t == old(self).textures()[page_index],
            r is None ==> !old(self).textures().contains_key(page_index),
            final(self).textures() == old(self).textures(),
            final(self).cap() == old(self).cap(),
            final(self).stamp() == old(self).stamp(),
            old(self).pages().contains(page_index) ==> final(self).pages() == seq![page_index] + without(
                old(self).pages(),
                page_index,
            ),
            !old(self).pages().contains(page_index) ==> final(self).pages() == old(self).pages(),
    {
        let ghost before = lru_keys(self.entries);
        let found = lru_promote(&mut self.entries, page_index);
        proof {
            assert(before.to_set().contains(page_index) == before.contains(page_index));
            if found {
                lemma_promote_keeps_keys(before, page_index);
            }
        }
        self.textures.get(&page_index)
    }

    /// Caches `texture` for a page, which becomes the most recently used.
    /// Returns the texture it displaced: the page's previous texture, or in a
    /// full cache the least recently used page's.
    pub fn insert(&mut self, page_index: usize, texture: T) -> (r: Option<T>)
        requires
            old(self).wf(),
        ensures
            final(self).wf(),
            final(self).pages()[0] == page_index,
            final(self).textures() == old(self).textures().remove_keys(
                old(self).pages().to_set() - final(self).pages().to_set(),
            ).insert(page_index, texture),
            old(self).pages().contains(page_index) ==> r == Some(old(self).textures()[page_index])
                && final(self).pages() == seq![page_index] + without(old(self).pages(), page_index),
            !old(self).pages().contains(page_index) && old(self).pages().len() == old(self).cap() ==> r == Some(
                old(self).textures()[old(self).pages().last()],
            ) && final(self).pages() == seq![page_index] + old(self).pages().drop_last(),
            !old(self).pages().contains(page_index) && old(self).pages().len() < old(self).cap() ==> r is None
                && final(self).pages() == seq![page_index] + old(self).pages(),
            final(self).cap() == old(self).cap(),
            final(self).stamp() == if old(self).stamp() == u64::MAX {
                u64::MAX
            } else {
                (old(self).stamp() + 1) as u64
            },
    {
        self.version = self.version.saturating_add(1);
        let ghost before = lru_keys(self.entries);
        let replaced = lru_push(&mut self.entries, page_index);
        let displaced = match replaced {
            Some(key) => self.textures.remove(&key),
            None => None,
        };
        self.textures.insert(page_index, texture);
        proof {
            let after = lru_keys(self.entries);
            lemma_push_keys(before, page_index, after, lru_capacity(self.entries));
            let gone = before.to_set() - after.to_set();
            if before.contains(page_index) {
                lemma_promote_keeps_keys(before, page_index);
                assert(gone =~= Set::<usize>::empty());
                assert(self.textures@ =~= old(self).textures().remove_keys(gone).insert(page_index, texture));
            } else if before.len() == lru_capacity(self.entries) {
                lemma_drop_last_keys(before);
                assert(before.contains(before.last()));
                assert(gone =~= set![before.last()]) by {
                    assert forall|x: usize| gone.contains(x) <==> x == before.last() by {
                        if x != before.last() && before.contains(x) {
                            let i = choose|i: int| 0 <= i < before.len() && before[i] == x;
                            assert(i != before.len() - 1);
                            assert(after[i + 1] == x);
                            assert(after.contains(x));
                        }
                        if x == before.last() {
                            assert(before.to_set().contains(x));
                            assert(after =~= seq![page_index] + before.drop_last());
                            assert(!before.drop_last().to_set().contains(x));
                            if after.contains(x) {
                                let i = choose|i: int| 0 <= i < after.len() && after[i] == x;
                                if i > 0 {
                                    assert(before.drop_last()[i - 1] == x);
                                    assert(before.drop_last().contains(x));
                                }
                            }
                        }
                    }
                }
                assert(self.textures@ =~= old(self).textures().remove_keys(gone).insert(page_index, texture));
            } else {
                assert(gone =~= Set::<usize>::empty()) by {
                    assert forall|x: usize| before.contains(x) implies after.contains(x) by {
                        let i = choose|i: int| 0 <= i < before.len() && before[i] == x;
                        assert(after[i + 1] == x);
                    }
                }
                assert(self.textures@ =~= old(self).textures().remove_keys(gone).insert(page_index, texture));
            }
            assert(self.textures@.dom() =~= after.to_set());
        }
        displaced
    }

    /// Whether a page is cached; its recency is left alone.
    pub fn contains(&self, page_index: usize) -> (r: bool)
        requires
            self.wf(),
        ensures
            r == self.pages().contains(page_index),
            r == self.textures().contains_key(page_index),
    {
        proof {
            assert(self.pages().to_set().contains(page_index) == self.pages().contains(page_index));
        }
        lru_contains(&self.entries, page_index)
    }

    /// A counter bumped on every insert and clear.
    pub fn version(&self) -> (r: u64)
        ensures
            r == self.stamp(),
    {
        self.version
    }

    /// Drops every cached page.
    pub fn clear(&mut self)
        requires
            old(self).wf(),
        ensures
            final(self).wf(),
            final(self).pages().len() == 0,
            final(self).textures() == Map::<usize, T>::empty(),
            final(self).cap() == old(self).cap(),
            final(self).stamp() == if old(self).stamp() == u64::MAX {
                u64::MAX
            } else {
                (old(self).stamp() + 1) as u64
            },
    {
        self.version = self.version.saturating_add(1);
        lru_clear(&mut self.entries);
        self.textures.clear();
        proof {
            assert(self.textures@.dom() =~= lru_keys(self.entries).to_set());
        }
    }

    /// Removes and returns the least recently used page and its texture.
    pub fn pop_lru(&mut self) -> (r: Option<(usize, T)>)
        requires
            old(self).wf(),
        ensures
            final(self).wf(),
            old(self).pages().len() == 0 ==> r is None && final(self).pages() == old(self).pages(),
            old(self).pages().len() > 0 ==> r == Some((old(self).pages().last(), old(self).textures()[old(self).pages().last()]))
                && final(self).pages() == old(self).pages().drop_last() && final(self).textures() == old(
                self,
            ).textures().remove(old(self).pages().last()),
            final(self).cap() == old(self).cap(),
            final(self).stamp() == old(self).stamp(),
    {
        let ghost before = lru_keys(self.entries);
        match lru_pop_lru(&mut self.entries) {
            None => None,
            Some(key) => {
                proof {
                    assert(before.contains(before.last()));
                    assert(before.to_set().contains(key));
                }
                let texture = self.textures.remove(&key);
                proof {
                    lemma_drop_last_keys(before);
                    assert(self.textures@.dom() =~= lru_keys(self.entries).to_set());
                }
                match texture {
                    Some(t) => Some((key, t)),
                    None => None,
                }
            },
        }
    }

    /// The cached pages, most recently used first.
    pub fn keys(&self) -> (r: Vec<usize>)
        ensures
            r@ == self.pages(),
    {
        lru_key_list(&self.entries)
    }

    pub fn len(&self) -> (r: usize)
        requires
            self.wf(),
        ensures
            r == self.pages().len(),
    {
        let keys = lru_key_list(&self.entries);
        keys.len()
    }

    pub fn is_empty(&self) -> (r: bool)
        requires
            self.wf(),
        ensures
            r == (self.pages().len() == 0),
    {
        self.len() == 0
    }

    pub fn capacity(&self) -> (r: usize)
        ensures
            r == self.cap(),
    {
        lru_cap(&self.entries)
    }
}

/// The capacity asked for, clamped between one and the maximum.
pub open spec fn clamp_capacity(min_capacity: usize) -> nat {
    if min_capacity < 1 {
        1
    } else if min_capacity > MAX_PAGE_CACHE_CAPACITY {
        MAX_PAGE_CACHE_CAPACITY as nat
    } else {
        min_capacity as nat
    }
}

proof fn lemma_without(s: Seq<usize>, k: usize)
    ensures
        forall|x: usize| #[trigger] without(s, k).contains(x) <==> (s.contains(x) && x != k),
        s.no_duplicates() ==> without(s, k).no_duplicates(),
        s.no_duplicates() && s.contains(k) ==> without(s, k).len() + 1 == s.len(),
    decreases s.len(),
{
    reveal(Seq::filter);
    if s.len() > 0 {
        lemma_without(s.drop_last(), k);
        assert(s.drop_last().push(s.last()) =~= s);
        assert forall|x: usize| #[trigger] without(s, k).contains(x) <==> (s.contains(x) && x != k) by {
            if s.contains(x) && x != k {
                let i = choose|i: int| 0 <= i < s.len() && s[i] == x;
                if i < s.len() - 1 {
                    assert(s.drop_last()[i] == x);
                    assert(s.drop_last().contains(x));
                } else {
                    assert(without(s, k) == without(s.drop_last(), k).push(s.last()));
                    assert(without(s, k)[without(s, k).len() - 1] == x);
                }
            }
            if without(s, k).contains(x) {
                if s.last() != k {
                    assert(without(s, k) == without(s.drop_last(), k).push(s.last()));
                    let i = choose|i: int| 0 <= i < without(s, k).len() && without(s, k)[i] == x;
                    if i < without(s, k).len() - 1 {
                        assert(without(s.drop_last(), k)[i] == x);
                        assert(without(s.drop_last(), k).contains(x));
                        let j = choose|j: int| 0 <= j < s.drop_last().len() && s.drop_last()[j] == x;
                        assert(s[j] == x);
                    } else {
                        assert(s[s.len() - 1] == x);
                    }
                } else {
                    assert(without(s, k) == without(s.drop_last(), k));
                    let j = choose|j: int| 0 <= j < s.drop_last().len() && s.drop_last()[j] == x;
                    assert(s[j] == x);
                }
            }
        }
        if s.no_duplicates() {
            assert(s.drop_last().no_duplicates());
            if s.last() != k {
                assert(!s.drop_last().contains(s.last()));
                assert(!without(s.drop_last(), k).contains(s.last()));
                assert(without(s, k) == without(s.drop_last(), k).push(s.last()));
                assert(without(s, k).no_duplicates()) by {
                    let w = without(s, k);
                    let d = without(s.drop_last(), k);
                    assert forall|a: int, b: int| 0 <= a < w.len() && 0 <= b < w.len() && a != b implies w[a] != w[b] by {
                        if a < d.len() && b < d.len() {
                            assert(w[a] == d[a] && w[b] == d[b]);
                        } else if a < d.len() {
                            assert(w[a] == d[a]);
                            assert(d.contains(d[a]));
                        } else {
                            assert(w[b] == d[b]);
                            assert(d.contains(d[b]));
                        }
                    }
                }
                if s.contains(k) {
                    let i = choose|i: int| 0 <= i < s.len() && s[i] == k;
                    assert(s.drop_last()[i] == k);
                    assert(s.drop_last().contains(k));
                }
            } else {
                assert(!s.drop_last().contains(k));
                assert(without(s, k) == without(s.drop_last(), k));
                lemma_without_absent(s.drop_last(), k);
            }
        }
    }
}

proof fn lemma_without_absent(s: Seq<usize>, k: usize)
    requires
        !s.contains(k),
    ensures
        without(s, k) == s,
    decreases s.len(),
{
    reveal(Seq::filter);
    if s.len() > 0 {
        assert(!s.drop_last().contains(k)) by {
            if s.drop_last().contains(k) {
                let j = choose|j: int| 0 <= j < s.drop_last().len() && s.drop_last()[j] == k;
                assert(s[j] == k);
            }
        }
        lemma_without_absent(s.drop_last(), k);
        assert(s.drop_last().push(s.last()) =~= s);
    }
}

proof fn lemma_promote_keeps_keys(before: Seq<usize>, k: usize)
    requires
        before.contains(k),
        before.no_duplicates(),
    ensures
        (seq![k] + without(before, k)).to_set() == before.to_set(),
        (seq![k] + without(before, k)).no_duplicates(),
        (seq![k] + without(before, k)).len() == before.len(),
{
    lemma_without(before, k);
    let after = seq![k] + without(before, k);
    assert(after.to_set() =~= before.to_set()) by {
        assert forall|x: usize| after.contains(x) <==> before.contains(x) by {
            if after.contains(x) {
                let i = choose|i: int| 0 <= i < after.len() && after[i] == x;
                if i > 0 {
                    assert(without(before, k)[i - 1] == x);
                    assert(without(before, k).contains(x));
                }
            }
            if before.contains(x) {
                if x == k {
                    assert(after[0] == x);
                } else {
                    assert(without(before, k).contains(x));
                    let i = choose|i: int| 0 <= i < without(before, k).len() && without(before, k)[i] == x;
                    assert(after[i + 1] == x);
                }
            }
        }
    }
    assert(after.no_duplicates()) by {
        let w = without(before, k);
        assert forall|a: int, b: int| 0 <= a < after.len() && 0 <= b < after.len() && a != b implies after[a] != after[b] by {
            if a > 0 && b > 0 {
                assert(after[a] == w[a - 1] && after[b] == w[b - 1]);
            } else if a == 0 {
                assert(after[b] == w[b - 1]);
                assert(w.contains(w[b - 1]));
            } else {
                assert(after[a] == w[a - 1]);
                assert(w.contains(w[a - 1]));
            }
        }
    }
}

proof fn lemma_drop_last_keys(before: Seq<usize>)
    requires
        before.len() > 0,
        before.no_duplicates(),
    ensures
        before.drop_last().to_set() == before.to_set().remove(before.last()),
        before.drop_last().no_duplicates(),
{
    assert(before.drop_last().to_set() =~= before.to_set().remove(before.last())) by {
        assert forall|x: usize| before.drop_last().contains(x) <==> (before.contains(x) && x != before.last()) by {
            if before.drop_last().contains(x) {
                let i = choose|i: int| 0 <= i < before.drop_last().len() && before.drop_last()[i] == x;
                assert(before[i] == x);
            }
            if before.contains(x) && x != before.last() {
                let i = choose|i: int| 0 <= i < before.len() && before[i] == x;
                assert(i != before.len() - 1);
                assert(before.drop_last()[i] == x);
            }
        }
    }
}

proof fn lemma_push_keys(before: Seq<usize>, k: usize, after: Seq<usize>, cap: nat)
    requires
        before.no_duplicates(),
        before.len() <= cap,
        cap > 0,
        before.contains(k) ==> after == seq![k] + without(before, k),
        !before.contains(k) && before.len() == cap ==> after == seq![k] + before.drop_last(),
        !before.contains(k) && before.len() < cap ==> after == seq![k] + before,
    ensures
        after.no_duplicates(),
        after.len() <= cap,
        after[0] == k,
        after.to_set() == (before.to_set() - (before.to_set() - after.to_set())).insert(k),
{
    if before.contains(k) {
        lemma_promote_keeps_keys(before, k);
        assert(after.to_set() =~= (before.to_set() - (before.to_set() - after.to_set())).insert(k));
    } else {
        let rest = if before.len() == cap {
            before.drop_last()
        } else {
            before
        };
        if before.len() == cap {
            lemma_drop_last_keys(before);
        }
        assert(!rest.contains(k)) by {
            if rest.contains(k) {
                let i = choose|i: int| 0 <= i < rest.len() && rest[i] == k;
                assert(before[i] == k);
            }
        }
        assert(after.no_duplicates()) by {
            assert forall|a: int, b: int| 0 <= a < after.len() && 0 <= b < after.len() && a != b implies after[a] != after[b] by {
                if a > 0 && b > 0 {
                    assert(after[a] == rest[a - 1] && after[b] == rest[b - 1]);
                } else if a == 0 {
                    assert(after[b] == rest[b - 1]);
                    assert(rest.contains(rest[b - 1]));
                } else {
                    assert(after[a] == rest[a - 1]);
                    assert(rest.contains(rest[a - 1]));
                }
            }
        }
        assert(after.to_set() =~= rest.to_set().insert(k)) by {
            assert forall|x: usize| after.contains(x) <==> (rest.contains(x) || x == k) by {
                if after.contains(x) {
                    let i = choose|i: int| 0 <= i < after.len() && after[i] == x;
                    if i > 0 {
                        assert(rest[i - 1] == x);
                    }
                }
                if rest.contains(x) {
                    let i = choose|i: int| 0 <= i < rest.len() && rest[i] == x;
                    assert(after[i + 1] == x);
                }
                if x == k {
                    assert(after[0] == x);
                }
            }
        }
        assert(after.to_set() =~= (before.to_set() - (before.to_set() - after.to_set())).insert(k)) by {
            assert forall|x: usize| rest.contains(x) ==> before.contains(x) by {
                if rest.contains(x) {
                    let i = choose|i: int| 0 <= i < rest.len() && rest[i] == x;
                    assert(before[i] == x);
                }
            }
        }
    }
}

/// The page used most recently survives the next eviction: in a full cache
/// of two or more pages, inserting a new page drops the last page, never the
/// first.
pub proof fn lemma_recent_page_survives_eviction(pages: Seq<usize>, new_page: usize)
    requires
        pages.no_duplicates(),
        pages.len() >= 2,
    ensures
        pages.last() != pages[0],
        (seq![new_page] + pages.drop_last()).contains(pages[0]),
{
    assert((seq![new_page] + pages.drop_last())[1] == pages[0]);
}

} // verus!

verus! {

/// The most raw pages a reading archive cache keeps.
pub const DEFAULT_RAW_PAGE_CACHE_CAPACITY: usize = 9;

/// The archive of the comic being read, its pages, and the raw bytes of the
/// pages read most recently.
pub struct ReadingArchiveCache<R> {
    source_path: Option<String>,
    reader: Option<R>,
    pages: Vec<ArchivePage>,
    raw_pages: PageTextureCache<Vec<u8>>,
}

/// The text of a read of page `page_index` past the end of the comic.
pub open spec fn missing_page_text(page_index: usize) -> Seq<char> {
    "Page "@ + decimal((page_index + 1) as nat) + " is not available"@
}

impl<R: ArchiveReader> ReadingArchiveCache<R> {
    /// The raw-page cache is well formed.
    pub closed spec fn wf(&self) -> bool {
        self.raw_pages.wf()
    }

    /// The archive the cache is for.
    pub closed spec fn source(&self) -> Option<Seq<char>> {
        match self.source_path {
            Some(p) => Some(p@),
            None => None,
        }
    }

    /// The pages of the archive, in reading order.
    pub closed spec fn page_list(&self) -> Seq<ArchivePage> {
        self.pages@
    }

    /// Whether a reader is open.
    pub closed spec fn has_reader(&self) -> bool {
        self.reader is Some
    }

    /// The raw bytes kept for each page.
    pub closed spec fn kept(&self) -> Map<usize, Seq<u8>> {
        self.raw_pages.textures().map_values(|bytes: Vec<u8>| bytes@)
    }

    /// A cache for no archive yet.
    pub fn new() -> (r: Self)
        ensures
            r.wf(),
            r.source() is None,
            !r.has_reader(),
            r.page_list().len() == 0,
            r.kept() == Map::<usize, Seq<u8>>::empty(),
    {
        let raw_pages = match PageTextureCache::new(DEFAULT_RAW_PAGE_CACHE_CAPACITY) {
            Ok(cache) => cache,
            Err(_) => PageTextureCache::with_default_capacity(),
        };
        proof {
            assert(raw_pages.textures() =~= Map::<usize, Vec<u8>>::empty()) by {
                assert(raw_pages.pages().len() == 0);
                assert(raw_pages.pages().to_set() =~= Set::<usize>::empty());
            }
            assert(raw_pages.textures().map_values(|bytes: Vec<u8>| bytes@) =~= Map::<usize, Seq<u8>>::empty());
        }
        ReadingArchiveCache { source_path: None, reader: None, pages: Vec::new(), raw_pages }
    }

    /// Whether the cache is for the archive at `source_path`.
    pub fn is_for(&self, source_path: &str) -> (r: bool)
        ensures
            r == (self.source() == Some(source_path@)),
    {
        match &self.source_path {
            Some(p) => {
                let a = chars_of(p.as_str());
                let b = chars_of(source_path);
                chars_eq(&a, &b)
            },
            None => false,
        }
    }

    /// Switches to another archive: its reader and pages replace the old
    /// ones and no raw page is kept.
    pub fn reset(&mut self, source_path: &str, reader: R, pages: Vec<ArchivePage>)
        requires
            old(self).wf(),
        ensures
            final(self).wf(),
            final(self).source() == Some(source_path@),
            final(self).has_reader(),
            final(self).page_list() == pages@,
            final(self).kept() == Map::<usize, Seq<u8>>::empty(),
    {
        self.source_path = Some(owned(source_path));
        self.reader = Some(reader);
        self.pages = pages;
        self.raw_pages.clear();
    }

    /// The raw bytes of a page: kept bytes when the page was read recently,
    /// otherwise read from the archive and kept. A page past the end, or a
    /// cache with no reader, is refused.
    pub fn read_page(&mut self, page_index: usize) -> (r: Result<Vec<u8>, String>)
        requires
            old(self).wf(),
            page_index < usize::MAX,
        ensures
            final(self).wf(),
            final(self).source() == old(self).source(),
            final(self).page_list() == old(self).page_list(),
            final(self).has_reader() == old(self).has_reader(),
            old(self).kept().contains_key(page_index) ==> (r matches Ok(bytes) && bytes@ == old(self).kept()[page_index])
                && final(self).kept() == old(self).kept(),
            !old(self).kept().contains_key(page_index) && page_index >= old(self).page_list().len() ==> (r matches Err(
                m,
            ) && m@ == missing_page_text(page_index)) && final(self).kept() == old(self).kept(),
            !old(self).kept().contains_key(page_index) && page_index < old(self).page_list().len()
                && !old(self).has_reader() ==> (r matches Err(m) && m@ == "Archive reader is not initialized"@)
                && final(self).kept() == old(self).kept(),
            r matches Ok(bytes) ==> final(self).kept().contains_key(page_index) && final(self).kept()[page_index]
                == bytes@,
            r is Err ==> final(self).kept() == old(self).kept(),
    {
        if let Some(bytes) = self.raw_pages.get(page_index) {
            let copy = bytes.clone();
            proof {
                assert(copy@ =~= bytes@);
            }
            return Ok(copy);
        }
        if page_index >= self.pages.len() {
            let mut m = owned("Page ");
            let n = decimal_chars((page_index + 1) as u64);
            push_chars(&mut m, &n);
            let tail = chars_of(" is not available");
            push_chars(&mut m, &tail);
            return Err(m);
        }
        let path = self.pages[page_index].path.clone();
        let bytes = match &mut self.reader {
            Some(reader) => match reader.read_page(path.as_str()) {
                Ok(bytes) => bytes,
                Err(e) => {
                    return Err(e.message());
                },
            },
            None => {
                return Err(owned("Archive reader is not initialized"));
            },
        };
        let kept = bytes.clone();
        proof {
            assert(kept@ =~= bytes@);
        }
        self.raw_pages.insert(page_index, kept);
        Ok(bytes)
    }

    /// The number of pages of the archive.
    pub fn page_count(&self) -> (r: usize)
        ensures
            r == self.page_list().len(),
    {
        self.pages.len()
    }

    /// The entry path of a page, for a worker to read it.
    pub fn page_entry_path(&self, page_index: usize) -> (r: Option<String>)
        ensures
            page_index < self.page_list().len() ==> (r matches Some(p) && p@ == self.page_list()[page_index as int].path@),
            page_index >= self.page_list().len() ==> r is None,
    {
        if page_index < self.pages.len() {
            Some(self.pages[page_index].path.clone())
        } else {
            None
        }
    }
}

} // verus!
