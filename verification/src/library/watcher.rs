//! Batches of file-system changes under the library root: each changed path
//! once, and a full rescan once a burst touches too many paths.
use vstd::prelude::*;

use crate::paths::{compare_paths, path_order};

verus! {

/// Whether the library root is being watched.
#[derive(Debug, Clone, PartialEq, Eq)]
pub enum WatchStatus {
    Idle,
    Watching,
    Failed(String),
}

/// A batch with more distinct changed paths than this rescans the library.
pub const FULL_RECONCILIATION_THRESHOLD: usize = 32;

/// The changes seen under a library root since the batch began. Times are
/// readings of the caller's clock in milliseconds.
#[derive(Debug, Clone)]
pub struct WatchEventBatch {
    pub root_path: String,
    /// The changed paths, each once, in path order.
    pub changed_paths: Vec<String>,
    /// When the batch began.
    pub received_at: u64,
    /// When the batch is settled unless another change comes first.
    pub settle_deadline: u64,
    pub full_reconciliation: bool,
}

/// `settle_for` milliseconds after `now`, stopping at the clock's end.
pub open spec fn deadline_after(now: u64, settle_for: u64) -> u64 {
    if now + settle_for <= u64::MAX {
        (now + settle_for) as u64
    } else {
        u64::MAX
    }
}

/// Each path comes after the one before it in path order.
pub open spec fn ascending(paths: Seq<String>) -> bool {
    forall|i: int, j: int|
        0 <= i && j == i + 1 && j < paths.len() ==> path_order(#[trigger] paths[j]@, #[trigger] paths[i]@) > 0
}

/// No two of `paths` are equal in path order.
pub open spec fn distinct_paths(paths: Seq<String>) -> bool {
    forall|i: int, j: int|
        0 <= i < paths.len() && 0 <= j < paths.len() && i != j ==> path_order(#[trigger] paths[i]@, #[trigger] paths[j]@)
            != 0
}

/// Some path of `paths` is equal to `path` in path order.
pub open spec fn has_equal(paths: Seq<String>, path: Seq<char>) -> bool {
    exists|k: int| 0 <= k < paths.len() && path_order(path, (#[trigger] paths[k])@) == 0
}

/// `path` is in `paths`, or a path equal to it in path order is.
pub open spec fn recorded(paths: Seq<String>, path: Seq<char>) -> bool {
    exists|k: int| 0 <= k < paths.len() && ((#[trigger] paths[k])@ == path || path_order(path, paths[k]@) == 0)
}

fn deadline(now: u64, settle_for: u64) -> (r: u64)
    ensures
        r == deadline_after(now, settle_for),
{
    if now <= u64::MAX - settle_for {
        now + settle_for
    } else {
        u64::MAX
    }
}

impl WatchEventBatch {
    /// The changed paths are kept in path order, no two of them equal in
    /// it.
    pub open spec fn wf(&self) -> bool {
        ascending(self.changed_paths@) && distinct_paths(self.changed_paths@)
    }

    /// An empty batch for `root_path`, begun at `now` and settling
    /// `settle_for` milliseconds later.
    pub fn new(root_path: String, now: u64, settle_for: u64) -> (r: Self)
        ensures
            r.wf(),
            r.root_path == root_path,
            r.changed_paths@.len() == 0,
            r.received_at == now,
            r.settle_deadline == deadline_after(now, settle_for),
            !r.full_reconciliation,
    {
        WatchEventBatch {
            root_path,
            changed_paths: Vec::new(),
            received_at: now,
            settle_deadline: deadline(now, settle_for),
            full_reconciliation: false,
        }
    }

    /// Whether the batch has settled by `now`.
    pub fn is_settled(&self, now: u64) -> (r: bool)
        ensures
            r == (now >= self.settle_deadline),
    {
        now >= self.settle_deadline
    }

    /// Records a change to `path` seen at `now`: the path joins the batch in
    /// path order, unless an equal path is already in it, and the batch
    /// settles `settle_for` milliseconds after `now`.
    pub fn push_path(&mut self, path: String, now: u64, settle_for: u64)
        requires
            old(self).wf(),
        ensures
            final(self).wf(),
            has_equal(old(self).changed_paths@, path@) ==> final(self).changed_paths@ == old(self).changed_paths@,
            !has_equal(old(self).changed_paths@, path@) ==> exists|k: int|
                0 <= k <= old(self).changed_paths@.len() && final(self).changed_paths@ == #[trigger] old(
                    self,
                ).changed_paths@.insert(k, path),
            recorded(final(self).changed_paths@, path@),
            final(self).settle_deadline == deadline_after(now, settle_for),
            final(self).root_path == old(self).root_path,
            final(self).received_at == old(self).received_at,
            final(self).full_reconciliation == old(self).full_reconciliation,
    {
        self.settle_deadline = deadline(now, settle_for);
        let n = self.changed_paths.len();
        let mut i: usize = 0;
        let mut at: usize = n;
        while i < n
            invariant
                n == self.changed_paths.len(),
                0 <= i <= n,
                self.changed_paths@ == old(self).changed_paths@,
                self.settle_deadline == deadline_after(now, settle_for),
                self.root_path == old(self).root_path,
                self.received_at == old(self).received_at,
                self.full_reconciliation == old(self).full_reconciliation,
                old(self).wf(),
                at == n || (at < i && path_order(self.changed_paths@[at as int]@, path@) > 0),
                forall|k: int| 0 <= k < i ==> path_order(path@, #[trigger] self.changed_paths@[k]@) != 0,
                forall|k: int| 0 <= k < i ==> path_order((#[trigger] self.changed_paths@[k])@, path@) == -path_order(
                    path@,
                    self.changed_paths@[k]@,
                ),
                forall|k: int| 0 <= k < i && k < at ==> path_order(path@, #[trigger] self.changed_paths@[k]@) > 0,
            decreases n - i,
        {
            let c = compare_paths(path.as_str(), self.changed_paths[i].as_str());
            if c == 0 {
                proof {
                    assert(path_order(path@, old(self).changed_paths@[i as int]@) == 0);
                    assert(recorded(self.changed_paths@, path@));
                    assert(has_equal(old(self).changed_paths@, path@));
                }
                return;
            }
            if c < 0 && at == n {
                at = i;
            }
            i += 1;
        }
        let ghost before = self.changed_paths@;
        proof {
            assert(!has_equal(before, path@));
            if at > 0 {
                assert(path_order(path@, before[at - 1]@) > 0);
            }
        }
        self.changed_paths.insert(at, path);
        proof {
            lemma_insert_ascending(before, at as int, path);
            lemma_insert_distinct(before, at as int, path);
            assert(self.changed_paths@[at as int] == path);
            assert(recorded(self.changed_paths@, path@));
        }
    }
}

/// Putting a path that no path of `before` equals, either way round, keeps
/// the paths distinct.
proof fn lemma_insert_distinct(before: Seq<String>, at: int, path: String)
    requires
        distinct_paths(before),
        0 <= at <= before.len(),
        forall|k: int| 0 <= k < before.len() ==> path_order(path@, #[trigger] before[k]@) != 0,
        forall|k: int| 0 <= k < before.len() ==> path_order((#[trigger] before[k])@, path@) != 0,
    ensures
        distinct_paths(before.insert(at, path)),
{
    let after = before.insert(at, path);
    assert forall|i: int, j: int|
        0 <= i < after.len() && 0 <= j < after.len() && i != j implies path_order(
        #[trigger] after[i]@,
        #[trigger] after[j]@,
    ) != 0 by {
        let bi = if i < at { i } else { i - 1 };
        let bj = if j < at { j } else { j - 1 };
        if i == at {
            assert(after[j] == before[bj]);
        } else if j == at {
            assert(after[i] == before[bi]);
        } else {
            assert(after[i] == before[bi] && after[j] == before[bj]);
        }
    }
}

/// Putting `path` at `at` keeps a path-ordered list in order when it comes
/// after the path before it and before the path at `at`.
proof fn lemma_insert_ascending(before: Seq<String>, at: int, path: String)
    requires
        ascending(before),
        0 <= at <= before.len(),
        at > 0 ==> path_order(path@, before[at - 1]@) > 0,
        at < before.len() ==> path_order(before[at]@, path@) > 0,
    ensures
        ascending(before.insert(at, path)),
{
    let after = before.insert(at, path);
    assert forall|a: int, b: int|
        0 <= a && b == a + 1 && b < after.len() implies path_order(#[trigger] after[b]@, #[trigger] after[a]@) > 0 by {
        if b < at {
            assert(after[a] == before[a] && after[b] == before[b]);
        } else if b == at {
            assert(after[a] == before[a] && after[b] == path);
        } else if a == at {
            assert(after[a] == path && after[b] == before[at]);
        } else {
            assert(after[a] == before[a - 1] && after[b] == before[b - 1]);
        }
    }
}

/// Whether a batch of `changed_paths` distinct paths rescans the whole
/// library instead of the changed paths.
pub fn full_reconciliation_needed(changed_paths: usize) -> (r: bool)
    ensures
        r == (changed_paths > FULL_RECONCILIATION_THRESHOLD),
{
    changed_paths > FULL_RECONCILIATION_THRESHOLD
}

/// After `paths[i]` is pushed onto a batch holding `before`, the batch holds
/// every path it held, and so still records the paths pushed before, as
/// well as `paths[i]`; each path it holds came from `paths`.
proof fn lemma_push_keeps_recorded(before: Seq<String>, after: Seq<String>, paths: Seq<String>, i: int)
    requires
        0 <= i < paths.len(),
        after == before || exists|at: int| 0 <= at <= before.len() && after == #[trigger] before.insert(at, paths[i]),
        recorded(after, paths[i]@),
        forall|j: int| 0 <= j < i ==> recorded(before, (#[trigger] paths[j])@),
        forall|k: int| 0 <= k < before.len() ==> paths.contains(#[trigger] before[k]),
    ensures
        forall|j: int| 0 <= j <= i ==> recorded(after, (#[trigger] paths[j])@),
        forall|k: int| 0 <= k < after.len() ==> paths.contains(#[trigger] after[k]),
{
    assert forall|m: int| 0 <= m < before.len() implies exists|n: int| 0 <= n < after.len() && after[n] == #[trigger] before[m] by {
        if after != before {
            let at = choose|at: int| 0 <= at <= before.len() && after == #[trigger] before.insert(at, paths[i]);
            if m < at {
                assert(after[m] == before[m]);
            } else {
                assert(after[m + 1] == before[m]);
            }
        } else {
            assert(after[m] == before[m]);
        }
    }
    assert forall|j: int| 0 <= j <= i implies recorded(after, (#[trigger] paths[j])@) by {
        if j < i {
            let m = choose|m: int|
                0 <= m < before.len() && ((#[trigger] before[m])@ == paths[j]@ || path_order(paths[j]@, before[m]@) == 0);
            let n = choose|n: int| 0 <= n < after.len() && after[n] == #[trigger] before[m];
            assert(after[n] == before[m]);
        }
    }
    assert forall|k: int| 0 <= k < after.len() implies paths.contains(#[trigger] after[k]) by {
        if after != before {
            let at = choose|at: int| 0 <= at <= before.len() && after == #[trigger] before.insert(at, paths[i]);
            if k < at {
                assert(after[k] == before[k]);
            } else if k == at {
                assert(after[k] == paths[i]);
            } else {
                assert(after[k] == before[k - 1]);
            }
        } else {
            assert(after[k] == before[k]);
        }
    }
}

/// Collects a burst of changed paths seen at `now` into one batch: each
/// path once (paths equal in path order count once), in path order, and a
/// full rescan when more than `FULL_RECONCILIATION_THRESHOLD` paths remain.
pub fn coalesce_watch_events(root_path: String, paths: Vec<String>, now: u64, settle_for: u64) -> (r:
    WatchEventBatch)
    ensures
        r.wf(),
        r.root_path == root_path,
        r.received_at == now,
        r.settle_deadline == deadline_after(now, settle_for),
        forall|i: int| 0 <= i < paths@.len() ==> recorded(r.changed_paths@, (#[trigger] paths@[i])@),
        forall|k: int| 0 <= k < r.changed_paths@.len() ==> paths@.contains(#[trigger] r.changed_paths@[k]),
        r.changed_paths@.len() <= paths@.len(),
        r.full_reconciliation == (r.changed_paths@.len() > FULL_RECONCILIATION_THRESHOLD),
{
    let mut batch = WatchEventBatch::new(root_path, now, settle_for);
    let mut i: usize = 0;
    while i < paths.len()
        invariant
            0 <= i <= paths.len(),
            batch.wf(),
            batch.root_path == root_path,
            batch.received_at == now,
            batch.settle_deadline == deadline_after(now, settle_for),
            !batch.full_reconciliation,
            forall|j: int| 0 <= j < i ==> recorded(batch.changed_paths@, (#[trigger] paths@[j])@),
            forall|k: int| 0 <= k < batch.changed_paths@.len() ==> paths@.contains(#[trigger] batch.changed_paths@[k]),
            batch.changed_paths@.len() <= i,
        decreases paths.len() - i,
    {
        let path = paths[i].clone();
        let ghost before = batch.changed_paths@;
        batch.push_path(path, now, settle_for);
        proof {
            lemma_push_keeps_recorded(before, batch.changed_paths@, paths@, i as int);
        }
        i += 1;
    }
    batch.full_reconciliation = full_reconciliation_needed(batch.changed_paths.len());
    batch
}

} // verus!
