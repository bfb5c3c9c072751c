//! The library's cover bookkeeping: how many covers are examined and handed
//! to workers per frame, what a worker's answer does to a comic's cover
//! status, and the summaries shown after imports and removals.
use vstd::prelude::*;

use crate::library::models::{LibraryGridItem, ThumbnailStatus};
use crate::text::{chars_of, decimal, decimal_chars, owned, push_chars};

verus! {

/// Covers handed to workers per frame.
pub const MAX_COVER_SUBMITS_PER_FRAME: usize = 2;

/// Comics whose cached cover is looked up on disk per frame.
pub const MAX_THUMBNAIL_STATS_PER_FRAME: usize = 64;

/// What to do with the next comic while scheduling covers.
#[derive(Debug, Clone, Copy, PartialEq, Eq, Structural)]
pub enum CoverStep {
    /// The frame's budget is spent.
    Stop,
    /// The comic has a cover, or one is being made.
    Skip,
    /// Look for its cached cover, and render one when there is none.
    Examine,
}

/// How a cover request fared with the worker pool.
#[derive(Debug, Clone, PartialEq, Eq)]
pub enum SubmitOutcome {
    Accepted,
    QueueFull,
    Failed(String),
}

/// The per-frame budget of the cover scheduler.
#[derive(Debug, Clone, Copy, PartialEq, Eq, Structural)]
pub struct CoverScanBudget {
    pub scheduled: usize,
    pub examined: usize,
}

/// Whether a cover status asks for a cover to be made.
pub open spec fn wants_cover(status: ThumbnailStatus) -> bool {
    status is Missing || status is Stale
}

impl CoverScanBudget {
    pub fn new() -> (r: Self)
        ensures
            r.scheduled == 0 && r.examined == 0,
    {
        CoverScanBudget { scheduled: 0, examined: 0 }
    }

    /// Decides about the next comic: stop once two covers were submitted or
    /// sixty-four looked up, skip comics that have a cover or a pending one,
    /// otherwise examine it (which counts against the lookups).
    pub fn next_step(&mut self, status: &ThumbnailStatus, pending: bool) -> (r: CoverStep)
        ensures
            r == (if old(self).scheduled >= MAX_COVER_SUBMITS_PER_FRAME || old(self).examined
                >= MAX_THUMBNAIL_STATS_PER_FRAME {
                CoverStep::Stop
            } else if !wants_cover(*status) || pending {
                CoverStep::Skip
            } else {
                CoverStep::Examine
            }),
            final(self).scheduled == old(self).scheduled,
            final(self).examined == if r == CoverStep::Examine {
                old(self).examined + 1
            } else {
                old(self).examined as int
            },
    {
        if self.scheduled >= MAX_COVER_SUBMITS_PER_FRAME || self.examined >= MAX_THUMBNAIL_STATS_PER_FRAME {
            return CoverStep::Stop;
        }
        let wants = match status {
            ThumbnailStatus::Missing | ThumbnailStatus::Stale => true,
            _ => false,
        };
        if !wants || pending {
            return CoverStep::Skip;
        }
        self.examined += 1;
        CoverStep::Examine
    }

    /// Records a submission: an accepted request makes the cover loading and
    /// counts against the budget; a full queue stops the frame and leaves the
    /// comic as it was; any other failure marks the cover failed. Returns the
    /// comic's new cover status, if it changes, and whether to stop.
    pub fn record_submit(&mut self, outcome: SubmitOutcome) -> (r: (Option<ThumbnailStatus>, bool))
        requires
            old(self).scheduled < MAX_COVER_SUBMITS_PER_FRAME,
        ensures
            match outcome {
                SubmitOutcome::Accepted => r == (Some(ThumbnailStatus::Loading), false) && final(self).scheduled
                    == old(self).scheduled + 1,
                SubmitOutcome::QueueFull => r == (None::<ThumbnailStatus>, true) && final(self).scheduled
                    == old(self).scheduled,
                SubmitOutcome::Failed(message) => r == (Some(ThumbnailStatus::Failed { message }), false)
                    && final(self).scheduled == old(self).scheduled,
            },
            final(self).examined == old(self).examined,
    {
        match outcome {
            SubmitOutcome::Accepted => {
                self.scheduled = self.scheduled + 1;
                (Some(ThumbnailStatus::Loading), false)
            },
            SubmitOutcome::QueueFull => (None, true),
            SubmitOutcome::Failed(message) => (Some(ThumbnailStatus::Failed { message }), false),
        }
    }
}

/// Gives the first comic at `path` the cover status `status`; returns
/// whether there was one.
pub fn set_cover_status_for_path(items: &mut Vec<LibraryGridItem>, path: &str, status: ThumbnailStatus) -> (r: bool)
    ensures
        final(items)@.len() == old(items)@.len(),
        r == exists|j: int| 0 <= j < old(items)@.len() && (#[trigger] old(items)@[j]).path@ == path@,
        forall|j: int|
            0 <= j < old(items)@.len() ==> #[trigger] final(items)@[j] == if r && j == first_at_path(old(items)@, path@) {
                LibraryGridItem { thumbnail_status: status, ..old(items)@[j] }
            } else {
                old(items)@[j]
            },
{
    let target = owned(path);
    let n = items.len();
    let mut i: usize = 0;
    while i < n
        invariant
            n == items.len(),
            items@ == old(items)@,
            0 <= i <= n,
            target@ == path@,
            forall|j: int| 0 <= j < i ==> (#[trigger] items@[j]).path@ != path@,
        decreases n - i,
    {
        if items[i].path == target {
            let mut item = items.remove(i);
            item.thumbnail_status = status;
            items.insert(i, item);
            proof {
                lemma_first_at_path(old(items)@, path@, i as int);
            }
            return true;
        }
        i += 1;
    }
    false
}

/// The index of the first comic of `items` at `path`.
pub open spec fn first_at_path(items: Seq<LibraryGridItem>, path: Seq<char>) -> int
    decreases items.len(),
{
    if items.len() == 0 || items[0].path@ == path {
        0
    } else {
        1 + first_at_path(items.drop_first(), path)
    }
}

proof fn lemma_first_at_path(items: Seq<LibraryGridItem>, path: Seq<char>, i: int)
    requires
        0 <= i < items.len(),
        items[i].path@ == path,
        forall|j: int| 0 <= j < i ==> (#[trigger] items[j]).path@ != path,
    ensures
        first_at_path(items, path) == i,
    decreases i,
{
    if i > 0 {
        assert forall|j: int| 0 <= j < i - 1 implies (#[trigger] items.drop_first()[j]).path@ != path by {
            assert(items.drop_first()[j] == items[j + 1]);
        }
        lemma_first_at_path(items.drop_first(), path, i - 1);
    }
}

/// The summary after removing comics: the last error, if one happened,
/// otherwise how many comics were removed.
pub open spec fn removal_summary(removed: nat, error: Option<String>) -> Seq<char> {
    match error {
        Some(e) => e@,
        None => "Removed "@ + decimal(removed) + " comic"@ + if removed == 1 {
            Seq::<char>::empty()
        } else {
            "s"@
        },
    }
}

pub fn removal_status_text(removed: usize, error: Option<String>) -> (r: String)
    ensures
        r@ == removal_summary(removed as nat, error),
{
    if let Some(e) = error {
        return e;
    }
    let mut s = owned("Removed ");
    let digits = decimal_chars(removed as u64);
    push_chars(&mut s, &digits);
    let word = chars_of(" comic");
    push_chars(&mut s, &word);
    let ghost base = s@;
    if removed != 1 {
        let plural = chars_of("s");
        push_chars(&mut s, &plural);
    } else {
        assert(s@ =~= base + Seq::<char>::empty());
    }
    s
}

/// How one imported comic fared when it was recorded in the library.
#[derive(Debug, Clone, PartialEq, Eq)]
pub struct ImportRecordOutcome {
    /// The file was already in the managed store.
    pub already_present: bool,
    /// Why recording it failed, if it did.
    pub error: Option<String>,
}

/// Counts of an import: comics added, comics already present, and the last
/// error met while recording them.
pub open spec fn import_tally(outcomes: Seq<ImportRecordOutcome>) -> (nat, nat, Option<String>)
    decreases outcomes.len(),
{
    if outcomes.len() == 0 {
        (0, 0, None)
    } else {
        let (added, present, error) = import_tally(outcomes.drop_last());
        let o = outcomes.last();
        match o.error {
            Some(e) => (added, present, Some(e)),
            None => if o.already_present {
                (added, present + 1, error)
            } else {
                (added + 1, present, error)
            },
        }
    }
}

proof fn lemma_import_tally_bound(outcomes: Seq<ImportRecordOutcome>)
    ensures
        import_tally(outcomes).0 + import_tally(outcomes).1 <= outcomes.len(),
    decreases outcomes.len(),
{
    if outcomes.len() > 0 {
        lemma_import_tally_bound(outcomes.drop_last());
    }
}

/// Tallies the outcomes of recording imported comics.
pub fn tally_import_outcomes(outcomes: &Vec<ImportRecordOutcome>) -> (r: (usize, usize, Option<String>))
    ensures
        (r.0 as nat, r.1 as nat, r.2) == import_tally(outcomes@),
{
    let mut added: usize = 0;
    let mut present: usize = 0;
    let mut error: Option<String> = None;
    let mut i: usize = 0;
    while i < outcomes.len()
        invariant
            0 <= i <= outcomes.len(),
            (added as nat, present as nat, error) == import_tally(outcomes@.take(i as int)),
        decreases outcomes.len() - i,
    {
        proof {
            assert(outcomes@.take(i + 1).drop_last() =~= outcomes@.take(i as int));
            lemma_import_tally_bound(outcomes@.take(i as int));
        }
        match &outcomes[i].error {
            Some(e) => {
                error = Some(e.clone());
            },
            None => {
                if outcomes[i].already_present {
                    present += 1;
                } else {
                    added += 1;
                }
            },
        }
        i += 1;
    }
    proof {
        assert(outcomes@.take(outcomes.len() as int) =~= outcomes@);
    }
    (added, present, error)
}

} // verus!
