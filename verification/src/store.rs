//! Store decisions: what a run does with what it found at the archive path.
//!
//! Reading and writing the file, and turning its bytes into records, is I/O
//! and stays outside the library; the decision of how each outcome affects
//! the run is made here.

use vstd::prelude::*;

use crate::archive::strictly_sorted_desc;
use crate::archive::ArchivedPost;

verus! {

/// What was found at the archive path.
pub enum LoadOutcome {
    /// No file exists yet.
    Missing,
    /// A file exists but its content could not be parsed.
    Unparsable,
    /// A file exists and parsed into these records.
    Parsed(Vec<ArchivedPost>),
}

/// Failure of the resume step.
#[derive(Debug, Clone, Copy, PartialEq, Eq, Structural)]
pub enum StoreError {
    /// The archive file exists but is corrupt: it cannot be parsed, or its
    /// records violate the archive invariant.
    CorruptArchive,
}

/// Checks the shape of a saved archive: identifiers strictly descending
/// (newest first, no duplicates).
pub fn check_archive(archive: &Vec<ArchivedPost>) -> (r: bool)
    ensures
        r == strictly_sorted_desc(archive.deep_view()),
{
    let ghost av = archive.deep_view();
    proof {
        assert(forall|k: int| 0 <= k < av.len() ==> av[k] == archive@[k].deep_view());
    }
    let n: usize = archive.len();
    if n == 0 {
        return true;
    }
    let mut i: usize = 0;
    while i < n - 1
        invariant
            i <= n - 1,
            n == av.len(),
            av == archive.deep_view(),
            forall|k1: int, k2: int| 0 <= k1 < k2 <= i ==> av[k1].id > av[k2].id,
        decreases n - i,
    {
        proof {
            assert(av[i as int] == archive@[i as int].deep_view());
            assert(av[i + 1] == archive@[i + 1].deep_view());
        }
        if archive[i].id <= archive[i + 1].id {
            assert(!strictly_sorted_desc(av));
            return false;
        }
        i += 1;
    }
    true
}

/// Resume decision. A missing archive file yields an empty archive (a fresh
/// first run); a file that exists but is corrupt — unparsable, or parsed
/// into records that break the archive invariant — fails the run before any
/// page is requested; a well-formed parsed archive is resumed from.
pub fn interpret_load(outcome: LoadOutcome) -> (r: Result<Vec<ArchivedPost>, StoreError>)
    ensures
        match outcome {
            LoadOutcome::Missing => {
                &&& r is Ok
                &&& r->Ok_0.deep_view() == Seq::<crate::archive::PostView>::empty()
            },
            LoadOutcome::Unparsable => r == Result::<Vec<ArchivedPost>, StoreError>::Err(
                StoreError::CorruptArchive,
            ),
            LoadOutcome::Parsed(a) => {
                if strictly_sorted_desc(a.deep_view()) {
                    &&& r is Ok
                    &&& r->Ok_0@ == a@
                } else {
                    r == Result::<Vec<ArchivedPost>, StoreError>::Err(StoreError::CorruptArchive)
                }
            },
        },
{
    match outcome {
        LoadOutcome::Missing => {
            let empty: Vec<ArchivedPost> = Vec::new();
            proof {
                assert(empty.deep_view() =~= Seq::<crate::archive::PostView>::empty());
            }
            Result::Ok(empty)
        },
        LoadOutcome::Unparsable => Result::Err(StoreError::CorruptArchive),
        LoadOutcome::Parsed(a) => {
            if check_archive(&a) {
                Result::Ok(a)
            } else {
                Result::Err(StoreError::CorruptArchive)
            }
        },
    }
}

} // verus!
