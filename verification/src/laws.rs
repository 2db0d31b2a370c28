//! Laws of the sync: properties that relate several operations, proved once
//! and for all.

use vstd::prelude::*;

use crate::archive::strictly_sorted_desc;
use crate::archive::PostView;
use crate::sync::in_window;
use crate::sync::page_in_window;
use crate::feed::FeedPostView;

verus! {

/// A strictly descending archive is determined by its records: two archives
/// with the same records (as a multiset) that are both strictly sorted are
/// the same sequence.
///
/// Idempotence of the sync follows: a run that fetches nothing new re-sorts
/// the archive it loaded into some strictly sorted permutation of it, and by
/// this law that permutation is the loaded archive itself, so the saved file
/// is unchanged.
pub proof fn lemma_sorted_unique(a: Seq<PostView>, b: Seq<PostView>)
    requires
        strictly_sorted_desc(a),
        strictly_sorted_desc(b),
        a.to_multiset() == b.to_multiset(),
    ensures
        a == b,
    decreases a.len(),
{
    broadcast use vstd::seq_lib::group_to_multiset_ensures;

    assert(a.to_multiset().len() == a.len());
    assert(b.to_multiset().len() == b.len());
    if a.len() == 0 {
        assert(a =~= b);
    } else {
        assert(b.contains(a[0])) by {
            assert(a.contains(a[0]));
            vstd::seq_lib::to_multiset_contains(a, a[0]);
            vstd::seq_lib::to_multiset_contains(b, a[0]);
        }
        let j = choose|j: int| 0 <= j < b.len() && b[j] == a[0];
        assert(a.contains(b[0])) by {
            assert(b.contains(b[0]));
            vstd::seq_lib::to_multiset_contains(a, b[0]);
            vstd::seq_lib::to_multiset_contains(b, b[0]);
        }
        let k = choose|k: int| 0 <= k < a.len() && a[k] == b[0];
        assert(a[0].id <= b[0].id && b[0].id <= a[0].id) by {
            if j > 0 {
                assert(b[0].id > b[j].id);
            }
            if k > 0 {
                assert(a[0].id > a[k].id);
            }
        }
        assert(j == 0) by {
            if j > 0 {
                assert(b[0].id > b[j].id);
            }
        }
        assert(b[0] == a[0]);
        let at = a.drop_first();
        let bt = b.drop_first();
        assert(at.to_multiset() == a.to_multiset().remove(a[0])) by {
            assert(at =~= a.remove(0));
            vstd::seq_lib::to_multiset_remove(a, 0);
        }
        assert(bt.to_multiset() == b.to_multiset().remove(b[0])) by {
            assert(bt =~= b.remove(0));
            vstd::seq_lib::to_multiset_remove(b, 0);
        }
        assert(strictly_sorted_desc(at)) by {
            assert(forall|i: int| 0 <= i < at.len() ==> at[i] == a[i + 1]);
        }
        assert(strictly_sorted_desc(bt)) by {
            assert(forall|i: int| 0 <= i < bt.len() ==> bt[i] == b[i + 1]);
        }
        lemma_sorted_unique(at, bt);
        assert(a =~= b) by {
            assert(forall|i: int| 0 < i < a.len() ==> a[i] == at[i - 1] && b[i] == bt[i - 1]);
        }
    }
}

/// Resume correctness: once the floor of a run is the watermark `w`, a page
/// within the run's window carries only items strictly newer than `w` — no
/// already-archived item is fetched again.
pub proof fn lemma_resume_no_refetch(
    floor: Option<u64>,
    ceiling: Option<u64>,
    page: Seq<FeedPostView>,
    w: u64,
)
    requires
        floor == Option::Some(w),
        page_in_window(page, floor, ceiling),
    ensures
        forall|i: int| 0 <= i < page.len() ==> #[trigger] page[i].id > w,
{
    assert forall|i: int| 0 <= i < page.len() implies #[trigger] page[i].id > w by {
        assert(in_window(floor, ceiling, page[i].id));
    }
}

} // verus!
