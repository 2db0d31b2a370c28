//! The sync engine: backward pagination over the remote feed with its two
//! stop conditions, classification and transformation of each page, and the
//! final merge into a sorted archive.
//!
//! The engine holds no I/O. A caller requests a page of feed items strictly
//! inside the window the session describes (newer than the watermark, older
//! than everything already seen this run), hands it to [`SyncSession::apply_page`],
//! and repeats until the session is done.

use vstd::prelude::*;

use crate::archive::ids_distinct;
use crate::archive::sort_posts_desc;
use crate::archive::sorted_desc;
use crate::archive::spec_watermark;
use crate::archive::strictly_sorted_desc;
use crate::archive::watermark;
use crate::archive::ArchivedPost;
use crate::archive::PostView;
use crate::feed::post_wf;
use crate::feed::spec_is_match;
use crate::feed::spec_to_archived;
use crate::feed::to_archived;
use crate::feed::FeedPost;
use crate::feed::FeedPostView;

verus! {

/// Pagination stops at the first page whose newest item was created before
/// this calendar year.
pub const RETENTION_YEAR: i32 = 2020;

/// Fixed cap on the number of items requested per page.
pub const PAGE_SIZE: u32 = 200;

/// Whether an identifier lies strictly inside the open window a page request
/// asks for: newer than the floor (the resume watermark) and older than the
/// ceiling (the oldest item already seen this run).
pub open spec fn in_window(floor: Option<u64>, ceiling: Option<u64>, id: u64) -> bool {
    &&& match floor {
        Option::Some(f) => id > f,
        Option::None => true,
    }
    &&& match ceiling {
        Option::Some(c) => id < c,
        Option::None => true,
    }
}

/// Every item of the page lies inside the requested window.
pub open spec fn page_in_window(
    page: Seq<FeedPostView>,
    floor: Option<u64>,
    ceiling: Option<u64>,
) -> bool {
    forall|i: int| 0 <= i < page.len() ==> in_window(floor, ceiling, #[trigger] page[i].id)
}

/// The page is ordered newest first with no repeated identifiers, as the
/// remote feed delivers it.
pub open spec fn page_sorted(page: Seq<FeedPostView>) -> bool {
    forall|i: int, j: int| 0 <= i < j < page.len() ==> page[i].id > page[j].id
}

/// Every item of the page is well formed (playable media carry a variant).
pub open spec fn page_wf(page: Seq<FeedPostView>) -> bool {
    forall|i: int| 0 <= i < page.len() ==> post_wf(#[trigger] page[i])
}

/// Stop condition B: the newest item of a non-empty page was created before
/// the retention boundary.
pub open spec fn page_stale(page: Seq<FeedPostView>) -> bool {
    page.len() > 0 && page[0].created_at.year < RETENTION_YEAR
}

/// The records one page contributes to the archive: the qualifying items in
/// page order, each transformed to its archived shape.
pub open spec fn new_records(page: Seq<FeedPostView>, tag: Seq<char>) -> Seq<PostView>
    decreases page.len(),
{
    if page.len() == 0 {
        Seq::empty()
    } else {
        let rest = new_records(page.drop_last(), tag);
        if spec_is_match(page.last(), tag) {
            rest.push(spec_to_archived(page.last()))
        } else {
            rest
        }
    }
}

/// State of one sync run.
///
/// `archive` is the accumulator: the previously loaded archive plus the
/// records collected so far this run. `floor` is the resume watermark; no
/// item at or below it is ever requested again. `ceiling` is the paging
/// cursor: the oldest identifier seen so far this run. `done` is set once a
/// stop condition has been reached.
pub struct SyncSession {
    pub archive: Vec<ArchivedPost>,
    pub floor: Option<u64>,
    pub ceiling: Option<u64>,
    pub done: bool,
    pub tag: String,
}

impl SyncSession {
    /// Invariant of a run: the accumulator has no duplicate identifiers, and
    /// no accumulated record lies inside the window still to be fetched — so
    /// future pages cannot duplicate it.
    pub open spec fn wf(self) -> bool {
        &&& ids_distinct(self.archive.deep_view())
        &&& forall|i: int|
            0 <= i < self.archive.deep_view().len() ==> !in_window(
                self.floor,
                self.ceiling,
                #[trigger] self.archive.deep_view()[i].id,
            )
    }

    /// Starts a run from a loaded archive: the watermark of the archive
    /// becomes the floor of every page request, so nothing already archived
    /// is fetched again.
    pub fn begin(archive: Vec<ArchivedPost>, tag: String) -> (s: SyncSession)
        requires
            sorted_desc(archive.deep_view()),
            ids_distinct(archive.deep_view()),
        ensures
            s.wf(),
            !s.done,
            s.archive@ == archive@,
            s.floor == spec_watermark(archive.deep_view()),
            s.ceiling == Option::<u64>::None,
            s.tag == tag,
    {
        let floor = watermark(&archive);
        let s = SyncSession { archive, floor, ceiling: Option::None, done: false, tag };
        proof {
            let av = s.archive.deep_view();
            assert forall|i: int| 0 <= i < av.len() implies !in_window(
                s.floor,
                s.ceiling,
                av[i].id,
            ) by {
                if av.len() > 0 {
                    assert(av[0].id >= av[i].id);
                }
            }
        }
        s
    }

    /// Applies one fetched page.
    ///
    /// An empty page (stop condition A) or a stale page (stop condition B)
    /// ends the run and leaves the accumulator untouched — a stale page is
    /// dropped whole, before any of its items is classified or transformed.
    /// Otherwise every qualifying item of the page is transformed and
    /// appended, and the paging cursor moves to the oldest item of the page.
    pub fn apply_page(&mut self, page: Vec<FeedPost>)
        requires
            old(self).wf(),
            !old(self).done,
            page_wf(page.deep_view()),
            page_sorted(page.deep_view()),
            page_in_window(page.deep_view(), old(self).floor, old(self).ceiling),
        ensures
            final(self).wf(),
            final(self).floor == old(self).floor,
            final(self).tag == old(self).tag,
            page.deep_view().len() == 0 ==> {
                &&& final(self).done
                &&& final(self).archive@ == old(self).archive@
                &&& final(self).ceiling == old(self).ceiling
            },
            page.deep_view().len() > 0 && page_stale(page.deep_view()) ==> {
                &&& final(self).done
                &&& final(self).archive@ == old(self).archive@
                &&& final(self).ceiling == old(self).ceiling
            },
            page.deep_view().len() > 0 && !page_stale(page.deep_view()) ==> {
                &&& !final(self).done
                &&& final(self).archive.deep_view() == old(self).archive.deep_view()
                    + new_records(page.deep_view(), old(self).tag@)
                &&& final(self).ceiling == Option::Some(
                    page.deep_view()[page.deep_view().len() - 1].id,
                )
            },
    {
        let ghost pv = page.deep_view();
        let ghost oa = self.archive.deep_view();
        let ghost floor0 = self.floor;
        let ghost ceiling0 = self.ceiling;
        let n: usize = page.len();
        if n == 0 {
            self.done = true;
            return ;
        }
        if page[0].created_at.year < RETENTION_YEAR {
            proof {
                assert(pv[0] == page@[0].deep_view());
            }
            self.done = true;
            return ;
        }
        proof {
            assert(pv[0] == page@[0].deep_view());
        }
        let mut i: usize = 0;
        while i < n
            invariant
                i <= n,
                n == pv.len(),
                pv == page.deep_view(),
                page_wf(pv),
                page_sorted(pv),
                page_in_window(pv, floor0, ceiling0),
                self.floor == floor0,
                self.ceiling == ceiling0,
                self.tag == old(self).tag,
                self.done == old(self).done,
                oa == old(self).archive.deep_view(),
                ids_distinct(oa),
                forall|k: int| 0 <= k < oa.len() ==> !in_window(floor0, ceiling0, oa[k].id),
                self.archive.deep_view() == oa + new_records(pv.take(i as int), old(self).tag@),
                ids_distinct(self.archive.deep_view()),
                forall|k: int|
                    oa.len() <= k < self.archive.deep_view().len() ==> in_window(
                        floor0,
                        ceiling0,
                        #[trigger] self.archive.deep_view()[k].id,
                    ),
                forall|k: int, m: int|
                    oa.len() <= k < self.archive.deep_view().len() && i <= m < pv.len()
                        ==> #[trigger] self.archive.deep_view()[k].id > #[trigger] pv[m].id,
                forall|k: int|
                    oa.len() <= k < self.archive.deep_view().len()
                        ==> #[trigger] self.archive.deep_view()[k].id >= pv[pv.len() - 1].id,
            decreases n - i,
        {
            proof {
                assert(pv.take(i as int) =~= pv.take(i + 1).drop_last());
                assert(pv.take(i + 1).last() == pv[i as int]);
                assert(page@[i as int].deep_view() == pv[i as int]);
            }
            let ghost before = self.archive.deep_view();
            if crate::feed::is_match(&page[i], &self.tag) {
                let rec = to_archived(&page[i]);
                self.archive.push(rec);
                proof {
                    assert(self.archive.deep_view() =~= before.push(spec_to_archived(
                        pv[i as int],
                    )));
                    assert(self.archive.deep_view() =~= oa + new_records(
                        pv.take(i + 1),
                        old(self).tag@,
                    ));
                }
            } else {
                proof {
                    assert(new_records(pv.take(i + 1), old(self).tag@) == new_records(
                        pv.take(i as int),
                        old(self).tag@,
                    ));
                }
            }
            i += 1;
        }
        proof {
            assert(pv.take(n as int) =~= pv);
        }
        let last: usize = page.len() - 1;
        proof {
            assert(pv[last as int] == page@[last as int].deep_view());
        }
        self.ceiling = Option::Some(page[last].id);
        proof {
            let av = self.archive.deep_view();
            assert forall|k: int| 0 <= k < av.len() implies !in_window(
                self.floor,
                self.ceiling,
                av[k].id,
            ) by {
                if k < oa.len() {
                    assert(av[k] == oa[k]);
                    assert(!in_window(floor0, ceiling0, oa[k].id));
                    assert(in_window(floor0, ceiling0, pv[pv.len() - 1].id));
                } else {
                    assert(av[k].id >= pv[pv.len() - 1].id);
                }
            }
        }
    }

    /// Ends a run: sorts the accumulator newest first and returns it, ready
    /// to be persisted. The result is a permutation of the accumulator with
    /// the identifiers strictly descending — no record is lost, duplicated or
    /// invented.
    pub fn finish(self) -> (out: Vec<ArchivedPost>)
        requires
            self.wf(),
        ensures
            out@.to_multiset() == self.archive@.to_multiset(),
            sorted_desc(out.deep_view()),
            ids_distinct(out.deep_view()),
            strictly_sorted_desc(out.deep_view()),
    {
        let mut v = self.archive;
        sort_posts_desc(&mut v);
        proof {
            crate::archive::lemma_sorted_distinct_implies_strict(v.deep_view());
        }
        v
    }
}

} // verus!
