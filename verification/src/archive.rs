//! Data model of the local archive: records, their mathematical views, and
//! the invariants the archive file must satisfy.

use vstd::prelude::*;

verus! {

/// Calendar timestamp of a feed post, held as plain values.
///
/// The sync logic reads only the year (for the retention boundary); the
/// remaining fields are carried verbatim so that a record round-trips
/// through the archive file unchanged.
#[derive(Debug, Clone, Copy, PartialEq, Eq, Structural)]
pub struct Timestamp {
    pub year: i32,
    pub month: u8,
    pub day: u8,
    pub hour: u8,
    pub minute: u8,
    pub second: u8,
}

/// Kind of a media attachment.
#[derive(Debug, Clone, Copy, PartialEq, Eq, Structural)]
pub enum MediaKind {
    Photo,
    Video,
    AnimatedImage,
    Other,
}

impl MediaKind {
    /// Kinds that carry playable video variants.
    pub open spec fn spec_is_playable(self) -> bool {
        self == MediaKind::Video || self == MediaKind::AnimatedImage
    }

    #[verifier::when_used_as_spec(spec_is_playable)]
    pub fn is_playable(self) -> (r: bool)
        ensures
            r == self.spec_is_playable(),
    {
        match self {
            MediaKind::Video => true,
            MediaKind::AnimatedImage => true,
            _ => false,
        }
    }
}

/// One archived media attachment.
#[derive(Debug, Clone, PartialEq)]
pub struct ArchivedMedia {
    /// Kind of the attachment.
    pub kind: MediaKind,
    /// Width in pixels of the largest available rendition.
    pub width: i32,
    /// Height in pixels of the largest available rendition.
    pub height: i32,
    /// URL of the largest still-image rendition.
    pub image_url: String,
    /// URL of the highest-bitrate playable variant; present exactly for
    /// playable kinds.
    pub video_url: Option<String>,
}

/// Mathematical view of [`ArchivedMedia`].
pub ghost struct MediaView {
    pub kind: MediaKind,
    pub width: i32,
    pub height: i32,
    pub image_url: Seq<char>,
    pub video_url: Option<Seq<char>>,
}

impl View for ArchivedMedia {
    type V = MediaView;

    open spec fn view(&self) -> MediaView {
        MediaView {
            kind: self.kind,
            width: self.width,
            height: self.height,
            image_url: self.image_url@,
            video_url: self.video_url.deep_view(),
        }
    }
}

impl DeepView for ArchivedMedia {
    type V = MediaView;

    open spec fn deep_view(&self) -> MediaView {
        self.view()
    }
}

/// One archived post: a qualifying feed item.
#[derive(Debug, Clone, PartialEq)]
pub struct ArchivedPost {
    /// Unique, monotonically-issued identifier; primary key.
    pub id: u64,
    /// Raw body text, stored verbatim.
    pub text: String,
    /// Source-assigned creation time.
    pub created_at: Timestamp,
    /// Media attached to the post, possibly empty.
    pub media: Vec<ArchivedMedia>,
}

/// Mathematical view of [`ArchivedPost`].
pub ghost struct PostView {
    pub id: u64,
    pub text: Seq<char>,
    pub created_at: Timestamp,
    pub media: Seq<MediaView>,
}

impl View for ArchivedPost {
    type V = PostView;

    open spec fn view(&self) -> PostView {
        PostView {
            id: self.id,
            text: self.text@,
            created_at: self.created_at,
            media: self.media.deep_view(),
        }
    }
}

impl DeepView for ArchivedPost {
    type V = PostView;

    open spec fn deep_view(&self) -> PostView {
        self.view()
    }
}

/// No two records share an identifier.
pub open spec fn ids_distinct(s: Seq<PostView>) -> bool {
    forall|i: int, j: int| 0 <= i < j < s.len() ==> s[i].id != s[j].id
}

/// Records are ordered newest first (identifiers non-increasing).
pub open spec fn sorted_desc(s: Seq<PostView>) -> bool {
    forall|i: int, j: int| 0 <= i < j < s.len() ==> s[i].id >= s[j].id
}

/// Records are ordered newest first with no ties: the shape of a saved
/// archive.
pub open spec fn strictly_sorted_desc(s: Seq<PostView>) -> bool {
    forall|i: int, j: int| 0 <= i < j < s.len() ==> s[i].id > s[j].id
}

pub proof fn lemma_sorted_distinct_implies_strict(s: Seq<PostView>)
    requires
        sorted_desc(s),
        ids_distinct(s),
    ensures
        strictly_sorted_desc(s),
{
}

/// Sorts the archive newest first (identifiers descending). The result is a
/// permutation of the input; distinct identifiers stay distinct, so a sorted
/// archive with unique identifiers comes out strictly descending.
pub fn sort_posts_desc(v: &mut Vec<ArchivedPost>)
    requires
        ids_distinct(old(v).deep_view()),
    ensures
        final(v)@.to_multiset() == old(v)@.to_multiset(),
        sorted_desc(final(v).deep_view()),
        ids_distinct(final(v).deep_view()),
{
    broadcast use vstd::seq_lib::group_to_multiset_ensures;
    broadcast use vstd::seq_lib::to_multiset_insert;

    proof {
        assert forall|k1: int, k2: int| 0 <= k1 < k2 < v@.len() implies v@[k1].id
            != v@[k2].id by {
            assert(v.deep_view()[k1] == v@[k1].deep_view());
            assert(v.deep_view()[k2] == v@[k2].deep_view());
            assert(v.deep_view()[k1].id != v.deep_view()[k2].id);
        }
    }
    let n: usize = v.len();
    if n <= 1 {
        return ;
    }
    let mut i: usize = 1;
    while i < n
        invariant
            1 <= i <= n,
            n == v@.len(),
            v@.to_multiset() == old(v)@.to_multiset(),
            forall|k1: int, k2: int| 0 <= k1 < k2 < n ==> v@[k1].id != v@[k2].id,
            forall|k1: int, k2: int| 0 <= k1 < k2 < i ==> v@[k1].id >= v@[k2].id,
        decreases n - i,
    {
        let ghost dv0 = v@;
        let mut p: usize = 0;
        while p < i && v[p].id > v[i].id
            invariant
                p <= i < n,
                n == v@.len(),
                v@ == dv0,
                forall|k: int| 0 <= k < p ==> v@[k].id > v@[i as int].id,
            decreases i - p,
        {
            p += 1;
        }
        let x = v.remove(i);
        let ghost mid = v@;
        v.insert(p, x);
        proof {
            dv0.remove_ensures(i as int);
            mid.insert_ensures(p as int, x);
            assert(dv0.to_multiset().count(x) > 0) by {
                assert(dv0[i as int] == x);
                assert(dv0.contains(x));
                vstd::seq_lib::to_multiset_contains(dv0, x);
            }
            assert(mid.to_multiset() == dv0.to_multiset().remove(x)) by {
                vstd::seq_lib::to_multiset_remove(dv0, i as int);
            }
            assert(v@.to_multiset() == mid.to_multiset().insert(x)) by {
                vstd::seq_lib::to_multiset_insert(mid, p as int, x);
            }
            assert(v@.to_multiset() =~= dv0.to_multiset());
            assert(forall|k: int|
                0 <= k < mid.len() ==> mid[k] == dv0[if k < i { k } else { k + 1 }]);
            assert(forall|k: int|
                0 <= k < v@.len() && k != p ==> v@[k] == mid[if k < p { k } else { k - 1 }]);
            assert(v@[p as int] == x);
            assert forall|k1: int, k2: int| 0 <= k1 < k2 < i + 1 implies v@[k1].id
                >= v@[k2].id by {
                if k1 == p && p < i {
                    assert(dv0[p as int].id <= x.id);
                }
            }
        }
        i += 1;
    }
    proof {
        assert(forall|k: int|
            0 <= k < v@.len() ==> #[trigger] v.deep_view()[k] == v@[k].deep_view());
    }
}

/// Resume point: the identifier of the newest archived record, if any.
pub open spec fn spec_watermark(s: Seq<PostView>) -> Option<u64> {
    if s.len() == 0 {
        None
    } else {
        Some(s[0].id)
    }
}

/// Returns the resume watermark of a loaded archive: the newest record's
/// identifier, or nothing when the archive is empty.
pub fn watermark(archive: &Vec<ArchivedPost>) -> (r: Option<u64>)
    ensures
        r == spec_watermark(archive.deep_view()),
{
    if archive.len() == 0 {
        None
    } else {
        Some(archive[0].id)
    }
}

} // verus!
