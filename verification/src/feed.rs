//! Model of a remote feed item, the classifier that decides whether an item
//! qualifies for archiving, and the transformer that turns a qualifying item
//! into an archive record.

use vstd::prelude::*;

use crate::archive::ArchivedMedia;
use crate::archive::ArchivedPost;
use crate::archive::MediaKind;
use crate::archive::MediaView;
use crate::archive::PostView;
use crate::archive::Timestamp;

verus! {

/// One playable rendition of a video-capable attachment.
#[derive(Debug, Clone, PartialEq)]
pub struct VideoVariant {
    /// URL of this rendition.
    pub url: String,
    /// Bitrate of this rendition; animated images may report none.
    pub bitrate: Option<i32>,
}

/// Mathematical view of [`VideoVariant`].
pub ghost struct VariantView {
    pub url: Seq<char>,
    pub bitrate: Option<i32>,
}

impl View for VideoVariant {
    type V = VariantView;

    open spec fn view(&self) -> VariantView {
        VariantView { url: self.url@, bitrate: self.bitrate }
    }
}

impl DeepView for VideoVariant {
    type V = VariantView;

    open spec fn deep_view(&self) -> VariantView {
        self.view()
    }
}

/// One media attachment of a feed item, reduced to the fields the archive
/// reads: the kind, the dimensions of the largest declared rendition, the
/// primary still-image URL, and the playable variants (empty when the remote
/// item declares none).
#[derive(Debug, Clone, PartialEq)]
pub struct FeedMedia {
    pub kind: MediaKind,
    pub width: i32,
    pub height: i32,
    pub image_url: String,
    pub variants: Vec<VideoVariant>,
}

/// Mathematical view of [`FeedMedia`].
pub ghost struct FeedMediaView {
    pub kind: MediaKind,
    pub width: i32,
    pub height: i32,
    pub image_url: Seq<char>,
    pub variants: Seq<VariantView>,
}

impl View for FeedMedia {
    type V = FeedMediaView;

    open spec fn view(&self) -> FeedMediaView {
        FeedMediaView {
            kind: self.kind,
            width: self.width,
            height: self.height,
            image_url: self.image_url@,
            variants: self.variants.deep_view(),
        }
    }
}

impl DeepView for FeedMedia {
    type V = FeedMediaView;

    open spec fn deep_view(&self) -> FeedMediaView {
        self.view()
    }
}

/// One item of the remote feed, reduced to the fields the sync logic reads.
#[derive(Debug, Clone, PartialEq)]
pub struct FeedPost {
    /// Unique, monotonically-issued identifier.
    pub id: u64,
    /// Raw body text.
    pub text: String,
    /// Source-assigned creation time.
    pub created_at: Timestamp,
    /// Tag annotations of the item.
    pub hashtags: Vec<String>,
    /// Media attachments, possibly empty.
    pub media: Vec<FeedMedia>,
}

/// Mathematical view of [`FeedPost`].
pub ghost struct FeedPostView {
    pub id: u64,
    pub text: Seq<char>,
    pub created_at: Timestamp,
    pub hashtags: Seq<Seq<char>>,
    pub media: Seq<FeedMediaView>,
}

impl View for FeedPost {
    type V = FeedPostView;

    open spec fn view(&self) -> FeedPostView {
        FeedPostView {
            id: self.id,
            text: self.text@,
            created_at: self.created_at,
            hashtags: self.hashtags.deep_view(),
            media: self.media.deep_view(),
        }
    }
}

impl DeepView for FeedPost {
    type V = FeedPostView;

    open spec fn deep_view(&self) -> FeedPostView {
        self.view()
    }
}

/// A feed item qualifies iff its tag set contains the exact configured tag
/// (case-sensitive, whole-string comparison).
pub open spec fn spec_is_match(p: FeedPostView, tag: Seq<char>) -> bool {
    exists|i: int| 0 <= i < p.hashtags.len() && p.hashtags[i] == tag
}

/// Classifier: decides whether a feed item qualifies for archiving, by exact,
/// case-sensitive comparison of each of its tags against the configured tag.
pub fn is_match(post: &FeedPost, tag: &String) -> (r: bool)
    ensures
        r == spec_is_match(post.deep_view(), tag@),
{
    let n: usize = post.hashtags.len();
    let mut i: usize = 0;
    while i < n
        invariant
            i <= n,
            n == post.hashtags@.len(),
            forall|k: int| 0 <= k < i ==> post.deep_view().hashtags[k] != tag@,
        decreases n - i,
    {
        if post.hashtags[i] == *tag {
            assert(post.deep_view().hashtags[i as int] == tag@);
            return true;
        }
        i += 1;
    }
    false
}

/// Ordering on reported bitrates: a missing bitrate ranks below any reported
/// one.
pub open spec fn bitrate_le(a: Option<i32>, b: Option<i32>) -> bool {
    match a {
        Option::None => true,
        Option::Some(x) => match b {
            Option::None => false,
            Option::Some(y) => x <= y,
        },
    }
}

/// Index of the variant the transformer selects: the last variant whose
/// bitrate is maximal, so that selection is deterministic on ties.
pub open spec fn best_variant_index(vs: Seq<VariantView>) -> int
    decreases vs.len(),
{
    if vs.len() <= 1 {
        0
    } else {
        let r = best_variant_index(vs.drop_last());
        if bitrate_le(vs[r].bitrate, vs.last().bitrate) {
            vs.len() - 1
        } else {
            r
        }
    }
}

/// The selected variant exists and its bitrate is maximal.
pub proof fn lemma_best_variant_index(vs: Seq<VariantView>)
    requires
        vs.len() > 0,
    ensures
        0 <= best_variant_index(vs) < vs.len(),
        forall|i: int|
            0 <= i < vs.len() ==> bitrate_le(vs[i].bitrate, vs[best_variant_index(vs)].bitrate),
    decreases vs.len(),
{
    if vs.len() > 1 {
        let dl = vs.drop_last();
        lemma_best_variant_index(dl);
        let r = best_variant_index(dl);
        assert(forall|i: int| 0 <= i < dl.len() ==> dl[i] == vs[i]);
        if bitrate_le(vs[r].bitrate, vs.last().bitrate) {
            assert forall|i: int| 0 <= i < vs.len() implies bitrate_le(
                vs[i].bitrate,
                vs[best_variant_index(vs)].bitrate,
            ) by {
                if i < vs.len() - 1 {
                    assert(bitrate_le(dl[i].bitrate, dl[r].bitrate));
                }
            }
        } else {
            assert(bitrate_le(vs.last().bitrate, vs[r].bitrate));
        }
    }
}

fn bitrate_le_exec(a: &Option<i32>, b: &Option<i32>) -> (r: bool)
    ensures
        r == bitrate_le(*a, *b),
{
    match a {
        Option::None => true,
        Option::Some(x) => match b {
            Option::None => false,
            Option::Some(y) => *x <= *y,
        },
    }
}

/// Returns the URL of the highest-bitrate variant; on ties the last maximal
/// variant wins, so the result is deterministic for deterministic input.
pub fn best_variant_url(variants: &Vec<VideoVariant>) -> (r: String)
    requires
        variants.deep_view().len() > 0,
    ensures
        r@ == variants.deep_view()[best_variant_index(variants.deep_view())].url,
{
    let ghost vs = variants.deep_view();
    let n: usize = variants.len();
    let mut best: usize = 0;
    let mut i: usize = 1;
    while i < n
        invariant
            1 <= i <= n,
            best < i,
            n == vs.len(),
            vs == variants.deep_view(),
            best == best_variant_index(vs.take(i as int)),
        decreases n - i,
    {
        proof {
            assert(vs.take(i + 1).drop_last() =~= vs.take(i as int));
            assert(vs.take(i + 1).last() == vs[i as int]);
        }
        if bitrate_le_exec(&variants[best].bitrate, &variants[i].bitrate) {
            best = i;
        }
        i += 1;
    }
    proof {
        assert(vs.take(n as int) =~= vs);
    }
    variants[best].url.clone()
}

/// A media attachment is well formed when a playable kind declares at least
/// one variant; the remote source never advertises playable media without
/// one.
pub open spec fn media_wf(m: FeedMediaView) -> bool {
    m.kind.spec_is_playable() ==> m.variants.len() > 0
}

/// A feed item is well formed when each of its attachments is.
pub open spec fn post_wf(p: FeedPostView) -> bool {
    forall|i: int| 0 <= i < p.media.len() ==> media_wf(#[trigger] p.media[i])
}

/// What the transformer produces for one attachment: kind, dimensions and
/// still-image URL are copied; playable kinds get the highest-bitrate
/// variant's URL, others get none.
pub open spec fn spec_to_archived_media(m: FeedMediaView) -> MediaView {
    MediaView {
        kind: m.kind,
        width: m.width,
        height: m.height,
        image_url: m.image_url,
        video_url: if m.kind.spec_is_playable() {
            Option::Some(m.variants[best_variant_index(m.variants)].url)
        } else {
            Option::None
        },
    }
}

/// What the transformer produces for one feed item: identifier, text and
/// creation time are copied verbatim; each attachment is mapped by
/// [`spec_to_archived_media`].
pub open spec fn spec_to_archived(p: FeedPostView) -> PostView {
    PostView {
        id: p.id,
        text: p.text,
        created_at: p.created_at,
        media: p.media.map_values(|m: FeedMediaView| spec_to_archived_media(m)),
    }
}

fn to_archived_media(m: &FeedMedia) -> (r: ArchivedMedia)
    requires
        media_wf(m.deep_view()),
    ensures
        r.deep_view() == spec_to_archived_media(m.deep_view()),
{
    let video_url = if m.kind.is_playable() {
        Option::Some(best_variant_url(&m.variants))
    } else {
        Option::None
    };
    ArchivedMedia {
        kind: m.kind,
        width: m.width,
        height: m.height,
        image_url: m.image_url.clone(),
        video_url,
    }
}

/// Transformer: converts a qualifying feed item into an archive record.
/// Total for well-formed items; the identifier, text and creation time are
/// copied verbatim, media attachments are reduced to their archived shape.
pub fn to_archived(post: &FeedPost) -> (r: ArchivedPost)
    requires
        post_wf(post.deep_view()),
    ensures
        r.deep_view() == spec_to_archived(post.deep_view()),
{
    let ghost pv = post.deep_view();
    let n: usize = post.media.len();
    let mut media: Vec<ArchivedMedia> = Vec::new();
    let mut i: usize = 0;
    while i < n
        invariant
            i <= n,
            n == pv.media.len(),
            pv == post.deep_view(),
            post_wf(pv),
            media.deep_view().len() == i,
            forall|k: int|
                0 <= k < i ==> media.deep_view()[k] == spec_to_archived_media(#[trigger] pv.media[k]),
        decreases n - i,
    {
        assert(post.media[i as int].deep_view() == pv.media[i as int]);
        let one = to_archived_media(&post.media[i]);
        media.push(one);
        i += 1;
    }
    let r = ArchivedPost {
        id: post.id,
        text: post.text.clone(),
        created_at: post.created_at,
        media,
    };
    proof {
        assert(r.deep_view().media =~= spec_to_archived(pv).media);
    }
    r
}

} // verus!
