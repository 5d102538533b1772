//! Detection of images that were posted recently.
//!
//! The mosaic of a new image is compared with the cached mosaics, newest
//! first. The first one that is more similar than the threshold ends the
//! search: the image is a duplicate, and nothing is recorded. Where no cached
//! mosaic is that similar, the new mosaic is recorded.
//!
//! A cached mosaic of another size cannot be compared with the new one and
//! is passed over. After the mosaic size has changed, the mosaics of the old
//! size therefore match nothing, until new ones have pushed them out.

use vstd::prelude::*;
use crate::cache::{after_push, RecencyCache};
use crate::limits::{MAX_MOSAIC_SIZE, MIN_MOSAIC_SIZE, SCORE_ONE, SCORE_PER_HUNDREDTH};
use crate::mosaic::{make_mosaic, mosaic_of, Mosaic, MosaicView};
use crate::raster::Raster;
use crate::similarity::{compare_mosaics, similarity};
use crate::text::{two_decimals, two_decimals_text};

verus! {

impl RecencyCache<Mosaic> {
    /// The cached mosaics, newest first.
    pub open spec fn mosaics(&self) -> Seq<MosaicView> {
        self@.map_values(|entry: Mosaic| entry@)
    }
}

/// A score passes a threshold, given in hundredths, where it is greater.
pub open spec fn exceeds(score: int, similarity_threshold: u32) -> bool {
    score > similarity_threshold * SCORE_PER_HUNDREDTH
}

/// `recent[k]` has the size of `mosaic` and is more similar to it than the
/// threshold.
pub open spec fn is_match(
    recent: Seq<MosaicView>,
    mosaic: MosaicView,
    similarity_threshold: u32,
    k: int,
) -> bool {
    &&& 0 <= k < recent.len()
    &&& recent[k].side == mosaic.side
    &&& exceeds(similarity(mosaic, recent[k]), similarity_threshold)
}

/// The search through `recent` ends at `k`: at the first match, or at
/// `recent.len()` where there is none.
pub open spec fn scan_ends_at(
    recent: Seq<MosaicView>,
    mosaic: MosaicView,
    similarity_threshold: u32,
    k: int,
) -> bool {
    &&& 0 <= k <= recent.len()
    &&& forall|j: int| 0 <= j < k ==> !is_match(recent, mosaic, similarity_threshold, j)
    &&& k < recent.len() ==> is_match(recent, mosaic, similarity_threshold, k)
}

/// Where the search through `recent` ends.
pub open spec fn first_match(
    recent: Seq<MosaicView>,
    mosaic: MosaicView,
    similarity_threshold: u32,
) -> int {
    choose|k: int| scan_ends_at(recent, mosaic, similarity_threshold, k)
}

/// The search through the first `count` of `recent` ends somewhere.
proof fn lemma_scan_ends(
    recent: Seq<MosaicView>,
    mosaic: MosaicView,
    similarity_threshold: u32,
    count: int,
) -> (k: int)
    requires
        0 <= count <= recent.len(),
    ensures
        0 <= k <= count,
        forall|j: int| 0 <= j < k ==> !is_match(recent, mosaic, similarity_threshold, j),
        k < count ==> is_match(recent, mosaic, similarity_threshold, k),
    decreases count,
{
    if count == 0 {
        0
    } else {
        let k = lemma_scan_ends(recent, mosaic, similarity_threshold, count - 1);
        if k < count - 1 || is_match(recent, mosaic, similarity_threshold, count - 1) {
            k
        } else {
            count
        }
    }
}

/// The search through `recent` ends where `first_match` says.
pub proof fn lemma_first_match(
    recent: Seq<MosaicView>,
    mosaic: MosaicView,
    similarity_threshold: u32,
)
    ensures
        scan_ends_at(recent, mosaic, similarity_threshold, first_match(
            recent,
            mosaic,
            similarity_threshold,
        )),
{
    let k = lemma_scan_ends(recent, mosaic, similarity_threshold, recent.len() as int);
    assert(scan_ends_at(recent, mosaic, similarity_threshold, k));
}

/// The search ends at one place only.
pub proof fn lemma_first_match_is(
    recent: Seq<MosaicView>,
    mosaic: MosaicView,
    similarity_threshold: u32,
    k: int,
)
    requires
        scan_ends_at(recent, mosaic, similarity_threshold, k),
    ensures
        first_match(recent, mosaic, similarity_threshold) == k,
{
}

/// Whether a score passes a threshold given in hundredths.
pub fn passes(score: u32, similarity_threshold: u32) -> (passed: bool)
    ensures
        passed == exceeds(score as int, similarity_threshold),
{
    let per_hundredth: u64 = SCORE_PER_HUNDREDTH as u64;
    score as u64 > similarity_threshold as u64 * per_hundredth
}

/// Looks for a cached mosaic that `mosaic` repeats, newest first.
///
/// The answer is the similarity of the first cached mosaic of the same size
/// that is more similar than `similarity_threshold` hundredths; the cache
/// stays as it is. Where there is none, the answer is 0 and `mosaic` is
/// recorded. An answer above 0 therefore tells a duplicate.
pub fn find_similar_or_record(
    mosaic: Mosaic,
    recents: &mut RecencyCache<Mosaic>,
    similarity_threshold: u32,
) -> (score: u32)
    ensures
        final(recents).limit() == old(recents).limit(),
        final(recents)@.len() <= final(recents).limit(),
        final(recents)@.len() <= old(recents)@.len() + 1,
        ({
            let k = first_match(old(recents).mosaics(), mosaic@, similarity_threshold);
            if k < old(recents)@.len() {
                &&& score == similarity(mosaic@, old(recents).mosaics()[k])
                &&& score > 0
                &&& final(recents)@ == old(recents)@
            } else {
                &&& score == 0
                &&& final(recents)@ == after_push(old(recents)@, mosaic, old(recents).limit())
            }
        }),
        score <= SCORE_ONE,
{
    let ghost recent = recents.mosaics();
    let count: usize = recents.len();
    let mut i: usize = 0;
    while i < count
        invariant
            i <= count,
            count == recent.len(),
            count <= old(recents).limit(),
            recents@ == old(recents)@,
            recent == old(recents).mosaics(),
            recents.limit() == old(recents).limit(),
            forall|j: int| 0 <= j < i ==> !is_match(recent, mosaic@, similarity_threshold, j),
        decreases count - i,
    {
        match compare_mosaics(&mosaic, recents.get(i)) {
            Ok(similarity_amount) => {
                if passes(similarity_amount, similarity_threshold) {
                    proof {
                        lemma_first_match_is(recent, mosaic@, similarity_threshold, i as int);
                    }
                    return similarity_amount;
                }
            },
            Err(_) => {},
        }
        i += 1;
    }
    proof {
        lemma_first_match_is(recent, mosaic@, similarity_threshold, count as int);
    }
    recents.push_front(mosaic);
    0
}

/// Tells whether `image` repeats an image that was posted recently.
///
/// The mosaic of `image` with side `mosaic_size` is looked up and recorded
/// as `find_similar_or_record` does: the answer is the similarity of the
/// first match in millionths, or 0 where the image is new and now recorded.
pub fn get_similar_image_posted_recently(
    image: Raster,
    recents: &mut RecencyCache<Mosaic>,
    similarity_threshold: u32,
    mosaic_size: u32,
) -> (score: u32)
    requires
        MIN_MOSAIC_SIZE <= mosaic_size <= MAX_MOSAIC_SIZE,
    ensures
        final(recents).limit() == old(recents).limit(),
        final(recents)@.len() <= final(recents).limit(),
        final(recents)@.len() <= old(recents)@.len() + 1,
        ({
            let mosaic = mosaic_of(image@, mosaic_size);
            let k = first_match(old(recents).mosaics(), mosaic, similarity_threshold);
            if k < old(recents)@.len() {
                &&& score == similarity(mosaic, old(recents).mosaics()[k])
                &&& score > 0
                &&& final(recents)@ == old(recents)@
            } else {
                &&& score == 0
                &&& final(recents).mosaics() == after_push(
                    old(recents).mosaics(),
                    mosaic,
                    old(recents).limit(),
                )
            }
        }),
        score <= SCORE_ONE,
{
    let newmosaic = make_mosaic(image, mosaic_size);
    find_similar_or_record(newmosaic, recents, similarity_threshold)
}

/// The percentage that `score` stands for, rounded to hundredths of a
/// percent and written with two decimals.
pub open spec fn percentage_text(score: u32) -> Seq<char> {
    two_decimals_text(((score + 50) / 100) as nat)
}

/// Writes `score` as a percentage with two decimals, as a notice of a
/// duplicate shows it: `98.77` for 987 654 millionths.
pub fn match_percentage(score: u32) -> (text: String)
    ensures
        text@ == percentage_text(score),
{
    let hundredths: u64 = (score as u64 + 50) / 100;
    two_decimals(hundredths as u32)
}

} // verus!
