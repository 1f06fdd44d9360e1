use crate::hash::{hamming, PerceptualHash};
use vstd::prelude::*;

verus! {

/// Distance above which a match is reported as needing a manual look.
pub const REVIEW_THRESHOLD: u32 = 10;

/// A file of one directory together with its hash.
pub struct HashedFile {
    pub name: String,
    pub hash: PerceptualHash,
}

/// The full-size file chosen for a thumbnail, and how far apart they are.
pub struct Match {
    pub thumb: String,
    pub fullsize: String,
    pub distance: u32,
}

/// Every hash of the list is short enough to be measured.
pub open spec fn all_wf(files: Seq<HashedFile>) -> bool {
    forall|k: int| 0 <= k < files.len() ==> (#[trigger] files[k]).hash.wf()
}

pub open spec fn dist_to(t: Seq<u8>, files: Seq<HashedFile>, k: int) -> nat {
    hamming(t, files[k].hash.bytes@)
}

/// `i` is the first candidate at the least distance from `t`.
pub open spec fn is_first_nearest(t: Seq<u8>, files: Seq<HashedFile>, i: int) -> bool {
    &&& 0 <= i < files.len()
    &&& forall|k: int| 0 <= k < files.len() ==> dist_to(t, files, k) >= dist_to(t, files, i)
    &&& forall|k: int| 0 <= k < i ==> dist_to(t, files, k) > dist_to(t, files, i)
}

/// `m` pairs thumbnail `thumb` with its first nearest candidate among `files`.
pub open spec fn is_match_for(thumb: HashedFile, files: Seq<HashedFile>, m: Match) -> bool {
    exists|i: int|
        #![trigger is_first_nearest(thumb.hash.bytes@, files, i)]
        {
            &&& is_first_nearest(thumb.hash.bytes@, files, i)
            &&& m.thumb@ == thumb.name@
            &&& m.fullsize@ == files[i].name@
            &&& m.distance == dist_to(thumb.hash.bytes@, files, i)
        }
}

/// What matching `thumbs` against `files` yields: nothing when there is no
/// candidate, else one match per thumbnail, in the thumbnails' order.
pub open spec fn is_match_list(thumbs: Seq<HashedFile>, files: Seq<HashedFile>, r: Seq<Match>) -> bool {
    &&& files.len() == 0 ==> r.len() == 0
    &&& files.len() > 0 ==> r.len() == thumbs.len()
    &&& files.len() > 0 ==> forall|j: int|
        0 <= j < r.len() ==> is_match_for(thumbs[j], files, #[trigger] r[j])
}

/// Index of the candidate nearest to `thumb`; of several at the same least
/// distance, the earliest. `None` when there is no candidate.
pub fn nearest_index(thumb: &PerceptualHash, files: &Vec<HashedFile>) -> (r: Option<usize>)
    requires
        thumb.wf(),
        all_wf(files@),
    ensures
        files@.len() == 0 <==> r is None,
        r matches Some(i) ==> is_first_nearest(thumb.bytes@, files@, i as int),
{
    if files.len() == 0 {
        return None;
    }
    let mut best: usize = 0;
    let mut best_d: u32 = thumb.distance(&files[0].hash);
    let mut k: usize = 1;
    while k < files.len()
        invariant
            thumb.wf(),
            all_wf(files@),
            1 <= k <= files@.len(),
            best < k,
            best_d == dist_to(thumb.bytes@, files@, best as int),
            forall|j: int| 0 <= j < k ==> dist_to(thumb.bytes@, files@, j) >= best_d,
            forall|j: int| 0 <= j < best ==> dist_to(thumb.bytes@, files@, j) > best_d,
        decreases files@.len() - k,
    {
        assert(files@[k as int].hash.wf());
        let d = thumb.distance(&files[k].hash);
        if d < best_d {
            best = k;
            best_d = d;
        }
        k = k + 1;
    }
    Some(best)
}

/// The match for one thumbnail: its first nearest full-size candidate, or
/// `None` when there is no candidate.
pub fn best_match(thumb: &HashedFile, files: &Vec<HashedFile>) -> (r: Option<Match>)
    requires
        thumb.hash.wf(),
        all_wf(files@),
    ensures
        files@.len() == 0 <==> r is None,
        r matches Some(m) ==> is_match_for(*thumb, files@, m),
{
    match nearest_index(&thumb.hash, files) {
        None => None,
        Some(i) => {
            assert(files@[i as int].hash.wf());
            let distance = thumb.hash.distance(&files[i].hash);
            let m = Match { thumb: thumb.name.clone(), fullsize: files[i].name.clone(), distance };
            assert(is_first_nearest(thumb.hash.bytes@, files@, i as int));
            Some(m)
        },
    }
}

/// Matches every thumbnail against the full-size candidates, each on its own.
pub fn match_all(thumbs: &Vec<HashedFile>, files: &Vec<HashedFile>) -> (r: Vec<Match>)
    requires
        all_wf(thumbs@),
        all_wf(files@),
    ensures
        is_match_list(thumbs@, files@, r@),
{
    let mut r: Vec<Match> = Vec::new();
    if files.len() == 0 {
        return r;
    }
    let mut j: usize = 0;
    while j < thumbs.len()
        invariant
            all_wf(thumbs@),
            all_wf(files@),
            files@.len() > 0,
            j <= thumbs@.len(),
            r@.len() == j,
            forall|q: int| 0 <= q < j ==> is_match_for(thumbs@[q], files@, #[trigger] r@[q]),
        decreases thumbs@.len() - j,
    {
        assert(thumbs@[j as int].hash.wf());
        match best_match(&thumbs[j], files) {
            Some(m) => {
                r.push(m);
            },
            None => {},
        }
        j = j + 1;
    }
    r
}

/// Whether a match is far enough apart to be flagged for manual review.
pub fn needs_review(m: &Match) -> (r: bool)
    ensures
        r == (m.distance > REVIEW_THRESHOLD),
{
    m.distance > REVIEW_THRESHOLD
}

/// Two candidates that are both first nearest are the same candidate.
pub proof fn lemma_first_nearest_unique(t: Seq<u8>, files: Seq<HashedFile>, i: int, k: int)
    requires
        is_first_nearest(t, files, i),
        is_first_nearest(t, files, k),
    ensures
        i == k,
{
    assert(dist_to(t, files, k) >= dist_to(t, files, i));
    assert(dist_to(t, files, i) >= dist_to(t, files, k));
}

/// Of candidates tied at the least distance, the earlier one is chosen.
pub proof fn lemma_tie_goes_to_earlier(t: Seq<u8>, files: Seq<HashedFile>, a: int, b: int, i: int)
    requires
        0 <= a < b < files.len(),
        dist_to(t, files, a) == dist_to(t, files, b),
        forall|k: int| 0 <= k < files.len() ==> dist_to(t, files, k) >= dist_to(t, files, a),
        is_first_nearest(t, files, i),
    ensures
        i != b,
        i <= a,
{
}

/// Matching is a function of the two lists: two results for the same lists
/// agree on every thumbnail, candidate name and distance.
pub proof fn lemma_match_all_deterministic(
    thumbs: Seq<HashedFile>,
    files: Seq<HashedFile>,
    r1: Seq<Match>,
    r2: Seq<Match>,
)
    requires
        is_match_list(thumbs, files, r1),
        is_match_list(thumbs, files, r2),
    ensures
        r1.len() == r2.len(),
        forall|j: int|
            0 <= j < r1.len() ==> {
                &&& (#[trigger] r1[j]).thumb@ == r2[j].thumb@
                &&& r1[j].fullsize@ == r2[j].fullsize@
                &&& r1[j].distance == r2[j].distance
            },
{
    assert forall|j: int| 0 <= j < r1.len() implies {
        &&& (#[trigger] r1[j]).thumb@ == r2[j].thumb@
        &&& r1[j].fullsize@ == r2[j].fullsize@
        &&& r1[j].distance == r2[j].distance
    } by {
        assert(is_match_for(thumbs[j], files, r1[j]));
        assert(is_match_for(thumbs[j], files, r2[j]));
        let t = thumbs[j].hash.bytes@;
        let i1 = choose|i: int| #[trigger]
            is_first_nearest(t, files, i) && r1[j].fullsize@ == files[i].name@ && r1[j].distance
                == dist_to(t, files, i);
        let i2 = choose|i: int| #[trigger]
            is_first_nearest(t, files, i) && r2[j].fullsize@ == files[i].name@ && r2[j].distance
                == dist_to(t, files, i);
        lemma_first_nearest_unique(t, files, i1, i2);
    }
}

/// With no full-size candidate, matching yields nothing for any thumbnail.
pub proof fn lemma_no_candidates_no_matches(thumbs: Seq<HashedFile>, r: Seq<Match>)
    requires
        is_match_list(thumbs, Seq::empty(), r),
    ensures
        r.len() == 0,
{
}

} // verus!
