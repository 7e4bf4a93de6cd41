//! The greedy epipolar search: which right feature each left feature is paired
//! with, and the sweep over two sorted feature lists that finds the pairs.

use crate::intensity_feature_matcher::{is_sorted, IntensityFeature};
use crate::keypoint::{Keypoint, SUBPIXEL};
use std::rc::Rc;
use vstd::prelude::*;

verus! {

/// Whether `right` may be the partner of `left` on the epipolar line `offset`
/// rows away: it lies on that line, and not to the right of `left`.
pub open spec fn is_candidate(left: IntensityFeature, right: IntensityFeature, offset: int) -> bool {
    left.row == right.row + offset && left.col - right.col >= 0
}

/// The descriptor distance of two features, in bits.
pub open spec fn feature_distance(left: IntensityFeature, right: IntensityFeature) -> nat {
    left.descriptor.spec_distance(right.descriptor)
}

/// Whether `right[j]` is the partner of `left` among the features from index
/// `from` on: a candidate whose distance is below `max_distance` (in
/// thousandths of a bit) and below that of every other candidate; among
/// candidates at the same distance the first one is taken.
pub open spec fn is_best_match(
    left: IntensityFeature,
    right: Seq<Rc<IntensityFeature>>,
    from: int,
    offset: int,
    max_distance: int,
    j: int,
) -> bool {
    &&& 0 <= from <= j < right.len()
    &&& is_candidate(left, *right[j], offset)
    &&& feature_distance(left, *right[j]) * SUBPIXEL < max_distance
    &&& forall|k: int|
        from <= k < right.len() && is_candidate(left, *#[trigger] right[k], offset) ==> {
            &&& k < j ==> feature_distance(left, *right[j]) < feature_distance(left, *right[k])
            &&& k > j ==> feature_distance(left, *right[j]) <= feature_distance(left, *right[k])
        }
}

/// The index of the partner of `left` among the right features from index
/// `from` on, if it has one.
pub open spec fn best_match(
    left: IntensityFeature,
    right: Seq<Rc<IntensityFeature>>,
    from: int,
    offset: int,
    max_distance: int,
) -> Option<int> {
    if exists|j: int| is_best_match(left, right, from, offset, max_distance, j) {
        Some(choose|j: int| is_best_match(left, right, from, offset, max_distance, j))
    } else {
        None
    }
}

/// The first right index that is still free after the pairs in `matches`.
pub open spec fn search_start(matches: Seq<(usize, usize)>) -> int {
    if matches.len() == 0 {
        0
    } else {
        matches.last().1 + 1
    }
}

/// The pairs that the first `n` left features give: each left feature in turn
/// takes its partner among the right features behind the last one taken.
pub open spec fn greedy_prefix(
    left: Seq<Rc<IntensityFeature>>,
    right: Seq<Rc<IntensityFeature>>,
    offset: int,
    max_distance: int,
    n: nat,
) -> Seq<(usize, usize)>
    decreases n,
{
    if n == 0 {
        Seq::empty()
    } else {
        let earlier = greedy_prefix(left, right, offset, max_distance, (n - 1) as nat);
        match best_match(*left[n - 1], right, search_start(earlier), offset, max_distance) {
            Some(j) => earlier.push(((n - 1) as usize, j as usize)),
            None => earlier,
        }
    }
}

/// The pairs of indices into `left` and `right` that the greedy search accepts.
pub open spec fn greedy_matches(
    left: Seq<Rc<IntensityFeature>>,
    right: Seq<Rc<IntensityFeature>>,
    offset: int,
    max_distance: int,
) -> Seq<(usize, usize)> {
    greedy_prefix(left, right, offset, max_distance, left.len())
}

/// A left feature has at most one partner.
pub proof fn lemma_best_match_unique(
    left: IntensityFeature,
    right: Seq<Rc<IntensityFeature>>,
    from: int,
    offset: int,
    max_distance: int,
    j: int,
)
    requires
        is_best_match(left, right, from, offset, max_distance, j),
    ensures
        best_match(left, right, from, offset, max_distance) == Some(j),
{
    let chosen = choose|i: int| is_best_match(left, right, from, offset, max_distance, i);
    assert(is_best_match(left, right, from, offset, max_distance, chosen));
    if chosen < j {
        assert(is_candidate(left, *right[chosen], offset));
        assert(is_candidate(left, *right[j], offset));
    } else if chosen > j {
        assert(is_candidate(left, *right[chosen], offset));
        assert(is_candidate(left, *right[j], offset));
    }
}

/// The partner that [`best_match`] names is one.
pub proof fn lemma_best_match_is_best(
    left: IntensityFeature,
    right: Seq<Rc<IntensityFeature>>,
    from: int,
    offset: int,
    max_distance: int,
)
    ensures
        match best_match(left, right, from, offset, max_distance) {
            Some(j) => is_best_match(left, right, from, offset, max_distance, j),
            None => forall|j: int| !is_best_match(left, right, from, offset, max_distance, j),
        },
{
}

/// Whether `matches` pairs indices into `left` and `right` as the search may:
/// each pair lies on the epipolar line `offset`, the right feature not to the
/// right of the left one, at a distance below `max_distance`; and both indices
/// grow from pair to pair.
pub open spec fn is_valid_matching(
    left: Seq<Rc<IntensityFeature>>,
    right: Seq<Rc<IntensityFeature>>,
    offset: int,
    max_distance: int,
    matches: Seq<(usize, usize)>,
) -> bool {
    &&& forall|k: int|
        0 <= k < matches.len() ==> {
            let pair = #[trigger] matches[k];
            &&& pair.0 < left.len()
            &&& pair.1 < right.len()
            &&& (*left[pair.0 as int]).row == (*right[pair.1 as int]).row + offset
            &&& (*left[pair.0 as int]).col - (*right[pair.1 as int]).col >= 0
            &&& feature_distance(*left[pair.0 as int], *right[pair.1 as int]) * SUBPIXEL
                < max_distance
        }
    &&& forall|i: int, k: int|
        0 <= i < k < matches.len() ==> (#[trigger] matches[i]).0 < (#[trigger] matches[k]).0
            && matches[i].1 < matches[k].1
}

/// Every pair that the first `n` left features give lies on the epipolar
/// line, has the right feature not to the right of the left one and a distance
/// below the threshold; no feature is paired twice, and the pairs come in
/// growing order of both indices.
pub proof fn lemma_greedy_prefix_valid(
    left: Seq<Rc<IntensityFeature>>,
    right: Seq<Rc<IntensityFeature>>,
    offset: int,
    max_distance: int,
    n: nat,
)
    requires
        n <= left.len(),
        left.len() <= usize::MAX,
        right.len() <= usize::MAX,
    ensures
        is_valid_matching(left, right, offset, max_distance, greedy_prefix(left, right, offset, max_distance, n)),
        greedy_prefix(left, right, offset, max_distance, n).len() <= n,
        forall|k: int|
            0 <= k < greedy_prefix(left, right, offset, max_distance, n).len() ==> (
            #[trigger] greedy_prefix(left, right, offset, max_distance, n)[k]).0 < n,
        0 <= search_start(greedy_prefix(left, right, offset, max_distance, n)) <= right.len(),
    decreases n,
{
    if n > 0 {
        let earlier = greedy_prefix(left, right, offset, max_distance, (n - 1) as nat);
        lemma_greedy_prefix_valid(left, right, offset, max_distance, (n - 1) as nat);
        let from = search_start(earlier);
        lemma_best_match_is_best(*left[n - 1], right, from, offset, max_distance);
        match best_match(*left[n - 1], right, from, offset, max_distance) {
            Some(j) => {
                let all = earlier.push(((n - 1) as usize, j as usize));
                assert(all == greedy_prefix(left, right, offset, max_distance, n));
                assert forall|i: int, k: int| 0 <= i < k < all.len() implies (#[trigger] all[i]).0 < (
                #[trigger] all[k]).0 && all[i].1 < all[k].1 by {
                    if k == all.len() - 1 {
                        assert(all[i] == earlier[i]);
                        if i < earlier.len() - 1 {
                            assert(earlier[i].1 < earlier[earlier.len() - 1].1);
                        }
                    } else {
                        assert(all[i] == earlier[i]);
                        assert(all[k] == earlier[k]);
                    }
                }
                assert forall|k: int| 0 <= k < all.len() implies {
                    let pair = #[trigger] all[k];
                    &&& pair.0 < left.len()
                    &&& pair.1 < right.len()
                    &&& (*left[pair.0 as int]).row == (*right[pair.1 as int]).row + offset
                    &&& (*left[pair.0 as int]).col - (*right[pair.1 as int]).col >= 0
                    &&& feature_distance(*left[pair.0 as int], *right[pair.1 as int]) * SUBPIXEL
                        < max_distance
                } by {
                    if k < earlier.len() {
                        assert(all[k] == earlier[k]);
                    }
                }
            },
            None => {},
        }
    }
}

/// Where no left feature from index `done` on has a candidate among the right
/// features that are still free, the left features up to `n` give no more
/// pairs than the first `done` do.
pub proof fn lemma_no_candidates_no_matches(
    left: Seq<Rc<IntensityFeature>>,
    right: Seq<Rc<IntensityFeature>>,
    offset: int,
    max_distance: int,
    done: nat,
    n: nat,
)
    requires
        done <= n <= left.len(),
        forall|j: int, l: int|
            search_start(greedy_prefix(left, right, offset, max_distance, done)) <= j < right.len()
                && done <= l < left.len() ==> !is_candidate(
                *#[trigger] left[l],
                *#[trigger] right[j],
                offset,
            ),
    ensures
        greedy_prefix(left, right, offset, max_distance, n) == greedy_prefix(
            left,
            right,
            offset,
            max_distance,
            done,
        ),
    decreases n,
{
    if n > done {
        lemma_no_candidates_no_matches(left, right, offset, max_distance, done, (n - 1) as nat);
        let earlier = greedy_prefix(left, right, offset, max_distance, (n - 1) as nat);
        let from = search_start(earlier);
        let feature = *left[n - 1];
        assert forall|j: int| !is_best_match(feature, right, from, offset, max_distance, j) by {
            if from <= j < right.len() {
                assert(!is_candidate(*left[n - 1], *right[j], offset));
            }
        }
    }
}

/// Sweeps once over the sorted lists `left` and `right` and returns the pairs
/// of indices that the greedy search accepts on the epipolar line `offset`.
/// Both lists are read from front to back, no feature twice.
pub fn match_features(
    left: &Vec<Rc<IntensityFeature>>,
    right: &Vec<Rc<IntensityFeature>>,
    offset: i32,
    max_distance: u64,
) -> (pairs: Vec<(usize, usize)>)
    requires
        is_sorted(left@),
        is_sorted(right@),
    ensures
        pairs@ == greedy_matches(left@, right@, offset as int, max_distance as int),
{
    let mut pairs: Vec<(usize, usize)> = Vec::new();
    let mut index_l: usize = 0;
    let mut index_r: usize = 0;
    // With either list read to its end there is nothing left to pair.
    while index_l < left.len() && index_r < right.len()
        invariant
            index_l <= left.len(),
            index_r <= right.len(),
            is_sorted(left@),
            is_sorted(right@),
            pairs@ == greedy_prefix(left@, right@, offset as int, max_distance as int, index_l as nat),
            0 <= search_start(pairs@) <= index_r,
            forall|j: int, l: int|
                search_start(pairs@) <= j < index_r && index_l <= l < left.len() ==> (
                *#[trigger] right@[j]).row + offset < (*#[trigger] left@[l]).row,
        decreases left.len() - index_l,
    {
        let feature_left = left[index_l].clone();
        let ghost from = search_start(pairs@);
        let ghost passed = index_r;
        // Right features on rows above the epipolar line can be left behind
        // for good: the left features to come lie no higher than this one.
        while index_r < right.len() && feature_left.row as i64 > right[index_r].row as i64
            + offset as i64
            invariant
                passed <= index_r <= right.len(),
                forall|j: int|
                    passed <= j < index_r ==> (*#[trigger] right@[j]).row + offset
                        < feature_left.row,
            decreases right.len() - index_r,
        {
            index_r = index_r + 1;
        }
        let mut index_search_r: usize = index_r;
        let mut distance_best: u64 = max_distance;
        let mut index_best_r: usize = 0;
        while index_search_r < right.len() && feature_left.row as i64
            == right[index_search_r].row as i64 + offset as i64 && feature_left.col
            >= right[index_search_r].col
            invariant
                index_r <= index_search_r <= right.len(),
                is_sorted(right@),
                distance_best <= max_distance,
                forall|k: int|
                    index_r <= k < index_search_r ==> is_candidate(
                        *feature_left,
                        *#[trigger] right@[k],
                        offset as int,
                    ),
                distance_best == max_distance ==> forall|k: int|
                    index_r <= k < index_search_r ==> feature_distance(
                        *feature_left,
                        *#[trigger] right@[k],
                    ) * SUBPIXEL >= max_distance,
                distance_best < max_distance ==> {
                    &&& index_r <= index_best_r < index_search_r
                    &&& distance_best == feature_distance(*feature_left, *right@[index_best_r as int])
                        * SUBPIXEL
                    &&& forall|k: int|
                        index_r <= k < index_search_r ==> {
                            &&& k < index_best_r ==> feature_distance(
                                *feature_left,
                                *right@[index_best_r as int],
                            ) < feature_distance(*feature_left, *#[trigger] right@[k])
                            &&& k > index_best_r ==> feature_distance(
                                *feature_left,
                                *right@[index_best_r as int],
                            ) <= feature_distance(*feature_left, *right@[k])
                        }
                },
            decreases right.len() - index_search_r,
        {
            let bits = feature_left.descriptor.distance(&right[index_search_r].descriptor);
            let distance: u64 = bits as u64 * 1000;
            if distance < distance_best {
                distance_best = distance;
                index_best_r = index_search_r;
            }
            index_search_r = index_search_r + 1;
        }
        proof {
            // The candidates from `from` on are those the scan has read.
            assert forall|k: int|
                from <= k < right@.len() && is_candidate(
                    *feature_left,
                    *#[trigger] right@[k],
                    offset as int,
                ) implies index_r <= k < index_search_r by {
                if k < passed {
                    assert((*right@[k]).row + offset < (*left@[index_l as int]).row);
                } else if k < index_r {
                } else if k >= index_search_r {
                    assert((*right@[index_search_r as int]).spec_precedes(*right@[k]));
                    if index_search_r > index_r {
                        assert(is_candidate(
                            *feature_left,
                            *right@[index_search_r - 1],
                            offset as int,
                        ));
                        assert((*right@[index_search_r - 1]).spec_precedes(
                            *right@[index_search_r as int],
                        ));
                    }
                }
            }
        }
        if distance_best < max_distance {
            proof {
                assert(is_best_match(
                    *feature_left,
                    right@,
                    from,
                    offset as int,
                    max_distance as int,
                    index_best_r as int,
                ));
                lemma_best_match_unique(
                    *feature_left,
                    right@,
                    from,
                    offset as int,
                    max_distance as int,
                    index_best_r as int,
                );
            }
            pairs.push((index_l, index_best_r));
            index_r = index_best_r + 1;
        } else {
            proof {
                assert forall|j: int|
                    !is_best_match(
                        *feature_left,
                        right@,
                        from,
                        offset as int,
                        max_distance as int,
                        j,
                    ) by {
                    if from <= j < right@.len() && is_candidate(
                        *feature_left,
                        *right@[j],
                        offset as int,
                    ) {
                        assert(index_r <= j < index_search_r);
                    }
                }
                assert forall|j: int, l: int|
                    from <= j < index_r && index_l + 1 <= l < left@.len() implies (
                *#[trigger] right@[j]).row + offset < (*#[trigger] left@[l]).row by {
                    assert((*left@[index_l as int]).spec_precedes(*left@[l]));
                }
            }
        }
        index_l = index_l + 1;
    }
    proof {
        if index_l < left.len() {
            assert forall|j: int, l: int|
                search_start(pairs@) <= j < right@.len() && index_l <= l < left@.len() implies !is_candidate(
                *#[trigger] left@[l],
                *#[trigger] right@[j],
                offset as int,
            ) by {
                assert((*right@[j]).row + offset < (*left@[l]).row);
            }
            lemma_no_candidates_no_matches(
                left@,
                right@,
                offset as int,
                max_distance as int,
                index_l as nat,
                left@.len(),
            );
        }
    }
    pairs
}

/// The left indices of the first `n` pairs.
pub open spec fn left_indices_upto(matches: Seq<(usize, usize)>, n: int) -> Set<usize> {
    Set::new(|i: usize| exists|k: int| 0 <= k < n && (#[trigger] matches[k]).0 == i)
}

/// The right indices of the first `n` pairs.
pub open spec fn right_indices_upto(matches: Seq<(usize, usize)>, n: int) -> Set<usize> {
    Set::new(|i: usize| exists|k: int| 0 <= k < n && (#[trigger] matches[k]).1 == i)
}

/// The indices of the left features that are paired.
pub open spec fn left_indices(matches: Seq<(usize, usize)>) -> Set<usize> {
    left_indices_upto(matches, matches.len() as int)
}

/// The indices of the right features that are paired.
pub open spec fn right_indices(matches: Seq<(usize, usize)>) -> Set<usize> {
    right_indices_upto(matches, matches.len() as int)
}

/// The left features that are paired, pair by pair.
pub open spec fn left_features(left: Seq<Rc<IntensityFeature>>, matches: Seq<(usize, usize)>) -> Seq<
    Rc<IntensityFeature>,
> {
    Seq::new(matches.len(), |k: int| left[matches[k].0 as int])
}

/// The right features that are paired, pair by pair.
pub open spec fn right_features(right: Seq<Rc<IntensityFeature>>, matches: Seq<(usize, usize)>) -> Seq<
    Rc<IntensityFeature>,
> {
    Seq::new(matches.len(), |k: int| right[matches[k].1 as int])
}

/// The keypoints of the features.
pub open spec fn keypoints_of(features: Seq<Rc<IntensityFeature>>) -> Seq<Keypoint> {
    Seq::new(features.len(), |k: int| (*features[k]).keypoint)
}

/// One more pair adds its indices to the paired ones.
pub proof fn lemma_indices_grow(matches: Seq<(usize, usize)>, n: int)
    requires
        0 <= n < matches.len(),
    ensures
        left_indices_upto(matches, n + 1) == left_indices_upto(matches, n).insert(matches[n].0),
        right_indices_upto(matches, n + 1) == right_indices_upto(matches, n).insert(matches[n].1),
{
    assert forall|i: usize|
        left_indices_upto(matches, n + 1).contains(i) == left_indices_upto(matches, n).insert(
            matches[n].0,
        ).contains(i) by {
        if left_indices_upto(matches, n + 1).contains(i) {
            let k = choose|k: int| 0 <= k < n + 1 && (#[trigger] matches[k]).0 == i;
            if k < n {
                assert(left_indices_upto(matches, n).contains(i));
            }
        }
        if left_indices_upto(matches, n).contains(i) {
            let k = choose|k: int| 0 <= k < n && (#[trigger] matches[k]).0 == i;
            assert(0 <= k < n + 1 && matches[k].0 == i);
        }
        if matches[n].0 == i {
            assert(0 <= n < n + 1 && matches[n].0 == i);
        }
    }
    assert(left_indices_upto(matches, n + 1) =~= left_indices_upto(matches, n).insert(matches[n].0));
    assert forall|i: usize|
        right_indices_upto(matches, n + 1).contains(i) == right_indices_upto(matches, n).insert(
            matches[n].1,
        ).contains(i) by {
        if right_indices_upto(matches, n + 1).contains(i) {
            let k = choose|k: int| 0 <= k < n + 1 && (#[trigger] matches[k]).1 == i;
            if k < n {
                assert(right_indices_upto(matches, n).contains(i));
            }
        }
        if right_indices_upto(matches, n).contains(i) {
            let k = choose|k: int| 0 <= k < n && (#[trigger] matches[k]).1 == i;
            assert(0 <= k < n + 1 && matches[k].1 == i);
        }
        if matches[n].1 == i {
            assert(0 <= n < n + 1 && matches[n].1 == i);
        }
    }
    assert(right_indices_upto(matches, n + 1) =~= right_indices_upto(matches, n).insert(
        matches[n].1,
    ));
}

/// In a valid matching no feature is paired twice: there are as many paired
/// left features, and as many paired right features, as there are pairs, and
/// all of them are features of the lists.
pub proof fn lemma_indices_count(
    left: Seq<Rc<IntensityFeature>>,
    right: Seq<Rc<IntensityFeature>>,
    offset: int,
    max_distance: int,
    matches: Seq<(usize, usize)>,
    n: int,
)
    requires
        is_valid_matching(left, right, offset, max_distance, matches),
        0 <= n <= matches.len(),
    ensures
        left_indices_upto(matches, n).finite(),
        left_indices_upto(matches, n).len() == n,
        forall|i: usize| left_indices_upto(matches, n).contains(i) ==> i < left.len(),
        right_indices_upto(matches, n).finite(),
        right_indices_upto(matches, n).len() == n,
        forall|i: usize| right_indices_upto(matches, n).contains(i) ==> i < right.len(),
    decreases n,
{
    if n == 0 {
        assert(left_indices_upto(matches, 0) =~= Set::<usize>::empty());
        assert(right_indices_upto(matches, 0) =~= Set::<usize>::empty());
    } else {
        lemma_indices_count(left, right, offset, max_distance, matches, n - 1);
        lemma_indices_grow(matches, n - 1);
        if left_indices_upto(matches, n - 1).contains(matches[n - 1].0) {
            let k = choose|k: int| 0 <= k < n - 1 && (#[trigger] matches[k]).0 == matches[n - 1].0;
            assert(matches[k].0 < matches[n - 1].0);
        }
        if right_indices_upto(matches, n - 1).contains(matches[n - 1].1) {
            let k = choose|k: int| 0 <= k < n - 1 && (#[trigger] matches[k]).1 == matches[n - 1].1;
            assert(matches[k].1 < matches[n - 1].1);
        }
        assert forall|i: usize| left_indices_upto(matches, n).contains(i) implies i
            < left.len() by {
            let k = choose|k: int| 0 <= k < n && (#[trigger] matches[k]).0 == i;
            assert(matches[k].0 < left.len());
        }
        assert forall|i: usize| right_indices_upto(matches, n).contains(i) implies i
            < right.len() by {
            let k = choose|k: int| 0 <= k < n && (#[trigger] matches[k]).1 == i;
            assert(matches[k].1 < right.len());
        }
    }
}

/// Every pair that the greedy search accepts joins a left and a right feature
/// of the lists that lie on the searched epipolar line, the right one not to
/// the right of the left one: the row of the left feature is that of the right
/// one plus the offset, and its column is not less.
pub proof fn lemma_matches_lie_on_the_epipolar_line(
    left: Seq<Rc<IntensityFeature>>,
    right: Seq<Rc<IntensityFeature>>,
    offset: int,
    max_distance: int,
)
    requires
        left.len() <= usize::MAX,
        right.len() <= usize::MAX,
    ensures
        forall|k: int|
            0 <= k < greedy_matches(left, right, offset, max_distance).len() ==> {
                let pair = #[trigger] greedy_matches(left, right, offset, max_distance)[k];
                &&& pair.0 < left.len()
                &&& pair.1 < right.len()
                &&& (*left[pair.0 as int]).col - (*right[pair.1 as int]).col >= 0
                &&& (*left[pair.0 as int]).row == (*right[pair.1 as int]).row + offset
            },
{
    lemma_greedy_prefix_valid(left, right, offset, max_distance, left.len());
}

/// No pair that the greedy search accepts is at a descriptor distance of
/// `max_distance` or more.
pub proof fn lemma_matches_are_below_the_threshold(
    left: Seq<Rc<IntensityFeature>>,
    right: Seq<Rc<IntensityFeature>>,
    offset: int,
    max_distance: int,
)
    requires
        left.len() <= usize::MAX,
        right.len() <= usize::MAX,
    ensures
        forall|k: int|
            0 <= k < greedy_matches(left, right, offset, max_distance).len() ==> {
                let pair = #[trigger] greedy_matches(left, right, offset, max_distance)[k];
                &&& pair.0 < left.len()
                &&& pair.1 < right.len()
                &&& feature_distance(*left[pair.0 as int], *right[pair.1 as int]) * SUBPIXEL
                    < max_distance
            },
{
    lemma_greedy_prefix_valid(left, right, offset, max_distance, left.len());
}

/// The greedy search pairs no feature twice, and its pairs come in the order
/// of both lists: from pair to pair the left index grows, and the right one too.
pub proof fn lemma_matches_are_one_to_one(
    left: Seq<Rc<IntensityFeature>>,
    right: Seq<Rc<IntensityFeature>>,
    offset: int,
    max_distance: int,
)
    requires
        left.len() <= usize::MAX,
        right.len() <= usize::MAX,
    ensures
        forall|i: int, k: int|
            0 <= i < k < greedy_matches(left, right, offset, max_distance).len() ==> (
            #[trigger] greedy_matches(left, right, offset, max_distance)[i]).0 < (
            #[trigger] greedy_matches(left, right, offset, max_distance)[k]).0 && greedy_matches(
                left,
                right,
                offset,
                max_distance,
            )[i].1 < greedy_matches(left, right, offset, max_distance)[k].1,
{
    lemma_greedy_prefix_valid(left, right, offset, max_distance, left.len());
}

} // verus!
