//! The feature lattice: one image's features, held both in a grid addressed by
//! pixel row and column and in a flat list that can be sorted and pruned.

use crate::error::{ConfigError, FeatureError};
use crate::keypoint::{pixel_of, Descriptor, Keypoint};
use std::collections::BTreeSet;
use std::rc::Rc;
use vstd::prelude::*;

verus! {

/// A keypoint with its descriptor, the pixel it lies on and the position it
/// had in the list of keypoints it was built from.
#[derive(Clone, Copy, Debug)]
pub struct IntensityFeature {
    pub keypoint: Keypoint,
    pub descriptor: Descriptor,
    pub row: i32,
    pub col: i32,
    pub index_in_vector: usize,
}

impl IntensityFeature {
    /// The feature of a keypoint, its descriptor and its index.
    pub open spec fn spec_new(
        keypoint: Keypoint,
        descriptor: Descriptor,
        index_in_vector: usize,
    ) -> IntensityFeature {
        IntensityFeature {
            keypoint,
            descriptor,
            row: keypoint.row() as i32,
            col: keypoint.col() as i32,
            index_in_vector,
        }
    }

    /// The feature of a keypoint, its descriptor and its index. It lies on the
    /// pixel that holds the keypoint.
    pub fn new(keypoint: &Keypoint, descriptor: &Descriptor, index_in_vector: usize) -> (feature:
        Self)
        ensures
            feature == Self::spec_new(*keypoint, *descriptor, index_in_vector),
    {
        IntensityFeature {
            keypoint: *keypoint,
            descriptor: *descriptor,
            row: pixel_of(keypoint.y),
            col: pixel_of(keypoint.x),
            index_in_vector,
        }
    }

    /// Row-major order of pixels: `self` lies on the pixel of `other` or before it.
    pub open spec fn spec_precedes(self, other: IntensityFeature) -> bool {
        self.row < other.row || (self.row == other.row && self.col <= other.col)
    }

    /// Executable form of [`IntensityFeature::spec_precedes`].
    pub fn precedes(&self, other: &IntensityFeature) -> (b: bool)
        ensures
            b == self.spec_precedes(*other),
    {
        self.row < other.row || (self.row == other.row && self.col <= other.col)
    }
}

/// What a lattice cell holds, without the pointer.
pub open spec fn cell_value(cell: Option<Rc<IntensityFeature>>) -> Option<IntensityFeature> {
    match cell {
        Some(feature) => Some(*feature),
        None => None,
    }
}

/// The feature that a lattice cell holds once `keypoints` were loaded in
/// order: that of the last keypoint lying on the pixel, if there is one.
pub open spec fn occupant(
    keypoints: Seq<Keypoint>,
    descriptors: Seq<Descriptor>,
    row: int,
    col: int,
) -> Option<IntensityFeature>
    decreases keypoints.len(),
{
    if keypoints.len() == 0 {
        None
    } else {
        let last = keypoints.len() - 1;
        if keypoints[last].row() == row && keypoints[last].col() == col {
            Some(IntensityFeature::spec_new(keypoints[last], descriptors[last], last as usize))
        } else {
            occupant(keypoints.drop_last(), descriptors, row, col)
        }
    }
}

/// Whether every keypoint lies on a pixel of a `rows` by `cols` image.
pub open spec fn all_within(keypoints: Seq<Keypoint>, rows: int, cols: int) -> bool {
    forall|i: int| 0 <= i < keypoints.len() ==> (#[trigger] keypoints[i]).within(rows, cols)
}

/// The indices below `n` that are not in `dropped`, in increasing order.
pub open spec fn surviving(n: nat, dropped: Set<usize>) -> Seq<int>
    decreases n,
{
    if n == 0 {
        Seq::empty()
    } else {
        let rest = surviving((n - 1) as nat, dropped);
        if dropped.contains((n - 1) as usize) {
            rest
        } else {
            rest.push(n - 1)
        }
    }
}

/// The first `n` elements of `s` without those at the indices in `dropped`.
pub open spec fn kept<T>(s: Seq<T>, dropped: Set<usize>, n: nat) -> Seq<T> {
    surviving(n, dropped).map_values(|i: int| s[i])
}

/// `s` without the elements at the indices in `dropped`, the others in their order.
pub open spec fn pruned<T>(s: Seq<T>, dropped: Set<usize>) -> Seq<T> {
    kept(s, dropped, s.len())
}

/// Whether the features are in row-major order of their pixels.
pub open spec fn is_sorted(s: Seq<Rc<IntensityFeature>>) -> bool {
    forall|i: int, j: int| 0 <= i <= j < s.len() ==> (*#[trigger] s[i]).spec_precedes(*#[trigger] s[j])
}

/// Where `feature` goes into `s`: behind the last element that precedes it.
pub open spec fn insertion_point(s: Seq<Rc<IntensityFeature>>, feature: IntensityFeature) -> int
    decreases s.len(),
{
    if s.len() == 0 {
        0
    } else if (*s.last()).spec_precedes(feature) {
        s.len() as int
    } else {
        insertion_point(s.drop_last(), feature)
    }
}

/// The features in row-major order of their pixels; features on one pixel
/// keep the order they had.
pub open spec fn sorted_features(s: Seq<Rc<IntensityFeature>>) -> Seq<Rc<IntensityFeature>>
    decreases s.len(),
{
    if s.len() == 0 {
        s
    } else {
        let rest = sorted_features(s.drop_last());
        rest.insert(insertion_point(rest, *s.last()), s.last())
    }
}

/// `slot` is the insertion point of `feature` where no element from `slot` on
/// precedes it and the element before `slot`, if there is one, does.
pub proof fn lemma_insertion_point(s: Seq<Rc<IntensityFeature>>, feature: IntensityFeature, slot: int)
    requires
        0 <= slot <= s.len(),
        forall|k: int| slot <= k < s.len() ==> !(*#[trigger] s[k]).spec_precedes(feature),
        slot > 0 ==> (*s[slot - 1]).spec_precedes(feature),
    ensures
        insertion_point(s, feature) == slot,
    decreases s.len(),
{
    if s.len() > slot {
        lemma_insertion_point(s.drop_last(), feature, slot);
    }
}

/// Where a feature goes into a list: behind one that precedes it, if behind
/// any, and before those that do not.
pub proof fn lemma_insertion_point_splits(s: Seq<Rc<IntensityFeature>>, feature: IntensityFeature)
    ensures
        0 <= insertion_point(s, feature) <= s.len(),
        insertion_point(s, feature) > 0 ==> (*s[insertion_point(s, feature) - 1]).spec_precedes(
            feature,
        ),
        forall|k: int|
            insertion_point(s, feature) <= k < s.len() ==> !(*#[trigger] s[k]).spec_precedes(feature),
    decreases s.len(),
{
    if s.len() > 0 && !(*s.last()).spec_precedes(feature) {
        let shorter = s.drop_last();
        lemma_insertion_point_splits(shorter, feature);
        assert forall|k: int| insertion_point(s, feature) <= k < s.len() implies !(
        *#[trigger] s[k]).spec_precedes(feature) by {
            if k < shorter.len() {
                assert(s[k] == shorter[k]);
            }
        }
    }
}

/// Sorting keeps the number of features.
pub proof fn lemma_sorted_features_len(s: Seq<Rc<IntensityFeature>>)
    ensures
        sorted_features(s).len() == s.len(),
    decreases s.len(),
{
    if s.len() > 0 {
        lemma_sorted_features_len(s.drop_last());
        lemma_insertion_point_splits(sorted_features(s.drop_last()), *s.last());
    }
}

/// Sorted features are in row-major order of their pixels.
pub proof fn lemma_sorted_features_sorted(s: Seq<Rc<IntensityFeature>>)
    ensures
        is_sorted(sorted_features(s)),
    decreases s.len(),
{
    if s.len() > 0 {
        let rest = sorted_features(s.drop_last());
        let feature = s.last();
        let at = insertion_point(rest, *feature);
        lemma_sorted_features_sorted(s.drop_last());
        lemma_insertion_point_splits(rest, *feature);
        let all = rest.insert(at, feature);
        assert forall|i: int, j: int| 0 <= i <= j < all.len() implies (*#[trigger] all[i]).spec_precedes(
            *#[trigger] all[j],
        ) by {
            if j < at {
                assert(all[i] == rest[i] && all[j] == rest[j]);
            } else if j == at {
                if i < at {
                    assert(all[i] == rest[i]);
                    assert((*rest[i]).spec_precedes(*rest[at - 1]));
                }
            } else {
                assert(all[j] == rest[j - 1]);
                if i < at {
                    assert(all[i] == rest[i]);
                } else if i == at {
                    assert(!(*rest[j - 1]).spec_precedes(*feature));
                } else {
                    assert(all[i] == rest[i - 1]);
                }
            }
        }
    }
}

/// What survives of the indices below `n`: exactly those not in `dropped`,
/// each once, in increasing order.
pub proof fn lemma_surviving(n: nat, dropped: Set<usize>)
    requires
        n <= usize::MAX,
    ensures
        surviving(n, dropped).len() <= n,
        forall|k: int|
            0 <= k < surviving(n, dropped).len() ==> 0 <= (#[trigger] surviving(n, dropped)[k]) < n
                && !dropped.contains(surviving(n, dropped)[k] as usize),
        forall|j: int, k: int|
            0 <= j < k < surviving(n, dropped).len() ==> (#[trigger] surviving(n, dropped)[j]) < (
            #[trigger] surviving(n, dropped)[k]),
        forall|i: int|
            0 <= i < n && !dropped.contains(i as usize) ==> surviving(n, dropped).contains(i),
    decreases n,
{
    if n > 0 {
        let rest = surviving((n - 1) as nat, dropped);
        lemma_surviving((n - 1) as nat, dropped);
        let all = surviving(n, dropped);
        assert forall|i: int| 0 <= i < n && !dropped.contains(i as usize) implies all.contains(
            i,
        ) by {
            if i < n - 1 {
                assert(rest.contains(i));
                let k = choose|k: int| 0 <= k < rest.len() && rest[k] == i;
                assert(all[k] == i);
            } else {
                assert(all[all.len() - 1] == i);
            }
        }
    }
}

/// Where every dropped index is below `n`, as many indices survive as are
/// not dropped.
pub proof fn lemma_surviving_len(n: nat, dropped: Set<usize>)
    requires
        n <= usize::MAX,
        dropped.finite(),
        forall|i: usize| dropped.contains(i) ==> i < n,
    ensures
        surviving(n, dropped).len() == n - dropped.len(),
    decreases n,
{
    if n == 0 {
        assert(dropped =~= Set::<usize>::empty());
    } else {
        let last = (n - 1) as usize;
        if dropped.contains(last) {
            let fewer = dropped.remove(last);
            lemma_surviving_len((n - 1) as nat, fewer);
            lemma_surviving_ignores((n - 1) as nat, dropped, fewer);
        } else {
            lemma_surviving_len((n - 1) as nat, dropped);
        }
    }
}

/// Only the dropped indices below `n` matter to what survives below `n`.
pub proof fn lemma_surviving_ignores(n: nat, a: Set<usize>, b: Set<usize>)
    requires
        n <= usize::MAX,
        forall|i: usize| i < n ==> (a.contains(i) <==> b.contains(i)),
    ensures
        surviving(n, a) == surviving(n, b),
    decreases n,
{
    if n > 0 {
        lemma_surviving_ignores((n - 1) as nat, a, b);
    }
}

/// Pruning takes out exactly the elements at the dropped indices and keeps the
/// others in their order: the result lists the elements at the surviving
/// indices, which are the indices not dropped, in increasing order. Where
/// every dropped index is one of the list, the result is shorter by their number.
pub proof fn lemma_pruned<T>(s: Seq<T>, dropped: Set<usize>)
    requires
        s.len() <= usize::MAX,
    ensures
        pruned(s, dropped).len() == surviving(s.len(), dropped).len(),
        forall|k: int|
            0 <= k < pruned(s, dropped).len() ==> #[trigger] pruned(s, dropped)[k] == s[surviving(
                s.len(),
                dropped,
            )[k]],
        forall|k: int|
            0 <= k < surviving(s.len(), dropped).len() ==> 0 <= (#[trigger] surviving(
                s.len(),
                dropped,
            )[k]) < s.len() && !dropped.contains(surviving(s.len(), dropped)[k] as usize),
        forall|j: int, k: int|
            0 <= j < k < surviving(s.len(), dropped).len() ==> (#[trigger] surviving(
                s.len(),
                dropped,
            )[j]) < (#[trigger] surviving(s.len(), dropped)[k]),
        forall|i: int|
            0 <= i < s.len() && !dropped.contains(i as usize) ==> surviving(
                s.len(),
                dropped,
            ).contains(i),
        dropped.finite() && (forall|i: usize| dropped.contains(i) ==> i < s.len()) ==> pruned(
            s,
            dropped,
        ).len() == s.len() - dropped.len(),
{
    lemma_surviving(s.len(), dropped);
    if dropped.finite() && (forall|i: usize| dropped.contains(i) ==> i < s.len()) {
        lemma_surviving_len(s.len(), dropped);
    }
}

/// Whether a feature lies on the pixel in row `row` and column `col`.
pub open spec fn on_pixel(row: int, col: int) -> spec_fn(Rc<IntensityFeature>) -> bool {
    |feature: Rc<IntensityFeature>| (*feature).row == row && (*feature).col == col
}

/// The features of `s` that lie on the pixel in row `row` and column `col`,
/// in their order.
pub open spec fn features_on(s: Seq<Rc<IntensityFeature>>, row: int, col: int) -> Seq<
    Rc<IntensityFeature>,
> {
    s.filter(on_pixel(row, col))
}

/// A list without a feature on a pixel has no features on that pixel.
proof fn lemma_none_on_pixel(s: Seq<Rc<IntensityFeature>>, row: int, col: int)
    requires
        forall|k: int| 0 <= k < s.len() ==> !on_pixel(row, col)(#[trigger] s[k]),
    ensures
        features_on(s, row, col) == Seq::<Rc<IntensityFeature>>::empty(),
    decreases s.len(),
{
    reveal(Seq::filter);
    if s.len() > 0 {
        let shorter = s.drop_last();
        assert forall|k: int| 0 <= k < shorter.len() implies !on_pixel(row, col)(
            #[trigger] shorter[k],
        ) by {
            assert(shorter[k] == s[k]);
        }
        lemma_none_on_pixel(shorter, row, col);
        assert(!on_pixel(row, col)(s[s.len() - 1]));
    }
}

/// Sorting is stable: the features on one pixel are in the order they had.
pub proof fn lemma_sorted_features_stable(s: Seq<Rc<IntensityFeature>>, row: int, col: int)
    ensures
        features_on(sorted_features(s), row, col) == features_on(s, row, col),
    decreases s.len(),
{
    reveal(Seq::filter);
    if s.len() > 0 {
        let on = on_pixel(row, col);
        let rest = sorted_features(s.drop_last());
        let feature = s.last();
        let at = insertion_point(rest, *feature);
        lemma_sorted_features_stable(s.drop_last(), row, col);
        lemma_insertion_point_splits(rest, *feature);
        let front = rest.take(at);
        let back = rest.skip(at);
        let single = seq![feature];
        let all = rest.insert(at, feature);
        assert(all =~= (front + single) + back);
        assert(rest =~= front + back);
        Seq::filter_distributes_over_add(front + single, back, on);
        Seq::filter_distributes_over_add(front, single, on);
        Seq::filter_distributes_over_add(front, back, on);
        assert(single.drop_last() =~= Seq::<Rc<IntensityFeature>>::empty());
        assert(single.drop_last().filter(on) =~= Seq::<Rc<IntensityFeature>>::empty());
        if on(feature) {
            assert(single.filter(on) =~= single);
            assert forall|k: int| 0 <= k < back.len() implies !on(#[trigger] back[k]) by {
                assert(back[k] == rest[at + k]);
                assert(!(*rest[at + k]).spec_precedes(*feature));
            }
            lemma_none_on_pixel(back, row, col);
            assert(all.filter(on) =~= front.filter(on) + single);
            assert(rest.filter(on) =~= front.filter(on));
            assert(s.filter(on) =~= s.drop_last().filter(on).push(feature));
        } else {
            assert(single.filter(on) =~= Seq::<Rc<IntensityFeature>>::empty());
            assert(all.filter(on) =~= front.filter(on) + back.filter(on));
            assert(s.filter(on) =~= s.drop_last().filter(on));
        }
    }
}

/// Sorting permutes the features: each occurs as often as before.
pub proof fn lemma_sorted_features_permutes(s: Seq<Rc<IntensityFeature>>)
    ensures
        sorted_features(s).to_multiset() == s.to_multiset(),
    decreases s.len(),
{
    if s.len() > 0 {
        let rest = sorted_features(s.drop_last());
        let feature = s.last();
        let at = insertion_point(rest, *feature);
        lemma_sorted_features_permutes(s.drop_last());
        lemma_insertion_point_splits(rest, *feature);
        let all = rest.insert(at, feature);
        all.to_multiset_ensures();
        s.drop_last().to_multiset_ensures();
        assert(all.remove(at) == rest);
        assert(all[at] == feature);
        assert(all.to_multiset() =~= rest.to_multiset().insert(feature));
        assert(s.drop_last().push(feature) == s);
    }
}

/// Who holds a lattice cell after `keypoints` were loaded: the last keypoint
/// that lies on the pixel, and nobody where none does.
pub proof fn lemma_occupant(keypoints: Seq<Keypoint>, descriptors: Seq<Descriptor>, row: int, col: int)
    requires
        keypoints.len() <= usize::MAX,
    ensures
        match occupant(keypoints, descriptors, row, col) {
            Some(feature) => {
                let index = feature.index_in_vector as int;
                &&& 0 <= index < keypoints.len()
                &&& feature == IntensityFeature::spec_new(
                    keypoints[index],
                    descriptors[index],
                    index as usize,
                )
                &&& keypoints[index].row() == row
                &&& keypoints[index].col() == col
                &&& forall|later: int|
                    index < later < keypoints.len() ==> !((#[trigger] keypoints[later]).row() == row
                        && keypoints[later].col() == col)
            },
            None => forall|any: int|
                0 <= any < keypoints.len() ==> !((#[trigger] keypoints[any]).row() == row
                    && keypoints[any].col() == col),
        },
    decreases keypoints.len(),
{
    if keypoints.len() > 0 {
        let last = keypoints.len() - 1;
        if !(keypoints[last].row() == row && keypoints[last].col() == col) {
            let shorter = keypoints.drop_last();
            lemma_occupant(shorter, descriptors, row, col);
            match occupant(shorter, descriptors, row, col) {
                Some(feature) => {
                    let index = feature.index_in_vector as int;
                    assert(shorter[index] == keypoints[index]);
                    assert forall|later: int| index < later < keypoints.len() implies !((
                    #[trigger] keypoints[later]).row() == row && keypoints[later].col() == col) by {
                        if later < last {
                            assert(shorter[later] == keypoints[later]);
                        }
                    }
                },
                None => {
                    assert forall|any: int| 0 <= any < keypoints.len() implies !((
                    #[trigger] keypoints[any]).row() == row && keypoints[any].col() == col) by {
                        if any < last {
                            assert(shorter[any] == keypoints[any]);
                        }
                    }
                },
            }
        }
    }
}

/// A lattice that holds the features of `keypoints`, all of them on pixels of
/// the image, indexes its flat list: the list has one entry for each keypoint;
/// the cell of an entry's pixel holds an entry of the list on that pixel, which
/// is the entry itself unless a later one lies on the same pixel, and then the
/// last of them; and whatever a cell holds is an entry of the list that lies
/// on the cell.
pub proof fn lemma_lattice_indexes_features(
    lattice: IntensityFeatureMatcher,
    keypoints: Seq<Keypoint>,
    descriptors: Seq<Descriptor>,
)
    requires
        keypoints.len() <= usize::MAX,
        lattice.holds(keypoints, descriptors),
        all_within(keypoints, lattice.number_of_rows as int, lattice.number_of_cols as int),
    ensures
        lattice.feature_vector@.len() == keypoints.len(),
        forall|i: int|
            0 <= i < keypoints.len() ==> {
                let entry = *#[trigger] lattice.feature_vector@[i];
                &&& lattice.cell(entry.row as int, entry.col as int) is Some
                &&& ({
                    let held = lattice.cell(entry.row as int, entry.col as int)->0;
                    &&& held.row == entry.row
                    &&& held.col == entry.col
                    &&& i <= held.index_in_vector < keypoints.len()
                    &&& held == *lattice.feature_vector@[held.index_in_vector as int]
                    &&& forall|later: int|
                        held.index_in_vector < later < keypoints.len() ==> !((
                        #[trigger] keypoints[later]).row() == entry.row && keypoints[later].col()
                            == entry.col)
                })
            },
        forall|row: int, col: int|
            0 <= row < lattice.number_of_rows && 0 <= col < lattice.number_of_cols && (
            #[trigger] lattice.cell(row, col)) is Some ==> {
                let held = lattice.cell(row, col)->0;
                &&& held.index_in_vector < keypoints.len()
                &&& held == *lattice.feature_vector@[held.index_in_vector as int]
                &&& held.row == row
                &&& held.col == col
            },
{
    assert forall|row: int, col: int|
        0 <= row < lattice.number_of_rows && 0 <= col < lattice.number_of_cols && (
        #[trigger] lattice.cell(row, col)) is Some implies {
        let held = lattice.cell(row, col)->0;
        &&& held.index_in_vector < keypoints.len()
        &&& held == *lattice.feature_vector@[held.index_in_vector as int]
        &&& held.row == row
        &&& held.col == col
    } by {
        lemma_occupant(keypoints, descriptors, row, col);
    }
    assert forall|i: int| 0 <= i < keypoints.len() implies {
        let entry = *#[trigger] lattice.feature_vector@[i];
        &&& lattice.cell(entry.row as int, entry.col as int) is Some
        &&& ({
            let held = lattice.cell(entry.row as int, entry.col as int)->0;
            &&& held.row == entry.row
            &&& held.col == entry.col
            &&& i <= held.index_in_vector < keypoints.len()
            &&& held == *lattice.feature_vector@[held.index_in_vector as int]
            &&& forall|later: int|
                held.index_in_vector < later < keypoints.len() ==> !((
                #[trigger] keypoints[later]).row() == entry.row && keypoints[later].col()
                    == entry.col)
        })
    } by {
        let entry = *lattice.feature_vector@[i];
        assert(keypoints[i].within(lattice.number_of_rows as int, lattice.number_of_cols as int));
        assert(entry == IntensityFeature::spec_new(keypoints[i], descriptors[i], i as usize));
        lemma_occupant(keypoints, descriptors, entry.row as int, entry.col as int);
        let held = lattice.cell(entry.row as int, entry.col as int);
        assert(held == occupant(keypoints, descriptors, entry.row as int, entry.col as int));
    }
}

/// Executable form of [`is_sorted`].
pub fn check_sorted(features: &Vec<Rc<IntensityFeature>>) -> (b: bool)
    ensures
        b == is_sorted(features@),
{
    let mut next: usize = 1;
    while next < features.len()
        invariant
            1 <= next,
            forall|i: int, j: int|
                0 <= i <= j < next && j < features@.len() ==> (*#[trigger] features@[i]).spec_precedes(
                    *#[trigger] features@[j],
                ),
        decreases features@.len() - next,
    {
        if !features[next - 1].precedes(&features[next]) {
            return false;
        }
        assert forall|i: int, j: int| 0 <= i <= j < next + 1 implies (
        *#[trigger] features@[i]).spec_precedes(*#[trigger] features@[j]) by {
            if j == next && i < next {
                assert((*features@[i]).spec_precedes(*features@[next - 1]));
            }
        }
        next = next + 1;
    }
    true
}

/// A spatial index over the features of one image.
pub struct IntensityFeatureMatcher {
    pub number_of_rows: i32,
    pub number_of_cols: i32,
    pub feature_lattice: Vec<Vec<Option<Rc<IntensityFeature>>>>,
    pub feature_vector: Vec<Rc<IntensityFeature>>,
}

impl Default for IntensityFeatureMatcher {
    fn default() -> (matcher: Self)
        ensures
            matcher.well_formed(),
            !matcher.is_configured(),
            matcher.number_of_rows == 0,
            matcher.number_of_cols == 0,
            matcher.feature_vector@.len() == 0,
    {
        Self {
            number_of_rows: 0,
            number_of_cols: 0,
            feature_lattice: Vec::new(),
            feature_vector: Vec::new(),
        }
    }
}

impl IntensityFeatureMatcher {
    /// The grid has as many rows and columns as the lattice says.
    pub open spec fn well_formed(&self) -> bool {
        &&& 0 <= self.number_of_rows
        &&& 0 <= self.number_of_cols
        &&& self.feature_lattice@.len() == self.number_of_rows
        &&& forall|row: int|
            0 <= row < self.feature_lattice@.len() ==> (#[trigger] self.feature_lattice@[row])@.len()
                == self.number_of_cols
    }

    /// Whether the lattice holds a grid.
    pub open spec fn is_configured(&self) -> bool {
        self.feature_lattice@.len() > 0
    }

    /// What the cell at `row` and `col` holds.
    pub open spec fn cell(&self, row: int, col: int) -> Option<IntensityFeature> {
        cell_value(self.feature_lattice@[row]@[col])
    }

    /// Whether every cell of the grid is empty.
    pub open spec fn is_blank(&self) -> bool {
        forall|row: int, col: int|
            0 <= row < self.number_of_rows && 0 <= col < self.number_of_cols ==> #[trigger] self.cell(
                row,
                col,
            ) is None
    }

    /// What [`IntensityFeatureMatcher::configure`] answers to the request for a
    /// `rows` by `cols` grid.
    pub open spec fn configure_verdict(&self, rows: usize, cols: usize) -> Result<(), ConfigError> {
        if self.is_configured() {
            Err(ConfigError::AlreadyConfigured)
        } else if rows == 0 || cols == 0 {
            Err(ConfigError::NonPositiveDimension)
        } else if rows > i32::MAX || cols > i32::MAX {
            Err(ConfigError::DimensionTooLarge)
        } else {
            Ok(())
        }
    }

    /// Gives an empty lattice its grid of `rows` by `cols` empty cells. A lattice
    /// takes a grid once: a second request is refused and changes nothing.
    pub fn configure(&mut self, rows: usize, cols: usize) -> (result: Result<(), ConfigError>)
        requires
            old(self).well_formed(),
        ensures
            result == old(self).configure_verdict(rows, cols),
            result is Err ==> *final(self) == *old(self),
            result is Ok ==> {
                &&& final(self).well_formed()
                &&& final(self).number_of_rows == rows
                &&& final(self).number_of_cols == cols
                &&& final(self).is_blank()
                &&& final(self).feature_vector == old(self).feature_vector
            },
    {
        if self.feature_lattice.len() > 0 {
            return Err(ConfigError::AlreadyConfigured);
        }
        if rows == 0 || cols == 0 {
            return Err(ConfigError::NonPositiveDimension);
        }
        if rows > i32::MAX as usize || cols > i32::MAX as usize {
            return Err(ConfigError::DimensionTooLarge);
        }
        let mut row: usize = 0;
        while row < rows
            invariant
                row <= rows,
                self.feature_lattice@.len() == row,
                self.feature_vector == old(self).feature_vector,
                forall|r: int|
                    0 <= r < row ==> (#[trigger] self.feature_lattice@[r])@.len() == cols,
                forall|r: int, c: int|
                    0 <= r < row && 0 <= c < cols ==> (#[trigger] self.feature_lattice@[r]@[c]) is None,
            decreases rows - row,
        {
            let mut cells: Vec<Option<Rc<IntensityFeature>>> = Vec::new();
            let mut col: usize = 0;
            while col < cols
                invariant
                    col <= cols,
                    cells@.len() == col,
                    forall|c: int| 0 <= c < col ==> (#[trigger] cells@[c]) is None,
                decreases cols - col,
            {
                cells.push(None);
                col = col + 1;
            }
            self.feature_lattice.push(cells);
            row = row + 1;
        }
        self.number_of_rows = rows as i32;
        self.number_of_cols = cols as i32;
        Ok(())
    }

    /// What [`IntensityFeatureMatcher::set_fatures`] answers to `keypoints` and
    /// `descriptors`.
    pub open spec fn features_verdict(
        &self,
        keypoints: Seq<Keypoint>,
        descriptors: Seq<Descriptor>,
    ) -> Result<(), FeatureError> {
        if keypoints.len() != descriptors.len() {
            Err(FeatureError::CountMismatch)
        } else if !all_within(keypoints, self.number_of_rows as int, self.number_of_cols as int) {
            Err(FeatureError::OutOfBounds)
        } else {
            Ok(())
        }
    }

    /// Whether the lattice holds exactly the features of `keypoints` and
    /// `descriptors`: the flat list has them in order, and each cell has the
    /// last feature that lies on it.
    pub open spec fn holds(&self, keypoints: Seq<Keypoint>, descriptors: Seq<Descriptor>) -> bool {
        &&& self.feature_vector@.len() == keypoints.len()
        &&& forall|i: int|
            0 <= i < keypoints.len() ==> *(#[trigger] self.feature_vector@[i])
                == IntensityFeature::spec_new(keypoints[i], descriptors[i], i as usize)
        &&& forall|row: int, col: int|
            0 <= row < self.number_of_rows && 0 <= col < self.number_of_cols ==> #[trigger] self.cell(
                row,
                col,
            ) == occupant(keypoints, descriptors, row, col)
    }

    /// Tells whether `keypoints` and `descriptors` can be loaded, without loading them.
    pub fn check_features(&self, keypoints: &Vec<Keypoint>, descriptors: &Vec<Descriptor>) -> (result:
        Result<(), FeatureError>)
        ensures
            result == self.features_verdict(keypoints@, descriptors@),
    {
        if keypoints.len() != descriptors.len() {
            return Err(FeatureError::CountMismatch);
        }
        let mut index: usize = 0;
        while index < keypoints.len()
            invariant
                index <= keypoints.len(),
                keypoints.len() == descriptors.len(),
                all_within(
                    keypoints@.take(index as int),
                    self.number_of_rows as int,
                    self.number_of_cols as int,
                ),
            decreases keypoints.len() - index,
        {
            if !keypoints[index].is_within(self.number_of_rows, self.number_of_cols) {
                assert(!keypoints@[index as int].within(
                    self.number_of_rows as int,
                    self.number_of_cols as int,
                ));
                assert(!all_within(
                    keypoints@,
                    self.number_of_rows as int,
                    self.number_of_cols as int,
                ));
                return Err(FeatureError::OutOfBounds);
            }
            assert forall|i: int| 0 <= i < index + 1 implies (#[trigger] keypoints@.take(
                index + 1,
            )[i]).within(self.number_of_rows as int, self.number_of_cols as int) by {
                if i < index {
                    assert(keypoints@.take(index as int)[i] == keypoints@[i]);
                }
            }
            index = index + 1;
        }
        assert(keypoints@.take(index as int) == keypoints@);
        Ok(())
    }

    /// Empties every cell of the grid.
    fn clear_lattice(&mut self)
        requires
            old(self).well_formed(),
        ensures
            final(self).well_formed(),
            final(self).is_blank(),
            final(self).number_of_rows == old(self).number_of_rows,
            final(self).number_of_cols == old(self).number_of_cols,
            final(self).feature_vector == old(self).feature_vector,
    {
        let rows = self.feature_lattice.len();
        let mut row: usize = 0;
        while row < rows
            invariant
                row <= rows,
                rows == self.number_of_rows,
                self.well_formed(),
                self.number_of_rows == old(self).number_of_rows,
                self.number_of_cols == old(self).number_of_cols,
                self.feature_vector == old(self).feature_vector,
                forall|r: int, c: int|
                    0 <= r < row && 0 <= c < self.number_of_cols ==> (
                    #[trigger] self.feature_lattice@[r]@[c]) is None,
            decreases rows - row,
        {
            let cols = self.feature_lattice[row].len();
            let mut col: usize = 0;
            while col < cols
                invariant
                    col <= cols,
                    row < rows,
                    rows == self.number_of_rows,
                    cols == self.number_of_cols,
                    self.well_formed(),
                    self.number_of_rows == old(self).number_of_rows,
                    self.number_of_cols == old(self).number_of_cols,
                    self.feature_vector == old(self).feature_vector,
                    forall|r: int, c: int|
                        0 <= r < row && 0 <= c < self.number_of_cols ==> (
                        #[trigger] self.feature_lattice@[r]@[c]) is None,
                    forall|c: int|
                        0 <= c < col ==> (#[trigger] self.feature_lattice@[row as int]@[c]) is None,
                decreases cols - col,
            {
                self.feature_lattice[row][col] = None;
                col = col + 1;
            }
            row = row + 1;
        }
    }

    /// Replaces the features of the lattice by those of `keypoints` and
    /// `descriptors`. Where two keypoints lie on one pixel, the later one takes
    /// the cell. Features that cannot be loaded leave the lattice as it was.
    pub fn set_fatures(&mut self, keypoints: &Vec<Keypoint>, descriptors: &Vec<Descriptor>) -> (result:
        Result<(), FeatureError>)
        requires
            old(self).well_formed(),
        ensures
            result == old(self).features_verdict(keypoints@, descriptors@),
            result is Err ==> *final(self) == *old(self),
            result is Ok ==> {
                &&& final(self).well_formed()
                &&& final(self).number_of_rows == old(self).number_of_rows
                &&& final(self).number_of_cols == old(self).number_of_cols
                &&& final(self).holds(keypoints@, descriptors@)
            },
    {
        let verdict = self.check_features(keypoints, descriptors);
        if verdict.is_err() {
            return verdict;
        }
        self.clear_lattice();
        let ghost cleared = *self;
        self.feature_vector.clear();
        let mut index: usize = 0;
        assert forall|row: int, col: int|
            0 <= row < self.number_of_rows && 0 <= col < self.number_of_cols
                implies #[trigger] self.cell(row, col) == occupant(
            keypoints@.take(0),
            descriptors@,
            row,
            col,
        ) by {
            assert(cleared.cell(row, col) is None);
            assert(keypoints@.take(0).len() == 0);
        }
        while index < keypoints.len()
            invariant
                index <= keypoints.len(),
                keypoints.len() == descriptors.len(),
                self.well_formed(),
                self.number_of_rows == old(self).number_of_rows,
                self.number_of_cols == old(self).number_of_cols,
                all_within(keypoints@, self.number_of_rows as int, self.number_of_cols as int),
                self.feature_vector@.len() == index,
                forall|i: int|
                    0 <= i < index ==> *(#[trigger] self.feature_vector@[i])
                        == IntensityFeature::spec_new(keypoints@[i], descriptors@[i], i as usize),
                forall|row: int, col: int|
                    0 <= row < self.number_of_rows && 0 <= col < self.number_of_cols
                        ==> #[trigger] self.cell(row, col) == occupant(
                        keypoints@.take(index as int),
                        descriptors@,
                        row,
                        col,
                    ),
            decreases keypoints.len() - index,
        {
            let ghost start = *self;
            let feature = Rc::new(IntensityFeature::new(&keypoints[index], &descriptors[index], index));
            proof {
                assert(keypoints@[index as int].within(
                    self.number_of_rows as int,
                    self.number_of_cols as int,
                ));
                let grown = keypoints@.take(index + 1);
                assert(grown.drop_last() == keypoints@.take(index as int));
                assert(grown[index as int] == keypoints@[index as int]);
            }
            self.feature_vector.push(feature.clone());
            let row = feature.row as usize;
            let col = feature.col as usize;
            let ghost before = *self;
            self.feature_lattice[row][col] = Some(feature);
            proof {
                let grown = keypoints@.take(index + 1);
                assert forall|r: int, c: int|
                    0 <= r < self.number_of_rows && 0 <= c < self.number_of_cols
                        implies #[trigger] self.cell(r, c) == occupant(
                    grown,
                    descriptors@,
                    r,
                    c,
                ) by {
                    assert(grown.drop_last() == keypoints@.take(index as int));
                    assert(grown.last() == keypoints@[index as int]);
                    if r == row && c == col {
                        assert(self.cell(r, c) == Some(*feature));
                    } else {
                        assert(self.cell(r, c) == start.cell(r, c));
                        assert(!(grown.last().row() == r && grown.last().col() == c));
                    }
                }
            }
            index = index + 1;
        }
        assert(keypoints@.take(index as int) == keypoints@);
        Ok(())
    }

    /// Puts the flat list into row-major order of the features' pixels.
    /// Features on one pixel keep the order they had. The grid is not touched.
    pub fn sort_feature_vector(&mut self)
        ensures
            final(self).feature_vector@ == sorted_features(old(self).feature_vector@),
            final(self).feature_lattice == old(self).feature_lattice,
            final(self).number_of_rows == old(self).number_of_rows,
            final(self).number_of_cols == old(self).number_of_cols,
    {
        let count = self.feature_vector.len();
        let ghost unsorted = self.feature_vector@;
        let mut next: usize = 0;
        assert(unsorted.take(0) == Seq::<Rc<IntensityFeature>>::empty());
        while next < count
            invariant
                next <= count,
                count == unsorted.len(),
                self.feature_vector@.len() == count,
                self.feature_vector@.take(next as int) == sorted_features(unsorted.take(next as int)),
                self.feature_vector@.skip(next as int) == unsorted.skip(next as int),
                self.feature_lattice == old(self).feature_lattice,
                self.number_of_rows == old(self).number_of_rows,
                self.number_of_cols == old(self).number_of_cols,
            decreases count - next,
        {
            let ghost settled = self.feature_vector@.take(next as int);
            let ghost entry = self.feature_vector@;
            let feature = self.feature_vector[next].clone();
            assert(feature == unsorted[next as int]) by {
                assert(self.feature_vector@.skip(next as int)[0] == unsorted.skip(next as int)[0]);
            }
            let mut slot: usize = next;
            while slot > 0 && !self.feature_vector[slot - 1].precedes(&feature)
                invariant
                    slot <= next < count,
                    self.feature_vector@.len() == count,
                    settled.len() == next,
                    forall|k: int| 0 <= k < slot ==> self.feature_vector@[k] == settled[k],
                    forall|k: int| slot < k <= next ==> self.feature_vector@[k] == settled[k - 1],
                    forall|k: int| next < k < count ==> self.feature_vector@[k] == entry[k],
                    forall|k: int|
                        slot <= k < next ==> !(*#[trigger] settled[k]).spec_precedes(*feature),
                    self.feature_lattice == old(self).feature_lattice,
                    self.number_of_rows == old(self).number_of_rows,
                    self.number_of_cols == old(self).number_of_cols,
                decreases slot,
            {
                let moved = self.feature_vector[slot - 1].clone();
                self.feature_vector[slot] = moved;
                slot = slot - 1;
            }
            self.feature_vector[slot] = feature;
            proof {
                lemma_insertion_point(settled, *feature, slot as int);
                let grown = unsorted.take(next + 1);
                assert(grown.drop_last() == unsorted.take(next as int));
                assert(grown.last() == feature);
                assert(self.feature_vector@.take(next + 1) == settled.insert(slot as int, feature));
                let tail = self.feature_vector@.skip(next + 1);
                assert forall|k: int| 0 <= k < tail.len() implies #[trigger] tail[k] == unsorted.skip(
                    next + 1,
                )[k] by {
                    assert(entry.skip(next as int)[k + 1] == unsorted.skip(next as int)[k + 1]);
                }
                assert(tail == unsorted.skip(next + 1));
            }
            next = next + 1;
        }
        assert(self.feature_vector@.take(count as int) == self.feature_vector@);
        assert(unsorted.take(count as int) == unsorted);
    }

    /// Takes the features at the indices in `matched_indices` out of the flat
    /// list. The others keep their order. The grid is not touched.
    pub fn prune(&mut self, matched_indices: &BTreeSet<usize>)
        ensures
            final(self).feature_vector@ == pruned(old(self).feature_vector@, matched_indices@),
            final(self).feature_lattice == old(self).feature_lattice,
            final(self).number_of_rows == old(self).number_of_rows,
            final(self).number_of_cols == old(self).number_of_cols,
    {
        broadcast use vstd::std_specs::btree::group_btree_axioms;

        let count = self.feature_vector.len();
        let ghost full = self.feature_vector@;
        let mut number_of_unmatched_elements: usize = 0;
        let mut index: usize = 0;
        while index < count
            invariant
                number_of_unmatched_elements <= index <= count,
                count == full.len(),
                self.feature_vector@.len() == count,
                self.feature_vector@.take(number_of_unmatched_elements as int) == kept(
                    full,
                    matched_indices@,
                    index as nat,
                ),
                forall|k: int| index <= k < count ==> self.feature_vector@[k] == full[k],
                self.feature_lattice == old(self).feature_lattice,
                self.number_of_rows == old(self).number_of_rows,
                self.number_of_cols == old(self).number_of_cols,
            decreases count - index,
        {
            let ghost entry = self.feature_vector@;
            if !matched_indices.contains(&index) {
                let feature = self.feature_vector[index].clone();
                self.feature_vector[number_of_unmatched_elements] = feature;
                proof {
                    assert(self.feature_vector@.take(number_of_unmatched_elements + 1)
                        == entry.take(number_of_unmatched_elements as int).push(full[index as int]));
                    assert(kept(full, matched_indices@, (index + 1) as nat) == kept(
                        full,
                        matched_indices@,
                        index as nat,
                    ).push(full[index as int]));
                }
                number_of_unmatched_elements = number_of_unmatched_elements + 1;
            }
            index = index + 1;
        }
        self.feature_vector.truncate(number_of_unmatched_elements);
    }

    /// Executable form of [`IntensityFeatureMatcher::well_formed`], for
    /// callers that have changed the lattice by hand.
    pub fn is_well_formed(&self) -> (b: bool)
        ensures
            b == self.well_formed(),
    {
        if self.number_of_rows < 0 || self.number_of_cols < 0 {
            return false;
        }
        if self.feature_lattice.len() != self.number_of_rows as usize {
            return false;
        }
        let mut row: usize = 0;
        while row < self.feature_lattice.len()
            invariant
                row <= self.feature_lattice@.len(),
                0 <= self.number_of_rows,
                0 <= self.number_of_cols,
                self.feature_lattice@.len() == self.number_of_rows,
                forall|r: int|
                    0 <= r < row ==> (#[trigger] self.feature_lattice@[r])@.len()
                        == self.number_of_cols,
            decreases self.feature_lattice@.len() - row,
        {
            if self.feature_lattice[row].len() != self.number_of_cols as usize {
                return false;
            }
            row = row + 1;
        }
        true
    }
}

} // verus!
