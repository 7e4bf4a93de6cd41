//! The stereo correspondence engine: it takes the detections of a left and a
//! right image, adapts the detectors, loads each side's features into a
//! lattice of its own, and pairs them along the epipolar lines.
//!
//! Detection and description are done by the caller, in this order:
//! [`StereoFramePointGenerator::detect_keypoints`] takes what the detectors
//! found, the caller then describes the frame's keypoints, and
//! [`StereoFramePointGenerator::initialize`] loads the lattices.

use crate::epipolar::{
    greedy_matches, keypoints_of, left_features, left_indices, left_indices_upto,
    lemma_greedy_prefix_valid, lemma_indices_count, lemma_indices_grow, match_features,
    right_features, right_indices, right_indices_upto,
};
use crate::error::{ConfigError, DetectionError, FeatureError, FramePointError};
use crate::frame_point_generator::{grid_keypoints, FramePointGenerator, FramePointGeneratorCfg};
use crate::intensity_feature_matcher::{
    lemma_pruned, lemma_sorted_features_len, lemma_sorted_features_sorted, pruned, sorted_features,
    IntensityFeature, IntensityFeatureMatcher,
};
use crate::keypoint::{Descriptor, Keypoint};
use crate::stereo_framepoint::{disparity, StereoFramepoint};
use std::collections::BTreeSet;
use std::rc::Rc;
use vstd::prelude::*;

verus! {

/// The largest descriptor distance accepted while localizing, and the least
/// that the largest accepted distance ever is: a tenth of the descriptor's
/// bits, in thousandths of a bit.
pub const BOOTSTRAP_DISTANCE: u64 = 25_600;

/// Lifecycle state of a frame: pairs are accepted leniently while localizing;
/// while tracking, the fewer keypoints there are, the stricter.
#[derive(Clone, Copy, Debug, PartialEq, Eq, Structural)]
pub enum FrameStatus {
    Localizing,
    Tracking,
}

/// The descriptors that the engine can compare.
#[derive(Clone, Copy, Debug, PartialEq, Eq, Structural)]
pub enum DescriptorType {
    /// Binary descriptors of 256 bits, compared by Hamming distance.
    Orb256,
}

/// A grayscale image, row after row, one byte per pixel.
#[derive(Clone, Debug, PartialEq, Eq)]
pub struct Image {
    pub width: usize,
    pub height: usize,
    pub pixels: Vec<u8>,
}

/// The two images of one timestep with what was extracted from them.
pub struct Frame {
    pub keypoints_left: Vec<Keypoint>,
    pub keypoints_right: Vec<Keypoint>,
    pub descriptors_left: Vec<Descriptor>,
    pub descriptors_right: Vec<Descriptor>,
    pub intensity_image_left: Image,
    pub intensity_image_right: Image,
    pub number_of_detected_keypoints: usize,
    pub status: FrameStatus,
}

impl Frame {
    /// A frame of two images, from which nothing was extracted yet.
    pub fn new(intensity_image_left: Image, intensity_image_right: Image) -> (frame: Self)
        ensures
            frame.keypoints_left@.len() == 0,
            frame.keypoints_right@.len() == 0,
            frame.descriptors_left@.len() == 0,
            frame.descriptors_right@.len() == 0,
            frame.intensity_image_left == intensity_image_left,
            frame.intensity_image_right == intensity_image_right,
            frame.number_of_detected_keypoints == 0,
            frame.status == FrameStatus::Localizing,
    {
        Self {
            keypoints_left: Vec::new(),
            keypoints_right: Vec::new(),
            descriptors_left: Vec::new(),
            descriptors_right: Vec::new(),
            intensity_image_left,
            intensity_image_right,
            number_of_detected_keypoints: 0,
            status: FrameStatus::Localizing,
        }
    }
}

/// The options of the engine. Tolerance, maximum change and minimum disparity
/// are in thousandths; the thresholds are whole numbers, as the detectors take them.
#[derive(Clone, Debug)]
pub struct StereoFramePointGeneratorCfg {
    /// Rows of each grid of detectors.
    pub number_of_detectors_vertical: usize,
    /// Columns of each grid of detectors.
    pub number_of_detectors_horizontal: usize,
    /// How far, in thousandths of the target, a count may be off the target
    /// before the threshold moves.
    pub target_number_of_keypoints_tolerance: u32,
    /// The step of the controller, in thousandths of the threshold.
    pub detector_threshold_maximum_change: u32,
    /// A threshold to start other detectors with; the grids' own start with
    /// the smallest threshold.
    pub detector_threshold_initial: u32,
    /// The smallest threshold.
    pub detector_threshold_minimum: u32,
    /// The largest threshold.
    pub detector_threshold_maximum: u32,
    /// The side of a bin, in pixels: one keypoint is wanted for each bin.
    pub bin_size_pixels: usize,
    /// The largest descriptor distance, in bits, at which later stages
    /// triangulate. The search itself starts from [`BOOTSTRAP_DISTANCE`].
    pub maximum_matching_distance_triangulation: i32,
    /// The name of the descriptors: `ORB-256`.
    pub descriptor_type: String,
    /// The least disparity of a correspondence, in thousandths of a pixel.
    pub minimum_disparity_pixels: i64,
    /// How many rows off the epipolar line the search goes, each way.
    pub maximum_epipolar_search_offset_pixels: i32,
}

impl Default for StereoFramePointGeneratorCfg {
    fn default() -> (cfg: Self)
        ensures
            cfg.grid() == (FramePointGeneratorCfg {
                number_of_detectors_vertical: 1,
                number_of_detectors_horizontal: 1,
                target_number_of_keypoints_tolerance: 100,
                detector_threshold_maximum_change: 500,
                detector_threshold_initial: 15,
                detector_threshold_minimum: 15,
                detector_threshold_maximum: 100,
                bin_size_pixels: 25,
            }),
            cfg.maximum_matching_distance_triangulation == 51,
            cfg.descriptor_type@ == "ORB-256"@,
            cfg.minimum_disparity_pixels == 1000,
            cfg.maximum_epipolar_search_offset_pixels == 0,
    {
        Self {
            number_of_detectors_vertical: 1,
            number_of_detectors_horizontal: 1,
            target_number_of_keypoints_tolerance: 100,
            detector_threshold_maximum_change: 500,
            detector_threshold_initial: 15,
            detector_threshold_minimum: 15,
            detector_threshold_maximum: 100,
            bin_size_pixels: 25,
            maximum_matching_distance_triangulation: 51,
            descriptor_type: "ORB-256".to_owned(),
            minimum_disparity_pixels: 1000,
            maximum_epipolar_search_offset_pixels: 0,
        }
    }
}

/// The epipolar lines to search, as row offsets, in the order of the search:
/// the line itself, then one row below and one above, then two, up to `maximum` rows.
pub open spec fn search_offsets(maximum: int) -> Seq<i32> {
    if maximum <= 0 {
        seq![0i32]
    } else {
        Seq::new(
            (2 * maximum + 1) as nat,
            |k: int|
                if k % 2 == 1 {
                    ((k + 1) / 2) as i32
                } else {
                    (-(k / 2)) as i32
                },
        )
    }
}

/// The descriptor type that a name stands for.
pub open spec fn descriptor_type_of(name: Seq<char>) -> Option<DescriptorType> {
    if name == "ORB-256"@ {
        Some(DescriptorType::Orb256)
    } else {
        None
    }
}

/// The stereo correspondence engine.
pub struct StereoFramePointGenerator {
    /// The detector grid of the left image.
    pub detector_left: FramePointGenerator,
    /// The detector grid of the right image.
    pub detector_right: FramePointGenerator,
    /// The number of keypoints wanted of an image.
    pub target_number_of_keypoints: u64,
    /// The mean number of keypoints detected in the two images last taken.
    pub number_of_detected_keypoints: usize,
    pub descriptor_type: DescriptorType,
    pub maximum_matching_distance_triangulation: i32,
    /// The descriptor distance, in thousandths of a bit, below which a pair
    /// is accepted.
    pub current_maximum_descriptor_distance_triangulation: u64,
    /// The least disparity of a correspondence, in thousandths of a pixel.
    pub minimum_disparity_pixels: i64,
    /// The epipolar lines to search, as row offsets, in the order of the search.
    pub epipolar_search_distance: Vec<i32>,
    /// The lattice of the left image's features.
    pub feature_matcher_left: IntensityFeatureMatcher,
    /// The lattice of the right image's features.
    pub feature_matcher_right: IntensityFeatureMatcher,
    /// The identifier of the next correspondence. The engine counts its own
    /// correspondences; engines that are to share a range of identifiers are
    /// given starts far enough apart.
    pub next_identifier: u64,
}

impl StereoFramePointGenerator {
    /// Both detector grids and both lattices are well formed.
    pub open spec fn well_formed(&self) -> bool {
        &&& self.detector_left.well_formed()
        &&& self.detector_right.well_formed()
        &&& self.feature_matcher_left.well_formed()
        &&& self.feature_matcher_right.well_formed()
    }
}

impl StereoFramePointGeneratorCfg {
    /// The options of the detector grids.
    pub open spec fn grid(self) -> FramePointGeneratorCfg {
        FramePointGeneratorCfg {
            number_of_detectors_vertical: self.number_of_detectors_vertical,
            number_of_detectors_horizontal: self.number_of_detectors_horizontal,
            target_number_of_keypoints_tolerance: self.target_number_of_keypoints_tolerance,
            detector_threshold_maximum_change: self.detector_threshold_maximum_change,
            detector_threshold_initial: self.detector_threshold_initial,
            detector_threshold_minimum: self.detector_threshold_minimum,
            detector_threshold_maximum: self.detector_threshold_maximum,
            bin_size_pixels: self.bin_size_pixels,
        }
    }

    /// What [`StereoFramePointGeneratorCfg::finalize`] answers for images of
    /// `width` by `height` pixels.
    pub open spec fn verdict(self, width: usize, height: usize) -> Result<(), ConfigError> {
        if self.grid().verdict(width, height) is Err {
            self.grid().verdict(width, height)
        } else if descriptor_type_of(self.descriptor_type@) is None {
            Err(ConfigError::UnknownDescriptorType)
        } else {
            Ok(())
        }
    }

    /// Whether `generator` is the engine that this configuration gives for
    /// images of `width` by `height` pixels.
    pub open spec fn describes(self, width: int, height: int, generator: StereoFramePointGenerator) -> bool {
        &&& self.grid().describes(width, height, generator.detector_left)
        &&& self.grid().describes(width, height, generator.detector_right)
        &&& generator.target_number_of_keypoints == generator.detector_left.target_number_of_keypoints
        &&& generator.number_of_detected_keypoints == 0
        &&& Some(generator.descriptor_type) == descriptor_type_of(self.descriptor_type@)
        &&& generator.maximum_matching_distance_triangulation
            == self.maximum_matching_distance_triangulation
        &&& generator.current_maximum_descriptor_distance_triangulation == BOOTSTRAP_DISTANCE
        &&& generator.minimum_disparity_pixels == self.minimum_disparity_pixels
        &&& generator.epipolar_search_distance@ == search_offsets(
            self.maximum_epipolar_search_offset_pixels as int,
        )
        &&& generator.feature_matcher_left.number_of_rows == height
        &&& generator.feature_matcher_left.number_of_cols == width
        &&& generator.feature_matcher_left.is_blank()
        &&& generator.feature_matcher_left.feature_vector@.len() == 0
        &&& generator.feature_matcher_right.number_of_rows == height
        &&& generator.feature_matcher_right.number_of_cols == width
        &&& generator.feature_matcher_right.is_blank()
        &&& generator.feature_matcher_right.feature_vector@.len() == 0
        &&& generator.next_identifier == 1
    }

    /// Executable form of [`StereoFramePointGeneratorCfg::grid`].
    fn grid_cfg(&self) -> (cfg: FramePointGeneratorCfg)
        ensures
            cfg == self.grid(),
    {
        FramePointGeneratorCfg {
            number_of_detectors_vertical: self.number_of_detectors_vertical,
            number_of_detectors_horizontal: self.number_of_detectors_horizontal,
            target_number_of_keypoints_tolerance: self.target_number_of_keypoints_tolerance,
            detector_threshold_maximum_change: self.detector_threshold_maximum_change,
            detector_threshold_initial: self.detector_threshold_initial,
            detector_threshold_minimum: self.detector_threshold_minimum,
            detector_threshold_maximum: self.detector_threshold_maximum,
            bin_size_pixels: self.bin_size_pixels,
        }
    }

    /// Sets the engine up for images of `width` by `height` pixels: a detector
    /// grid and an empty lattice for each side, the epipolar lines to search,
    /// and the lenient acceptance threshold. Identifiers start at 1.
    pub fn finalize(self, width: usize, height: usize) -> (result: Result<
        StereoFramePointGenerator,
        ConfigError,
    >)
        ensures
            match result {
                Ok(generator) => {
                    &&& self.verdict(width, height) is Ok
                    &&& generator.well_formed()
                    &&& self.describes(width as int, height as int, generator)
                },
                Err(error) => self.verdict(width, height) == Err::<(), ConfigError>(error),
            },
    {
        let detector_left = match self.grid_cfg().finalize(width, height) {
            Ok(generator) => generator,
            Err(error) => {
                return Err(error);
            },
        };
        let detector_right = match self.grid_cfg().finalize(width, height) {
            Ok(generator) => generator,
            Err(error) => {
                return Err(error);
            },
        };
        if self.descriptor_type != "ORB-256".to_owned() {
            return Err(ConfigError::UnknownDescriptorType);
        }
        let mut feature_matcher_left = IntensityFeatureMatcher::default();
        let mut feature_matcher_right = IntensityFeatureMatcher::default();
        match feature_matcher_left.configure(height, width) {
            Ok(()) => {},
            Err(error) => {
                return Err(error);
            },
        }
        match feature_matcher_right.configure(height, width) {
            Ok(()) => {},
            Err(error) => {
                return Err(error);
            },
        }
        let maximum = self.maximum_epipolar_search_offset_pixels;
        let mut epipolar_search_offset_pixels: Vec<i32> = Vec::new();
        epipolar_search_offset_pixels.push(0);
        let mut i: i32 = 0;
        while i < maximum
            invariant
                0 <= i,
                i <= maximum || maximum <= 0,
                maximum <= 0 ==> i == 0,
                epipolar_search_offset_pixels@.len() == 2 * i + 1,
                forall|k: int|
                    0 <= k < 2 * i + 1 ==> #[trigger] epipolar_search_offset_pixels@[k] == (if k % 2
                        == 1 {
                        (k + 1) / 2
                    } else {
                        -(k / 2)
                    }),
            decreases maximum - i,
        {
            i = i + 1;
            epipolar_search_offset_pixels.push(i);
            epipolar_search_offset_pixels.push(-i);
        }
        assert(epipolar_search_offset_pixels@ =~= search_offsets(maximum as int));
        let target_number_of_keypoints = detector_left.target_number_of_keypoints;
        Ok(
            StereoFramePointGenerator {
                detector_left,
                detector_right,
                target_number_of_keypoints,
                number_of_detected_keypoints: 0,
                descriptor_type: DescriptorType::Orb256,
                maximum_matching_distance_triangulation: self.maximum_matching_distance_triangulation,
                current_maximum_descriptor_distance_triangulation: BOOTSTRAP_DISTANCE,
                minimum_disparity_pixels: self.minimum_disparity_pixels,
                epipolar_search_distance: epipolar_search_offset_pixels,
                feature_matcher_left,
                feature_matcher_right,
                next_identifier: 1,
            },
        )
    }
}

/// The largest accepted descriptor distance for a frame, in thousandths of a
/// bit. A localizing frame gets the lenient threshold. A tracking frame gets
/// the previous threshold, scaled down by the share of the wanted keypoints
/// that was detected, and the lenient threshold at least.
pub open spec fn acceptance_threshold(status: FrameStatus, previous: int, detected: int, target: int) -> int {
    match status {
        FrameStatus::Localizing => BOOTSTRAP_DISTANCE as int,
        FrameStatus::Tracking => {
            let scaled = if detected >= target || target <= 0 {
                previous
            } else {
                (previous * detected) / target
            };
            if scaled < BOOTSTRAP_DISTANCE {
                BOOTSTRAP_DISTANCE as int
            } else {
                scaled
            }
        },
    }
}

/// The mean of two counts, rounded down.
pub open spec fn mean_count(a: int, b: int) -> int {
    (a + b) / 2
}

/// The correspondences among the first `n` pairs of `left` and `right` whose
/// disparity is at least `minimum_disparity`, numbered from `first_identifier` on.
pub open spec fn accepted_points(
    left: Seq<Rc<IntensityFeature>>,
    right: Seq<Rc<IntensityFeature>>,
    minimum_disparity: int,
    first_identifier: int,
    n: nat,
) -> Seq<StereoFramepoint>
    decreases n,
{
    if n == 0 {
        Seq::empty()
    } else {
        let earlier = accepted_points(left, right, minimum_disparity, first_identifier, (n - 1) as nat);
        if disparity((*left[n - 1]).keypoint, (*right[n - 1]).keypoint) < minimum_disparity {
            earlier
        } else {
            earlier.push(
                StereoFramepoint::spec_of_features(
                    *left[n - 1],
                    *right[n - 1],
                    (first_identifier + earlier.len()) as u64,
                ),
            )
        }
    }
}

/// What a search has reached: the features not yet paired on each side, and
/// the correspondences found.
pub struct SearchState {
    pub left: Seq<Rc<IntensityFeature>>,
    pub right: Seq<Rc<IntensityFeature>>,
    pub points: Seq<StereoFramepoint>,
}

/// The state after one more pass, along the epipolar line `offset`: both
/// lists are sorted and paired greedily, the paired features leave the lists,
/// and the pairs with enough disparity become correspondences.
pub open spec fn search_pass(
    state: SearchState,
    offset: int,
    max_distance: int,
    minimum_disparity: int,
    first_identifier: int,
) -> SearchState {
    let left = sorted_features(state.left);
    let right = sorted_features(state.right);
    let matches = greedy_matches(left, right, offset, max_distance);
    SearchState {
        left: pruned(left, left_indices(matches)),
        right: pruned(right, right_indices(matches)),
        points: state.points + accepted_points(
            left_features(left, matches),
            right_features(right, matches),
            minimum_disparity,
            first_identifier + state.points.len(),
            matches.len(),
        ),
    }
}

/// The state after the passes along the first `n` of the epipolar lines `offsets`.
pub open spec fn search(
    state: SearchState,
    offsets: Seq<i32>,
    max_distance: int,
    minimum_disparity: int,
    first_identifier: int,
    n: nat,
) -> SearchState
    decreases n,
{
    if n == 0 {
        state
    } else {
        search_pass(
            search(state, offsets, max_distance, minimum_disparity, first_identifier, (n - 1) as nat),
            offsets[n - 1] as int,
            max_distance,
            minimum_disparity,
            first_identifier,
        )
    }
}

/// No more correspondences are accepted than there are pairs.
pub proof fn lemma_accepted_points_len(
    left: Seq<Rc<IntensityFeature>>,
    right: Seq<Rc<IntensityFeature>>,
    minimum_disparity: int,
    first_identifier: int,
    n: nat,
)
    ensures
        accepted_points(left, right, minimum_disparity, first_identifier, n).len() <= n,
    decreases n,
{
    if n > 0 {
        lemma_accepted_points_len(left, right, minimum_disparity, first_identifier, (n - 1) as nat);
    }
}

/// Adds to `points` the correspondences of the pairs of `left` and `right`
/// whose disparity is at least `minimum_disparity`, numbered from
/// `next_identifier` on, and returns the next free identifier.
fn collect_points(
    left: &Vec<Rc<IntensityFeature>>,
    right: &Vec<Rc<IntensityFeature>>,
    minimum_disparity: i64,
    next_identifier: u64,
    points: &mut Vec<StereoFramepoint>,
) -> (next: u64)
    requires
        left@.len() == right@.len(),
        next_identifier + left@.len() <= u64::MAX,
    ensures
        final(points)@ == old(points)@ + accepted_points(
            left@,
            right@,
            minimum_disparity as int,
            next_identifier as int,
            left@.len(),
        ),
        next == next_identifier + (final(points)@.len() - old(points)@.len()),
{
    let ghost found = points@;
    let mut next = next_identifier;
    let mut k: usize = 0;
    while k < left.len()
        invariant
            k <= left@.len(),
            left@.len() == right@.len(),
            next_identifier + left@.len() <= u64::MAX,
            points@ == found + accepted_points(
                left@,
                right@,
                minimum_disparity as int,
                next_identifier as int,
                k as nat,
            ),
            next == next_identifier + accepted_points(
                left@,
                right@,
                minimum_disparity as int,
                next_identifier as int,
                k as nat,
            ).len(),
            next <= next_identifier + k,
        decreases left@.len() - k,
    {
        let feature_left = left[k].clone();
        let feature_right = right[k].clone();
        let disparity: i64 = feature_left.keypoint.x as i64 - feature_right.keypoint.x as i64;
        if disparity >= minimum_disparity {
            let point = StereoFramepoint::new_with_intensity_feature(
                &feature_left,
                &feature_right,
                next,
            );
            points.push(point);
            next = next + 1;
        }
        k = k + 1;
    }
    next
}

/// The next largest accepted descriptor distance.
fn next_acceptance_threshold(status: FrameStatus, previous: u64, detected: usize, target: u64) -> (next:
    u64)
    ensures
        next == acceptance_threshold(status, previous as int, detected as int, target as int),
{
    match status {
        FrameStatus::Localizing => BOOTSTRAP_DISTANCE,
        FrameStatus::Tracking => {
            let scaled: u64 = if detected as u64 >= target || target == 0 {
                previous
            } else {
                assert(previous * detected <= 0xffff_ffff_ffff_ffff * 0xffff_ffff_ffff_ffff)
                    by (nonlinear_arith)
                    requires
                        0 <= previous <= 0xffff_ffff_ffff_ffff,
                        0 <= detected <= 0xffff_ffff_ffff_ffff,
                ;
                let product: u128 = previous as u128 * detected as u128;
                let quotient: u128 = product / target as u128;
                assert(quotient <= previous) by {
                    assert(previous * detected <= previous * target) by (nonlinear_arith)
                        requires
                            0 <= previous,
                            0 <= detected < target,
                    ;
                    vstd::arithmetic::div_mod::lemma_div_is_ordered(
                        previous * detected,
                        previous * target,
                        target as int,
                    );
                    vstd::arithmetic::div_mod::lemma_div_multiples_vanish(
                        previous as int,
                        target as int,
                    );
                    assert(previous * target == target * previous) by (nonlinear_arith);
                }
                quotient as u64
            };
            if scaled < BOOTSTRAP_DISTANCE {
                BOOTSTRAP_DISTANCE
            } else {
                scaled
            }
        },
    }
}

impl StereoFramePointGenerator {
    /// Whether `self` has the settings of `before`: what is fixed when the
    /// engine is set up.
    pub open spec fn same_configuration(&self, before: &StereoFramePointGenerator) -> bool {
        &&& self.target_number_of_keypoints == before.target_number_of_keypoints
        &&& self.descriptor_type == before.descriptor_type
        &&& self.maximum_matching_distance_triangulation
            == before.maximum_matching_distance_triangulation
        &&& self.minimum_disparity_pixels == before.minimum_disparity_pixels
        &&& self.epipolar_search_distance == before.epipolar_search_distance
        &&& self.feature_matcher_left.number_of_rows == before.feature_matcher_left.number_of_rows
        &&& self.feature_matcher_left.number_of_cols == before.feature_matcher_left.number_of_cols
        &&& self.feature_matcher_right.number_of_rows == before.feature_matcher_right.number_of_rows
        &&& self.feature_matcher_right.number_of_cols == before.feature_matcher_right.number_of_cols
    }

    /// Whether `self` has the detectors of `before`, and its count of keypoints.
    pub open spec fn same_detectors(&self, before: &StereoFramePointGenerator) -> bool {
        &&& self.detector_left == before.detector_left
        &&& self.detector_right == before.detector_right
        &&& self.number_of_detected_keypoints == before.number_of_detected_keypoints
    }

    /// Whether the grids of the lattices of `self` hold what those of `before` hold.
    pub open spec fn same_lattices(&self, before: &StereoFramePointGenerator) -> bool {
        &&& self.feature_matcher_left.feature_lattice == before.feature_matcher_left.feature_lattice
        &&& self.feature_matcher_right.feature_lattice
            == before.feature_matcher_right.feature_lattice
    }

    /// What [`StereoFramePointGenerator::detect_keypoints`] answers to the
    /// detections of both sides.
    pub open spec fn detections_verdict(
        &self,
        detections_left: Seq<Vec<Vec<Keypoint>>>,
        detections_right: Seq<Vec<Vec<Keypoint>>>,
    ) -> Result<(), DetectionError> {
        if self.detector_left.detections_verdict(detections_left) is Err {
            self.detector_left.detections_verdict(detections_left)
        } else {
            self.detector_right.detections_verdict(detections_right)
        }
    }

    /// Takes what the detectors found in the left and in the right image of
    /// `frame`, region by region. The frame gets each side's keypoints in image
    /// coordinates and the mean of the two counts. Each side's controller
    /// decides on the next thresholds, and the detectors get them at once.
    /// Detections that cannot be taken leave the engine and the frame as they were.
    pub fn detect_keypoints(
        &mut self,
        frame: &mut Frame,
        detections_left: &Vec<Vec<Vec<Keypoint>>>,
        detections_right: &Vec<Vec<Vec<Keypoint>>>,
    ) -> (result: Result<(), DetectionError>)
        requires
            old(self).well_formed(),
        ensures
            result == old(self).detections_verdict(detections_left@, detections_right@),
            result is Err ==> *final(self) == *old(self) && *final(frame) == *old(frame),
            result is Ok ==> {
                &&& final(self).well_formed()
                &&& final(self).same_configuration(old(self))
                &&& final(self).feature_matcher_left == old(self).feature_matcher_left
                &&& final(self).feature_matcher_right == old(self).feature_matcher_right
                &&& final(self).current_maximum_descriptor_distance_triangulation == old(self).current_maximum_descriptor_distance_triangulation
                &&& final(self).next_identifier == old(self).next_identifier
                &&& final(self).detector_left.same_settings(&old(self).detector_left)
                &&& final(self).detector_right.same_settings(&old(self).detector_right)
                &&& forall|r: int, c: int|
                    0 <= r < old(self).detector_left.detectors@.len() && 0 <= c < old(self).detector_left.columns() ==> #[trigger] final(self).detector_left.detectors@[r]@[c]
                        == old(self).detector_left.adapted_region(
                        old(self).detector_left.detectors@[r]@[c],
                        detections_left@[r]@[c]@.len(),
                    ).handed_over()
                &&& forall|r: int, c: int|
                    0 <= r < old(self).detector_right.detectors@.len() && 0 <= c < old(self).detector_right.columns() ==> #[trigger] final(self).detector_right.detectors@[r]@[c] == old(self).detector_right.adapted_region(
                        old(self).detector_right.detectors@[r]@[c],
                        detections_right@[r]@[c]@.len(),
                    ).handed_over()
                &&& final(frame).keypoints_left@ == grid_keypoints(
                    detections_left@,
                    old(self).detector_left.detectors@,
                    old(self).detector_left.detectors@.len(),
                )
                &&& final(frame).keypoints_right@ == grid_keypoints(
                    detections_right@,
                    old(self).detector_right.detectors@,
                    old(self).detector_right.detectors@.len(),
                )
                &&& final(self).number_of_detected_keypoints == mean_count(
                    final(frame).keypoints_left@.len() as int,
                    final(frame).keypoints_right@.len() as int,
                )
                &&& final(frame).number_of_detected_keypoints == final(self).number_of_detected_keypoints
                &&& final(frame).descriptors_left == old(frame).descriptors_left
                &&& final(frame).descriptors_right == old(frame).descriptors_right
                &&& final(frame).intensity_image_left == old(frame).intensity_image_left
                &&& final(frame).intensity_image_right == old(frame).intensity_image_right
                &&& final(frame).status == old(frame).status
            },
    {
        match self.detector_left.check_detections(detections_left) {
            Err(error) => {
                return Err(error);
            },
            Ok(()) => {},
        }
        match self.detector_right.check_detections(detections_right) {
            Err(error) => {
                return Err(error);
            },
            Ok(()) => {},
        }
        let keypoints_left = match self.detector_left.detect_keypoints(detections_left) {
            Ok(key_points) => key_points,
            Err(error) => {
                return Err(error);
            },
        };
        let keypoints_right = match self.detector_right.detect_keypoints(detections_right) {
            Ok(key_points) => key_points,
            Err(error) => {
                return Err(error);
            },
        };
        self.adjust_detector_thresholds();
        let left = keypoints_left.len();
        let right = keypoints_right.len();
        self.number_of_detected_keypoints = left / 2 + right / 2 + (left % 2 + right % 2) / 2;
        frame.keypoints_left = keypoints_left;
        frame.keypoints_right = keypoints_right;
        frame.number_of_detected_keypoints = self.number_of_detected_keypoints;
        Ok(())
    }

    /// Hands every detector of both sides the threshold that its controller
    /// decided on.
    pub fn adjust_detector_thresholds(&mut self)
        requires
            old(self).well_formed(),
        ensures
            final(self).well_formed(),
            final(self).same_configuration(old(self)),
            final(self).feature_matcher_left == old(self).feature_matcher_left,
            final(self).feature_matcher_right == old(self).feature_matcher_right,
            final(self).current_maximum_descriptor_distance_triangulation == old(self).current_maximum_descriptor_distance_triangulation,
            final(self).next_identifier == old(self).next_identifier,
            final(self).number_of_detected_keypoints == old(self).number_of_detected_keypoints,
            final(self).detector_left.same_settings(&old(self).detector_left),
            final(self).detector_right.same_settings(&old(self).detector_right),
            forall|r: int, c: int|
                0 <= r < old(self).detector_left.detectors@.len() && 0 <= c < old(self).detector_left.columns() ==> #[trigger] final(self).detector_left.detectors@[r]@[c]
                    == old(self).detector_left.detectors@[r]@[c].handed_over(),
            forall|r: int, c: int|
                0 <= r < old(self).detector_right.detectors@.len() && 0 <= c < old(self).detector_right.columns() ==> #[trigger] final(self).detector_right.detectors@[r]@[c]
                    == old(self).detector_right.detectors@[r]@[c].handed_over(),
    {
        self.detector_left.adjust_detector_thresholds();
        self.detector_right.adjust_detector_thresholds();
    }

    /// What [`StereoFramePointGenerator::initialize`] answers to the features
    /// of `frame`.
    pub open spec fn features_verdict(&self, frame: &Frame) -> Result<(), FeatureError> {
        if self.feature_matcher_left.features_verdict(
            frame.keypoints_left@,
            frame.descriptors_left@,
        ) is Err {
            self.feature_matcher_left.features_verdict(frame.keypoints_left@, frame.descriptors_left@)
        } else {
            self.feature_matcher_right.features_verdict(
                frame.keypoints_right@,
                frame.descriptors_right@,
            )
        }
    }

    /// Loads the keypoints and descriptors of `frame` into the lattices, the
    /// left ones into the left lattice and the right ones into the right.
    /// Where the features were extracted anew (`extract_features`), the largest
    /// accepted descriptor distance follows the frame's status first. Features
    /// that cannot be loaded leave the engine as it was.
    pub fn initialize(&mut self, frame: &Frame, extract_features: bool) -> (result: Result<
        (),
        FeatureError,
    >)
        requires
            old(self).well_formed(),
        ensures
            result == old(self).features_verdict(frame),
            result is Err ==> *final(self) == *old(self),
            result is Ok ==> {
                &&& final(self).well_formed()
                &&& final(self).same_configuration(old(self))
                &&& final(self).same_detectors(old(self))
                &&& final(self).next_identifier == old(self).next_identifier
                &&& final(self).current_maximum_descriptor_distance_triangulation
                    == if extract_features {
                    acceptance_threshold(
                        frame.status,
                        old(self).current_maximum_descriptor_distance_triangulation as int,
                        old(self).number_of_detected_keypoints as int,
                        old(self).target_number_of_keypoints as int,
                    )
                } else {
                    old(self).current_maximum_descriptor_distance_triangulation as int
                }
                &&& final(self).feature_matcher_left.holds(
                    frame.keypoints_left@,
                    frame.descriptors_left@,
                )
                &&& final(self).feature_matcher_right.holds(
                    frame.keypoints_right@,
                    frame.descriptors_right@,
                )
            },
    {
        match self.feature_matcher_left.check_features(&frame.keypoints_left, &frame.descriptors_left) {
            Err(error) => {
                return Err(error);
            },
            Ok(()) => {},
        }
        match self.feature_matcher_right.check_features(
            &frame.keypoints_right,
            &frame.descriptors_right,
        ) {
            Err(error) => {
                return Err(error);
            },
            Ok(()) => {},
        }
        if extract_features {
            self.current_maximum_descriptor_distance_triangulation = next_acceptance_threshold(
                frame.status,
                self.current_maximum_descriptor_distance_triangulation,
                self.number_of_detected_keypoints,
                self.target_number_of_keypoints,
            );
        }
        match self.feature_matcher_left.set_fatures(&frame.keypoints_left, &frame.descriptors_left) {
            Err(error) => {
                return Err(error);
            },
            Ok(()) => {},
        }
        self.feature_matcher_right.set_fatures(&frame.keypoints_right, &frame.descriptors_right)
    }
}

impl StereoFramePointGenerator {
    /// Executable form of [`StereoFramePointGenerator::well_formed`], for
    /// callers that have changed the engine by hand.
    pub fn is_well_formed(&self) -> (b: bool)
        ensures
            b == self.well_formed(),
    {
        self.detector_left.is_well_formed() && self.detector_right.is_well_formed()
            && self.feature_matcher_left.is_well_formed()
            && self.feature_matcher_right.is_well_formed()
    }

    /// The left features in the order of the search.
    pub open spec fn sorted_left(&self) -> Seq<Rc<IntensityFeature>> {
        sorted_features(self.feature_matcher_left.feature_vector@)
    }

    /// The right features in the order of the search.
    pub open spec fn sorted_right(&self) -> Seq<Rc<IntensityFeature>> {
        sorted_features(self.feature_matcher_right.feature_vector@)
    }

    /// The pairs of indices into [`StereoFramePointGenerator::sorted_left`] and
    /// [`StereoFramePointGenerator::sorted_right`] that a pass along the
    /// epipolar line `offset` accepts.
    pub open spec fn pass_matches(&self, offset: int) -> Seq<(usize, usize)> {
        greedy_matches(
            self.sorted_left(),
            self.sorted_right(),
            offset,
            self.current_maximum_descriptor_distance_triangulation as int,
        )
    }

    /// Whether `self` is `before` after a pass along the epipolar line
    /// `offset`: the paired features have left the flat lists, which are
    /// sorted, and nothing else has changed but, maybe, the next identifier.
    pub open spec fn follows_pass(&self, before: &StereoFramePointGenerator, offset: int) -> bool {
        &&& self.feature_matcher_left.feature_vector@ == pruned(
            before.sorted_left(),
            left_indices(before.pass_matches(offset)),
        )
        &&& self.feature_matcher_right.feature_vector@ == pruned(
            before.sorted_right(),
            right_indices(before.pass_matches(offset)),
        )
        &&& self.same_configuration(before)
        &&& self.same_detectors(before)
        &&& self.same_lattices(before)
        &&& self.current_maximum_descriptor_distance_triangulation
            == before.current_maximum_descriptor_distance_triangulation
    }

    /// One pass of the search along the epipolar line `epipolar_offset`.
    /// Returns the paired features, left and right, pair by pair.
    fn match_pass(&mut self, epipolar_offset: i32) -> (matched: (
        Vec<Rc<IntensityFeature>>,
        Vec<Rc<IntensityFeature>>,
    ))
        ensures
            matched.0@ == left_features(
                old(self).sorted_left(),
                old(self).pass_matches(epipolar_offset as int),
            ),
            matched.1@ == right_features(
                old(self).sorted_right(),
                old(self).pass_matches(epipolar_offset as int),
            ),
            final(self).follows_pass(old(self), epipolar_offset as int),
            final(self).next_identifier == old(self).next_identifier,
            final(self).feature_matcher_left.feature_vector@.len() + matched.0@.len() == old(
                self,
            ).feature_matcher_left.feature_vector@.len(),
    {
        self.feature_matcher_left.sort_feature_vector();
        self.feature_matcher_right.sort_feature_vector();
        let ghost left = self.feature_matcher_left.feature_vector@;
        let ghost right = self.feature_matcher_right.feature_vector@;
        let ghost max_distance = self.current_maximum_descriptor_distance_triangulation as int;
        proof {
            assert(left.len() == self.feature_matcher_left.feature_vector.len());
            assert(right.len() == self.feature_matcher_right.feature_vector.len());
            lemma_sorted_features_sorted(old(self).feature_matcher_left.feature_vector@);
            lemma_sorted_features_sorted(old(self).feature_matcher_right.feature_vector@);
            lemma_sorted_features_len(old(self).feature_matcher_left.feature_vector@);
            lemma_sorted_features_len(old(self).feature_matcher_right.feature_vector@);
        }
        let pairs = match_features(
            &self.feature_matcher_left.feature_vector,
            &self.feature_matcher_right.feature_vector,
            epipolar_offset,
            self.current_maximum_descriptor_distance_triangulation,
        );
        proof {
            lemma_greedy_prefix_valid(left, right, epipolar_offset as int, max_distance, left.len());
        }
        let mut matched_indices_left = BTreeSet::<usize>::new();
        let mut matched_indices_right = BTreeSet::<usize>::new();
        let mut features_left: Vec<Rc<IntensityFeature>> = Vec::new();
        let mut features_right: Vec<Rc<IntensityFeature>> = Vec::new();
        let mut k: usize = 0;
        assert(matched_indices_left@ =~= left_indices_upto(pairs@, 0));
        assert(matched_indices_right@ =~= right_indices_upto(pairs@, 0));
        while k < pairs.len()
            invariant
                k <= pairs.len(),
                left == self.feature_matcher_left.feature_vector@,
                right == self.feature_matcher_right.feature_vector@,
                forall|i: int|
                    0 <= i < pairs@.len() ==> (#[trigger] pairs@[i]).0 < left.len() && pairs@[i].1
                        < right.len(),
                matched_indices_left@ == left_indices_upto(pairs@, k as int),
                matched_indices_right@ == right_indices_upto(pairs@, k as int),
                features_left@.len() == k,
                features_right@.len() == k,
                forall|i: int| 0 <= i < k ==> #[trigger] features_left@[i] == left[pairs@[i].0 as int],
                forall|i: int|
                    0 <= i < k ==> #[trigger] features_right@[i] == right[pairs@[i].1 as int],
            decreases pairs.len() - k,
        {
            let pair = pairs[k];
            assert(pairs@[k as int].0 < left.len());
            proof {
                lemma_indices_grow(pairs@, k as int);
            }
            matched_indices_left.insert(pair.0);
            matched_indices_right.insert(pair.1);
            features_left.push(self.feature_matcher_left.feature_vector[pair.0].clone());
            features_right.push(self.feature_matcher_right.feature_vector[pair.1].clone());
            k = k + 1;
        }
        self.feature_matcher_left.prune(&matched_indices_left);
        self.feature_matcher_right.prune(&matched_indices_right);
        proof {
            assert(features_left@ =~= left_features(left, pairs@));
            assert(features_right@ =~= right_features(right, pairs@));
            lemma_indices_count(
                left,
                right,
                epipolar_offset as int,
                max_distance,
                pairs@,
                pairs@.len() as int,
            );
            lemma_pruned(left, left_indices(pairs@));
        }
        (features_left, features_right)
    }

    /// Searches the epipolar line `epipolar_offset` rows away for pairs of a
    /// left and a right feature. Both flat lists are sorted; each left feature
    /// in turn takes, among the right features behind the last one taken that
    /// lie on its line and not to its right, the one at the least descriptor
    /// distance, if that is below the largest accepted distance. Returns the
    /// keypoints of the pairs, left and right, in the order of the lists. The
    /// paired features leave the flat lists.
    pub fn get_epipolar_matches(&mut self, _frame: &Frame, epipolar_offset: i32) -> (matches: (
        Vec<Keypoint>,
        Vec<Keypoint>,
    ))
        ensures
            matches.0@ == keypoints_of(
                left_features(old(self).sorted_left(), old(self).pass_matches(epipolar_offset as int)),
            ),
            matches.1@ == keypoints_of(
                right_features(
                    old(self).sorted_right(),
                    old(self).pass_matches(epipolar_offset as int),
                ),
            ),
            final(self).follows_pass(old(self), epipolar_offset as int),
            final(self).next_identifier == old(self).next_identifier,
    {
        let (features_left, features_right) = self.match_pass(epipolar_offset);
        let mut left_key_points: Vec<Keypoint> = Vec::new();
        let mut right_key_points: Vec<Keypoint> = Vec::new();
        let mut k: usize = 0;
        while k < features_left.len()
            invariant
                k <= features_left@.len(),
                features_left@.len() == features_right@.len(),
                left_key_points@.len() == k,
                right_key_points@.len() == k,
                forall|i: int|
                    0 <= i < k ==> #[trigger] left_key_points@[i] == (*features_left@[i]).keypoint,
                forall|i: int|
                    0 <= i < k ==> #[trigger] right_key_points@[i] == (*features_right@[i]).keypoint,
            decreases features_left@.len() - k,
        {
            left_key_points.push(features_left[k].keypoint);
            right_key_points.push(features_right[k].keypoint);
            k = k + 1;
        }
        assert(left_key_points@ =~= keypoints_of(features_left@));
        assert(right_key_points@ =~= keypoints_of(features_right@));
        (left_key_points, right_key_points)
    }

    /// The state that a search starts from.
    pub open spec fn search_state(&self) -> SearchState {
        SearchState {
            left: self.feature_matcher_left.feature_vector@,
            right: self.feature_matcher_right.feature_vector@,
            points: Seq::empty(),
        }
    }

    /// The state that the search along all epipolar lines ends in.
    pub open spec fn searched(&self) -> SearchState {
        search(
            self.search_state(),
            self.epipolar_search_distance@,
            self.current_maximum_descriptor_distance_triangulation as int,
            self.minimum_disparity_pixels as int,
            self.next_identifier as int,
            self.epipolar_search_distance@.len(),
        )
    }

    /// Whether there are identifiers for as many correspondences as there are
    /// left features.
    pub open spec fn has_identifiers(&self) -> bool {
        self.next_identifier + self.feature_matcher_left.feature_vector@.len() <= u64::MAX
    }

    /// Searches the epipolar lines, one after the other in their order, for
    /// pairs of a left and a right feature, and returns the correspondences:
    /// the pairs whose disparity is at least the minimum, in the order they
    /// were found, each under the next free identifier. A pair with less
    /// disparity is dropped; its features are not searched again.
    pub fn compute_frame_point(&mut self, _frame: &Frame) -> (result: Result<
        Vec<StereoFramepoint>,
        FramePointError,
    >)
        ensures
            result is Ok <==> old(self).has_identifiers(),
            result is Err ==> *final(self) == *old(self),
            match result {
                Ok(points) => {
                    &&& points@ == old(self).searched().points
                    &&& final(self).feature_matcher_left.feature_vector@ == old(self).searched().left
                    &&& final(self).feature_matcher_right.feature_vector@ == old(
                        self,
                    ).searched().right
                    &&& final(self).next_identifier == old(self).next_identifier + points@.len()
                    &&& final(self).same_configuration(old(self))
                    &&& final(self).same_detectors(old(self))
                    &&& final(self).same_lattices(old(self))
                    &&& final(self).current_maximum_descriptor_distance_triangulation == old(
                        self,
                    ).current_maximum_descriptor_distance_triangulation
                },
                Err(error) => error == FramePointError::IdentifiersExhausted,
            },
    {
        let count = self.feature_matcher_left.feature_vector.len();
        if self.next_identifier > u64::MAX - count as u64 {
            return Err(FramePointError::IdentifiersExhausted);
        }
        let ghost start = old(self).search_state();
        let ghost offsets = self.epipolar_search_distance@;
        let ghost max_distance = self.current_maximum_descriptor_distance_triangulation as int;
        let ghost minimum = self.minimum_disparity_pixels as int;
        let ghost first = self.next_identifier as int;
        let mut points: Vec<StereoFramepoint> = Vec::new();
        let mut pass: usize = 0;
        while pass < self.epipolar_search_distance.len()
            invariant
                pass <= offsets.len(),
                offsets == self.epipolar_search_distance@,
                max_distance == self.current_maximum_descriptor_distance_triangulation,
                minimum == self.minimum_disparity_pixels,
                first == old(self).next_identifier,
                self.next_identifier == first + points@.len(),
                self.next_identifier + self.feature_matcher_left.feature_vector@.len() <= u64::MAX,
                search(start, offsets, max_distance, minimum, first, pass as nat) == (SearchState {
                    left: self.feature_matcher_left.feature_vector@,
                    right: self.feature_matcher_right.feature_vector@,
                    points: points@,
                }),
                self.same_configuration(old(self)),
                self.same_detectors(old(self)),
                self.same_lattices(old(self)),
            decreases offsets.len() - pass,
        {
            let epipolar_offset = self.epipolar_search_distance[pass];
            let ghost found = points@;
            let (features_left, features_right) = self.match_pass(epipolar_offset);
            proof {
                lemma_accepted_points_len(
                    features_left@,
                    features_right@,
                    minimum,
                    first + found.len(),
                    features_left@.len(),
                );
            }
            self.next_identifier = collect_points(
                &features_left,
                &features_right,
                self.minimum_disparity_pixels,
                self.next_identifier,
                &mut points,
            );
            pass = pass + 1;
        }
        Ok(points)
    }
}

/// The correspondences accepted among pairs carry the identifiers from
/// `first_identifier` on, one after the other, and each has the disparity of
/// its keypoints, which is at least `minimum_disparity`.
pub proof fn lemma_accepted_points(
    left: Seq<Rc<IntensityFeature>>,
    right: Seq<Rc<IntensityFeature>>,
    minimum_disparity: int,
    first_identifier: int,
    n: nat,
)
    requires
        0 <= first_identifier,
        first_identifier + n <= u64::MAX,
    ensures
        accepted_points(left, right, minimum_disparity, first_identifier, n).len() <= n,
        forall|k: int|
            0 <= k < accepted_points(left, right, minimum_disparity, first_identifier, n).len() ==> {
                let point = #[trigger] accepted_points(
                    left,
                    right,
                    minimum_disparity,
                    first_identifier,
                    n,
                )[k];
                &&& point.identifier == first_identifier + k
                &&& point.disparity_pixels == disparity(point.keypoint_left, point.keypoint_right)
                &&& point.disparity_pixels >= minimum_disparity
            },
    decreases n,
{
    if n > 0 {
        lemma_accepted_points(left, right, minimum_disparity, first_identifier, (n - 1) as nat);
    }
}

/// A search neither makes features nor loses any without a pair: after any
/// number of passes there are at most as many left features and
/// correspondences together as before.
pub proof fn lemma_search_budget(
    state: SearchState,
    offsets: Seq<i32>,
    max_distance: int,
    minimum_disparity: int,
    first_identifier: int,
    n: nat,
)
    requires
        state.left.len() <= usize::MAX,
        state.right.len() <= usize::MAX,
    ensures
        ({
            let end = search(state, offsets, max_distance, minimum_disparity, first_identifier, n);
            &&& end.left.len() <= state.left.len()
            &&& end.right.len() <= state.right.len()
            &&& state.points.len() <= end.points.len()
            &&& end.points.len() + end.left.len() <= state.points.len() + state.left.len()
        }),
    decreases n,
{
    if n > 0 {
        let before = search(
            state,
            offsets,
            max_distance,
            minimum_disparity,
            first_identifier,
            (n - 1) as nat,
        );
        lemma_search_budget(
            state,
            offsets,
            max_distance,
            minimum_disparity,
            first_identifier,
            (n - 1) as nat,
        );
        let offset = offsets[n - 1] as int;
        let left = sorted_features(before.left);
        let right = sorted_features(before.right);
        lemma_sorted_features_len(before.left);
        lemma_sorted_features_len(before.right);
        let matches = greedy_matches(left, right, offset, max_distance);
        lemma_greedy_prefix_valid(left, right, offset, max_distance, left.len());
        lemma_indices_count(left, right, offset, max_distance, matches, matches.len() as int);
        lemma_pruned(left, left_indices(matches));
        lemma_pruned(right, right_indices(matches));
        lemma_accepted_points_len(
            left_features(left, matches),
            right_features(right, matches),
            minimum_disparity,
            first_identifier + before.points.len(),
            matches.len(),
        );
    }
}

/// The correspondences of a search are numbered in the order they are found:
/// where there are identifiers for as many correspondences as there are left
/// features, the correspondences carry the identifiers from `first_identifier`
/// on, one after the other, and each has at least the minimum disparity.
pub proof fn lemma_search_numbers_points(
    left: Seq<Rc<IntensityFeature>>,
    right: Seq<Rc<IntensityFeature>>,
    offsets: Seq<i32>,
    max_distance: int,
    minimum_disparity: int,
    first_identifier: int,
    n: nat,
)
    requires
        left.len() <= usize::MAX,
        right.len() <= usize::MAX,
        0 <= first_identifier,
        first_identifier + left.len() <= u64::MAX,
    ensures
        ({
            let end = search(
                SearchState { left, right, points: Seq::empty() },
                offsets,
                max_distance,
                minimum_disparity,
                first_identifier,
                n,
            );
            forall|k: int|
                0 <= k < end.points.len() ==> {
                    let point = #[trigger] end.points[k];
                    &&& point.identifier == first_identifier + k
                    &&& point.disparity_pixels == disparity(point.keypoint_left, point.keypoint_right)
                    &&& point.disparity_pixels >= minimum_disparity
                }
        }),
    decreases n,
{
    if n > 0 {
        let state = SearchState { left, right, points: Seq::empty() };
        let before = search(
            state,
            offsets,
            max_distance,
            minimum_disparity,
            first_identifier,
            (n - 1) as nat,
        );
        lemma_search_numbers_points(
            left,
            right,
            offsets,
            max_distance,
            minimum_disparity,
            first_identifier,
            (n - 1) as nat,
        );
        lemma_search_budget(
            state,
            offsets,
            max_distance,
            minimum_disparity,
            first_identifier,
            (n - 1) as nat,
        );
        let offset = offsets[n - 1] as int;
        let sorted_left = sorted_features(before.left);
        let sorted_right = sorted_features(before.right);
        lemma_sorted_features_len(before.left);
        lemma_sorted_features_len(before.right);
        let matches = greedy_matches(sorted_left, sorted_right, offset, max_distance);
        lemma_greedy_prefix_valid(sorted_left, sorted_right, offset, max_distance, sorted_left.len());
        let found = accepted_points(
            left_features(sorted_left, matches),
            right_features(sorted_right, matches),
            minimum_disparity,
            first_identifier + before.points.len(),
            matches.len(),
        );
        lemma_accepted_points(
            left_features(sorted_left, matches),
            right_features(sorted_right, matches),
            minimum_disparity,
            first_identifier + before.points.len(),
            matches.len(),
        );
        let end = search(state, offsets, max_distance, minimum_disparity, first_identifier, n);
        assert(end.points == before.points + found);
        assert forall|k: int| 0 <= k < end.points.len() implies {
            let point = #[trigger] end.points[k];
            &&& point.identifier == first_identifier + k
            &&& point.disparity_pixels == disparity(point.keypoint_left, point.keypoint_right)
            &&& point.disparity_pixels >= minimum_disparity
        } by {
            if k < before.points.len() {
                assert(end.points[k] == before.points[k]);
            } else {
                assert(end.points[k] == found[k - before.points.len()]);
            }
        }
    }
}

/// Two engines whose lattices were loaded with the same features, and which
/// have the same epipolar lines, largest accepted distance, minimum disparity
/// and next identifier, find the same correspondences in the same order, and
/// are left with the same features.
pub proof fn lemma_search_is_deterministic(
    first: StereoFramePointGenerator,
    second: StereoFramePointGenerator,
    keypoints_left: Seq<Keypoint>,
    descriptors_left: Seq<Descriptor>,
    keypoints_right: Seq<Keypoint>,
    descriptors_right: Seq<Descriptor>,
)
    requires
        first.feature_matcher_left.holds(keypoints_left, descriptors_left),
        second.feature_matcher_left.holds(keypoints_left, descriptors_left),
        first.feature_matcher_right.holds(keypoints_right, descriptors_right),
        second.feature_matcher_right.holds(keypoints_right, descriptors_right),
        first.epipolar_search_distance@ == second.epipolar_search_distance@,
        first.current_maximum_descriptor_distance_triangulation
            == second.current_maximum_descriptor_distance_triangulation,
        first.minimum_disparity_pixels == second.minimum_disparity_pixels,
        first.next_identifier == second.next_identifier,
    ensures
        first.searched() == second.searched(),
{
    assert(first.feature_matcher_left.feature_vector@
        =~= second.feature_matcher_left.feature_vector@);
    assert(first.feature_matcher_right.feature_vector@
        =~= second.feature_matcher_right.feature_vector@);
}

} // verus!
