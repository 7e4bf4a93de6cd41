//! The detector grid: an image is divided into a grid of regions, each with a
//! detector threshold of its own that follows the number of keypoints found in
//! the region.
//!
//! Detection itself is done by the caller. The grid says which regions to
//! search with which thresholds, takes what was found in each, and answers
//! with the keypoints in image coordinates and the thresholds to use next.

use crate::error::{ConfigError, DetectionError};
use crate::keypoint::{Keypoint, MAX_EXTENT, SUBPIXEL};
use crate::threshold::{adapt_threshold, adapted_threshold, lemma_threshold_response};
use vstd::prelude::*;

verus! {

/// The options of a detector grid. Tolerance and maximum change are in
/// thousandths; the thresholds are whole numbers, as the detectors take them.
#[derive(Clone, Copy, Debug, PartialEq, Eq, Structural)]
pub struct FramePointGeneratorCfg {
    /// Rows of the grid of detectors.
    pub number_of_detectors_vertical: usize,
    /// Columns of the grid of detectors.
    pub number_of_detectors_horizontal: usize,
    /// How far, in thousandths of the target, a count may be off the target
    /// before the threshold moves.
    pub target_number_of_keypoints_tolerance: u32,
    /// The step of the controller, in thousandths of the threshold.
    pub detector_threshold_maximum_change: u32,
    /// A threshold to start other detectors with; the grid's own start with
    /// the smallest threshold.
    pub detector_threshold_initial: u32,
    /// The smallest threshold.
    pub detector_threshold_minimum: u32,
    /// The largest threshold.
    pub detector_threshold_maximum: u32,
    /// The side of a bin, in pixels: one keypoint is wanted for each bin.
    pub bin_size_pixels: usize,
}

impl Default for FramePointGeneratorCfg {
    fn default() -> (cfg: Self)
        ensures
            cfg == (FramePointGeneratorCfg {
                number_of_detectors_vertical: 1,
                number_of_detectors_horizontal: 1,
                target_number_of_keypoints_tolerance: 100,
                detector_threshold_maximum_change: 500,
                detector_threshold_initial: 15,
                detector_threshold_minimum: 15,
                detector_threshold_maximum: 100,
                bin_size_pixels: 25,
            }),
    {
        Self {
            number_of_detectors_vertical: 1,
            number_of_detectors_horizontal: 1,
            target_number_of_keypoints_tolerance: 100,
            detector_threshold_maximum_change: 500,
            detector_threshold_initial: 15,
            detector_threshold_minimum: 15,
            detector_threshold_maximum: 100,
            bin_size_pixels: 25,
        }
    }
}

/// A rectangle of the image with the detector that searches it. `threshold` is
/// what the controller last decided, in thousandths; `detector_threshold` is
/// the whole number that the detector works with, until the decided
/// thresholds are handed over.
#[derive(Clone, Copy, Debug, PartialEq, Eq, Structural)]
pub struct DetectorRegion {
    pub x: u32,
    pub y: u32,
    pub width: u32,
    pub height: u32,
    pub threshold: u64,
    pub detector_threshold: u32,
    pub number_of_keypoints: usize,
}

impl DetectorRegion {
    /// Whether a keypoint, in the region's own coordinates, lies in the region.
    pub open spec fn contains(self, keypoint: Keypoint) -> bool {
        &&& 0 <= keypoint.x < self.width * SUBPIXEL
        &&& 0 <= keypoint.y < self.height * SUBPIXEL
    }

    /// The region once its detector has the threshold that the controller
    /// decided on, cut to a whole number.
    pub open spec fn handed_over(self) -> DetectorRegion {
        DetectorRegion { detector_threshold: (self.threshold / 1000) as u32, ..self }
    }

    /// Executable form of [`DetectorRegion::contains`].
    pub fn has(&self, keypoint: &Keypoint) -> (b: bool)
        ensures
            b == self.contains(*keypoint),
    {
        0 <= keypoint.x && (keypoint.x as i64) < self.width as i64 * 1000 && 0 <= keypoint.y && (
        keypoint.y as i64) < self.height as i64 * 1000
    }
}

/// `a / b`, rounded to the nearest integer, halves up.
pub open spec fn rounded_quotient(a: int, b: int) -> int {
    (2 * a + b) / (2 * b)
}

/// The number of keypoints wanted of an image: one per bin of `bin` pixels
/// each way, the bins counted with the started ones.
pub open spec fn target_keypoints(width: int, height: int, bin: int) -> int {
    (width / bin + 1) * (height / bin + 1)
}

/// The keypoints found in a region, in image coordinates.
pub open spec fn region_keypoints(found: Seq<Keypoint>, region: DetectorRegion) -> Seq<Keypoint> {
    found.map_values(|keypoint: Keypoint| keypoint.shifted(region.x as int, region.y as int))
}

/// The keypoints found in the first `n` regions of a row of the grid, in image
/// coordinates, region by region.
pub open spec fn row_keypoints(found: Seq<Vec<Keypoint>>, regions: Seq<DetectorRegion>, n: nat) -> Seq<
    Keypoint,
>
    decreases n,
{
    if n == 0 {
        Seq::empty()
    } else {
        row_keypoints(found, regions, (n - 1) as nat) + region_keypoints(
            found[n - 1]@,
            regions[n - 1],
        )
    }
}

/// The keypoints found in the first `n` rows of the grid, in image
/// coordinates, row by row.
pub open spec fn grid_keypoints(
    found: Seq<Vec<Vec<Keypoint>>>,
    regions: Seq<Vec<DetectorRegion>>,
    n: nat,
) -> Seq<Keypoint>
    decreases n,
{
    if n == 0 {
        Seq::empty()
    } else {
        grid_keypoints(found, regions, (n - 1) as nat) + row_keypoints(
            found[n - 1]@,
            regions[n - 1]@,
            regions[n - 1]@.len(),
        )
    }
}

/// A region of the grid lies in the image: where it starts, plus its extent,
/// is within the extent of the image.
pub proof fn lemma_region_fits(index: int, extent: int, parts: int)
    requires
        0 <= index < parts,
        0 <= extent,
    ensures
        0 <= rounded_quotient(index * extent, parts),
        rounded_quotient(index * extent, parts) + extent / parts <= extent,
{
    let start = rounded_quotient(index * extent, parts);
    let size = extent / parts;
    vstd::arithmetic::div_mod::lemma_fundamental_div_mod(2 * (index * extent) + parts, 2 * parts);
    vstd::arithmetic::div_mod::lemma_fundamental_div_mod(extent, parts);
    let rest = (2 * (index * extent) + parts) % (2 * parts);
    let left = extent % parts;
    assert(2 * (index * extent) + parts == (2 * parts) * start + rest);
    assert(extent == parts * size + left);
    assert(0 <= index * extent) by (nonlinear_arith)
        requires
            0 <= index,
            0 <= extent,
    ;
    assert(start >= 0) by (nonlinear_arith)
        requires
            2 * (index * extent) + parts == (2 * parts) * start + rest,
            0 <= index * extent,
            0 <= rest < 2 * parts,
            0 < parts,
    ;
    assert(start + size <= extent) by (nonlinear_arith)
        requires
            2 * (index * extent) + parts == (2 * parts) * start + rest,
            extent == parts * size + left,
            0 <= rest,
            0 <= left,
            0 <= index < parts,
            0 <= extent,
    ;
}

/// Regions of the grid that follow each other do not overlap: the next one
/// starts where this one ends, or behind.
pub proof fn lemma_regions_are_apart(index: int, extent: int, parts: int)
    requires
        0 <= index,
        0 <= extent,
        0 < parts,
    ensures
        rounded_quotient(index * extent, parts) + extent / parts <= rounded_quotient(
            (index + 1) * extent,
            parts,
        ),
{
    let start = rounded_quotient(index * extent, parts);
    let size = extent / parts;
    vstd::arithmetic::div_mod::lemma_fundamental_div_mod(2 * (index * extent) + parts, 2 * parts);
    vstd::arithmetic::div_mod::lemma_fundamental_div_mod(extent, parts);
    vstd::arithmetic::div_mod::lemma_fundamental_div_mod(
        2 * ((index + 1) * extent) + parts,
        2 * parts,
    );
    let next = rounded_quotient((index + 1) * extent, parts);
    let rest = (2 * (index * extent) + parts) % (2 * parts);
    let left = extent % parts;
    let next_rest = (2 * ((index + 1) * extent) + parts) % (2 * parts);
    assert(2 * (index * extent) + parts == (2 * parts) * start + rest);
    assert(extent == parts * size + left);
    assert(2 * ((index + 1) * extent) + parts == (2 * parts) * next + next_rest);
    assert(start + size <= next) by (nonlinear_arith)
        requires
            2 * (index * extent) + parts == (2 * parts) * start + rest,
            extent == parts * size + left,
            2 * ((index + 1) * extent) + parts == (2 * parts) * next + next_rest,
            0 <= rest,
            0 <= left,
            next_rest < 2 * parts,
            0 < parts,
    ;
}

/// Where the region with the given index starts along an axis of `extent`
/// pixels that `parts` regions share.
fn region_start(index: usize, extent: usize, parts: usize) -> (start: u32)
    requires
        index < parts <= MAX_EXTENT,
        extent <= MAX_EXTENT,
    ensures
        start == rounded_quotient(index * extent, parts as int),
        start + extent / parts <= extent,
{
    proof {
        lemma_region_fits(index as int, extent as int, parts as int);
        assert(index * extent <= MAX_EXTENT * MAX_EXTENT) by (nonlinear_arith)
            requires
                0 <= index <= MAX_EXTENT,
                0 <= extent <= MAX_EXTENT,
        ;
    }
    let doubled: u64 = 2 * (index as u64 * extent as u64) + parts as u64;
    let start: u64 = doubled / (2 * parts as u64);
    start as u32
}

impl FramePointGeneratorCfg {
    /// What [`FramePointGeneratorCfg::finalize`] answers for an image of
    /// `width` by `height` pixels.
    pub open spec fn verdict(self, width: usize, height: usize) -> Result<(), ConfigError> {
        if self.number_of_detectors_vertical == 0 || self.number_of_detectors_horizontal == 0
            || width == 0 || height == 0 || self.bin_size_pixels == 0 {
            Err(ConfigError::NonPositiveDimension)
        } else if self.number_of_detectors_vertical > MAX_EXTENT
            || self.number_of_detectors_horizontal > MAX_EXTENT || width > MAX_EXTENT || height
            > MAX_EXTENT {
            Err(ConfigError::DimensionTooLarge)
        } else if self.detector_threshold_minimum > self.detector_threshold_maximum {
            Err(ConfigError::ThresholdBounds)
        } else {
            Ok(())
        }
    }

    /// The region in row `r` and column `c` of the grid over an image of
    /// `width` by `height` pixels, as it is before the first detection. All
    /// regions have the same size, the image's divided by the grid's and
    /// rounded down; their corners are rounded to the nearest pixel.
    pub open spec fn initial_region(self, width: int, height: int, r: int, c: int) -> DetectorRegion {
        DetectorRegion {
            x: rounded_quotient(c * width, self.number_of_detectors_horizontal as int) as u32,
            y: rounded_quotient(r * height, self.number_of_detectors_vertical as int) as u32,
            width: (width / self.number_of_detectors_horizontal as int) as u32,
            height: (height / self.number_of_detectors_vertical as int) as u32,
            threshold: (self.detector_threshold_minimum * SUBPIXEL) as u64,
            detector_threshold: self.detector_threshold_minimum,
            number_of_keypoints: 0,
        }
    }

    /// Whether `generator` is the grid that this configuration gives for an
    /// image of `width` by `height` pixels.
    pub open spec fn describes(self, width: int, height: int, generator: FramePointGenerator) -> bool {
        &&& generator.detectors@.len() == self.number_of_detectors_vertical
        &&& forall|r: int|
            0 <= r < generator.detectors@.len() ==> (#[trigger] generator.detectors@[r])@.len()
                == self.number_of_detectors_horizontal
        &&& forall|r: int, c: int|
            0 <= r < self.number_of_detectors_vertical && 0 <= c
                < self.number_of_detectors_horizontal ==> #[trigger] generator.detectors@[r]@[c]
                == self.initial_region(width, height, r, c)
        &&& generator.image_width == width
        &&& generator.image_height == height
        &&& generator.target_number_of_keypoints == target_keypoints(
            width,
            height,
            self.bin_size_pixels as int,
        )
        &&& generator.number_of_detectors == self.number_of_detectors_vertical
            * self.number_of_detectors_horizontal
        &&& generator.target_number_of_keypoints_tolerance
            == self.target_number_of_keypoints_tolerance
        &&& generator.detector_threshold_maximum_change == self.detector_threshold_maximum_change
        &&& generator.detector_threshold_minimum == self.detector_threshold_minimum * SUBPIXEL
        &&& generator.detector_threshold_maximum == self.detector_threshold_maximum * SUBPIXEL
    }
}

/// A grid of detector regions over an image, with the controller's settings.
/// Every region is to find `target_number_of_keypoints / number_of_detectors`
/// keypoints. Tolerance, maximum change and the bounds of the thresholds are
/// in thousandths.
pub struct FramePointGenerator {
    pub detectors: Vec<Vec<DetectorRegion>>,
    pub image_width: u32,
    pub image_height: u32,
    pub target_number_of_keypoints: u64,
    pub number_of_detectors: u64,
    pub target_number_of_keypoints_tolerance: u32,
    pub detector_threshold_maximum_change: u32,
    pub detector_threshold_minimum: u64,
    pub detector_threshold_maximum: u64,
}

impl FramePointGenerator {
    /// Whether a region lies in the image and has its thresholds between the
    /// smallest and the largest.
    pub open spec fn admits(&self, region: DetectorRegion) -> bool {
        &&& region.x + region.width <= self.image_width
        &&& region.y + region.height <= self.image_height
        &&& self.detector_threshold_minimum <= region.threshold <= self.detector_threshold_maximum
        &&& self.detector_threshold_minimum <= region.detector_threshold * SUBPIXEL
            <= self.detector_threshold_maximum
    }

    /// The number of columns of the grid.
    pub open spec fn columns(&self) -> int {
        self.detectors@[0]@.len() as int
    }

    /// The grid is a rectangle of at least one region, every region lies in
    /// the image, and the thresholds are within their bounds. The smallest
    /// threshold is a whole number, and the largest is one that a detector can hold.
    pub open spec fn well_formed(&self) -> bool {
        &&& self.detectors@.len() >= 1
        &&& self.columns() >= 1
        &&& forall|r: int|
            0 <= r < self.detectors@.len() ==> (#[trigger] self.detectors@[r])@.len()
                == self.columns()
        &&& forall|r: int, c: int|
            0 <= r < self.detectors@.len() && 0 <= c < self.columns() ==> self.admits(
                #[trigger] self.detectors@[r]@[c],
            )
        &&& 1 <= self.image_width <= MAX_EXTENT
        &&& 1 <= self.image_height <= MAX_EXTENT
        &&& self.target_number_of_keypoints >= 1
        &&& self.number_of_detectors == self.detectors@.len() * self.columns()
        &&& self.detector_threshold_minimum <= self.detector_threshold_maximum
        &&& self.detector_threshold_minimum % 1000 == 0
        &&& self.detector_threshold_maximum <= u32::MAX * SUBPIXEL
    }
}

impl FramePointGeneratorCfg {
    /// Lays the grid of detector regions over an image of `width` by `height`
    /// pixels. Every detector starts with the smallest threshold.
    pub fn finalize(self, width: usize, height: usize) -> (result: Result<
        FramePointGenerator,
        ConfigError,
    >)
        ensures
            match result {
                Ok(generator) => {
                    &&& self.verdict(width, height) is Ok
                    &&& generator.well_formed()
                    &&& self.describes(width as int, height as int, generator)
                },
                Err(error) => self.verdict(width, height) == Err::<(), ConfigError>(error),
            },
    {
        let rows = self.number_of_detectors_vertical;
        let cols = self.number_of_detectors_horizontal;
        if rows == 0 || cols == 0 || width == 0 || height == 0 || self.bin_size_pixels == 0 {
            return Err(ConfigError::NonPositiveDimension);
        }
        if rows > MAX_EXTENT || cols > MAX_EXTENT || width > MAX_EXTENT || height > MAX_EXTENT {
            return Err(ConfigError::DimensionTooLarge);
        }
        if self.detector_threshold_minimum > self.detector_threshold_maximum {
            return Err(ConfigError::ThresholdBounds);
        }
        let region_width = (width / cols) as u32;
        let region_height = (height / rows) as u32;
        let mut detectors: Vec<Vec<DetectorRegion>> = Vec::new();
        let mut r: usize = 0;
        while r < rows
            invariant
                r <= rows,
                rows == self.number_of_detectors_vertical,
                cols == self.number_of_detectors_horizontal,
                1 <= rows <= MAX_EXTENT,
                1 <= cols <= MAX_EXTENT,
                1 <= width <= MAX_EXTENT,
                1 <= height <= MAX_EXTENT,
                region_width == width / cols,
                region_height == height / rows,
                detectors@.len() == r,
                forall|i: int| 0 <= i < r ==> (#[trigger] detectors@[i])@.len() == cols,
                forall|i: int, c: int|
                    0 <= i < r && 0 <= c < cols ==> #[trigger] detectors@[i]@[c]
                        == self.initial_region(width as int, height as int, i, c),
            decreases rows - r,
        {
            let y = region_start(r, height, rows);
            let mut sub_detectors: Vec<DetectorRegion> = Vec::new();
            let mut c: usize = 0;
            while c < cols
                invariant
                    c <= cols,
                    r < rows,
                    rows == self.number_of_detectors_vertical,
                    cols == self.number_of_detectors_horizontal,
                    1 <= cols <= MAX_EXTENT,
                    1 <= width <= MAX_EXTENT,
                    region_width == width / cols,
                    region_height == height / rows,
                    y == rounded_quotient(r * height, rows as int),
                    sub_detectors@.len() == c,
                    forall|i: int|
                        0 <= i < c ==> #[trigger] sub_detectors@[i] == self.initial_region(
                            width as int,
                            height as int,
                            r as int,
                            i,
                        ),
                decreases cols - c,
            {
                let x = region_start(c, width, cols);
                sub_detectors.push(
                    DetectorRegion {
                        x,
                        y,
                        width: region_width,
                        height: region_height,
                        threshold: self.detector_threshold_minimum as u64 * 1000,
                        detector_threshold: self.detector_threshold_minimum,
                        number_of_keypoints: 0,
                    },
                );
                c = c + 1;
            }
            detectors.push(sub_detectors);
            r = r + 1;
        }
        let number_of_cols_bin: u64 = (width / self.bin_size_pixels) as u64 + 1;
        let number_of_rows_bin: u64 = (height / self.bin_size_pixels) as u64 + 1;
        assert(number_of_cols_bin * number_of_rows_bin <= (MAX_EXTENT + 1) * (MAX_EXTENT + 1)
            && number_of_cols_bin * number_of_rows_bin >= 1) by (nonlinear_arith)
            requires
                1 <= number_of_cols_bin <= MAX_EXTENT + 1,
                1 <= number_of_rows_bin <= MAX_EXTENT + 1,
        ;
        assert(rows * cols <= MAX_EXTENT * MAX_EXTENT) by (nonlinear_arith)
            requires
                0 <= rows <= MAX_EXTENT,
                0 <= cols <= MAX_EXTENT,
        ;
        let generator = FramePointGenerator {
            detectors,
            image_width: width as u32,
            image_height: height as u32,
            target_number_of_keypoints: number_of_cols_bin * number_of_rows_bin,
            number_of_detectors: rows as u64 * cols as u64,
            target_number_of_keypoints_tolerance: self.target_number_of_keypoints_tolerance,
            detector_threshold_maximum_change: self.detector_threshold_maximum_change,
            detector_threshold_minimum: self.detector_threshold_minimum as u64 * 1000,
            detector_threshold_maximum: self.detector_threshold_maximum as u64 * 1000,
        };
        proof {
            assert(generator.detector_threshold_minimum % 1000 == 0);
            assert forall|i: int, c: int|
                0 <= i < generator.detectors@.len() && 0 <= c
                    < generator.columns() implies generator.admits(
                #[trigger] generator.detectors@[i]@[c],
            ) by {
                lemma_region_fits(c, width as int, cols as int);
                lemma_region_fits(i, height as int, rows as int);
                assert(generator.detectors@[i]@[c] == self.initial_region(
                    width as int,
                    height as int,
                    i,
                    c,
                ));
            }
        }
        Ok(generator)
    }
}

impl FramePointGenerator {
    /// Whether `detections` holds one list of keypoints for every region of the grid.
    pub open spec fn fits_grid(&self, detections: Seq<Vec<Vec<Keypoint>>>) -> bool {
        &&& detections.len() == self.detectors@.len()
        &&& forall|r: int|
            0 <= r < detections.len() ==> (#[trigger] detections[r])@.len()
                == self.detectors@[r]@.len()
    }

    /// Whether every keypoint of `detections` lies in the region it was found in.
    pub open spec fn all_inside(&self, detections: Seq<Vec<Vec<Keypoint>>>) -> bool {
        forall|r: int, c: int, i: int|
            0 <= r < detections.len() && 0 <= c < detections[r]@.len() && 0 <= i
                < detections[r]@[c]@.len() ==> self.detectors@[r]@[c].contains(
                #[trigger] detections[r]@[c]@[i],
            )
    }

    /// What [`FramePointGenerator::detect_keypoints`] answers to `detections`.
    pub open spec fn detections_verdict(&self, detections: Seq<Vec<Vec<Keypoint>>>) -> Result<
        (),
        DetectionError,
    > {
        if !self.fits_grid(detections) {
            Err(DetectionError::GridMismatch)
        } else if !self.all_inside(detections) {
            Err(DetectionError::OutsideRegion)
        } else {
            Ok(())
        }
    }

    /// The region after its detector found `count` keypoints: the controller
    /// has decided on the next threshold, the detector still has its own.
    pub open spec fn adapted_region(&self, region: DetectorRegion, count: nat) -> DetectorRegion {
        DetectorRegion {
            threshold: adapted_threshold(
                region.detector_threshold * SUBPIXEL,
                count as int,
                self.number_of_detectors as int,
                self.target_number_of_keypoints as int,
                self.target_number_of_keypoints_tolerance as int,
                self.detector_threshold_maximum_change as int,
                self.detector_threshold_minimum as int,
                self.detector_threshold_maximum as int,
            ) as u64,
            number_of_keypoints: count as usize,
            ..region
        }
    }

    /// Whether `self` is `before` with only the regions changed.
    pub open spec fn same_settings(&self, before: &FramePointGenerator) -> bool {
        &&& self.detectors@.len() == before.detectors@.len()
        &&& forall|r: int|
            0 <= r < self.detectors@.len() ==> (#[trigger] self.detectors@[r])@.len()
                == before.detectors@[r]@.len()
        &&& self.image_width == before.image_width
        &&& self.image_height == before.image_height
        &&& self.target_number_of_keypoints == before.target_number_of_keypoints
        &&& self.number_of_detectors == before.number_of_detectors
        &&& self.target_number_of_keypoints_tolerance == before.target_number_of_keypoints_tolerance
        &&& self.detector_threshold_maximum_change == before.detector_threshold_maximum_change
        &&& self.detector_threshold_minimum == before.detector_threshold_minimum
        &&& self.detector_threshold_maximum == before.detector_threshold_maximum
    }

    /// Tells whether `detections` can be taken, without taking them.
    pub fn check_detections(&self, detections: &Vec<Vec<Vec<Keypoint>>>) -> (result: Result<
        (),
        DetectionError,
    >)
        ensures
            result == self.detections_verdict(detections@),
    {
        if detections.len() != self.detectors.len() {
            return Err(DetectionError::GridMismatch);
        }
        let mut r: usize = 0;
        while r < detections.len()
            invariant
                r <= detections.len(),
                detections.len() == self.detectors.len(),
                forall|i: int|
                    0 <= i < r ==> (#[trigger] detections@[i])@.len() == self.detectors@[i]@.len(),
            decreases detections.len() - r,
        {
            if detections[r].len() != self.detectors[r].len() {
                return Err(DetectionError::GridMismatch);
            }
            r = r + 1;
        }
        let mut r: usize = 0;
        while r < detections.len()
            invariant
                r <= detections.len(),
                self.fits_grid(detections@),
                forall|i: int, c: int, k: int|
                    0 <= i < r && 0 <= c < detections@[i]@.len() && 0 <= k
                        < detections@[i]@[c]@.len() ==> self.detectors@[i]@[c].contains(
                        #[trigger] detections@[i]@[c]@[k],
                    ),
            decreases detections.len() - r,
        {
            let mut c: usize = 0;
            assert(detections@[r as int]@.len() == self.detectors@[r as int]@.len());
            while c < detections[r].len()
                invariant
                    r < detections.len(),
                    c <= detections@[r as int]@.len(),
                    self.fits_grid(detections@),
                    detections@[r as int]@.len() == self.detectors@[r as int]@.len(),
                    forall|i: int, c: int, k: int|
                        0 <= i < r && 0 <= c < detections@[i]@.len() && 0 <= k
                            < detections@[i]@[c]@.len() ==> self.detectors@[i]@[c].contains(
                            #[trigger] detections@[i]@[c]@[k],
                        ),
                    forall|j: int, k: int|
                        0 <= j < c && 0 <= k < detections@[r as int]@[j]@.len()
                            ==> self.detectors@[r as int]@[j].contains(
                            #[trigger] detections@[r as int]@[j]@[k],
                        ),
                decreases detections@[r as int]@.len() - c,
            {
                let region = self.detectors[r][c];
                let mut k: usize = 0;
                while k < detections[r][c].len()
                    invariant
                        r < detections.len(),
                        c < detections@[r as int]@.len(),
                        k <= detections@[r as int]@[c as int]@.len(),
                        self.fits_grid(detections@),
                        detections@[r as int]@.len() == self.detectors@[r as int]@.len(),
                        region == self.detectors@[r as int]@[c as int],
                        forall|i: int|
                            0 <= i < k ==> region.contains(
                                #[trigger] detections@[r as int]@[c as int]@[i],
                            ),
                    decreases detections@[r as int]@[c as int]@.len() - k,
                {
                    if !region.has(&detections[r][c][k]) {
                        assert(!self.detectors@[r as int]@[c as int].contains(
                            detections@[r as int]@[c as int]@[k as int],
                        ));
                        assert(!self.all_inside(detections@));
                        return Err(DetectionError::OutsideRegion);
                    }
                    k = k + 1;
                }
                c = c + 1;
            }
            r = r + 1;
        }
        Ok(())
    }

    /// Takes the keypoints that the detectors found, `detections[r][c]` being
    /// those of the region in row `r` and column `c`, in the region's own
    /// coordinates. Answers with all of them in image coordinates, region by
    /// region, and lets the controller decide on each region's next threshold.
    /// The detectors keep their thresholds until
    /// [`FramePointGenerator::adjust_detector_thresholds`] hands the new ones over.
    /// Detections that cannot be taken leave the grid as it was.
    pub fn detect_keypoints(&mut self, detections: &Vec<Vec<Vec<Keypoint>>>) -> (result: Result<
        Vec<Keypoint>,
        DetectionError,
    >)
        requires
            old(self).well_formed(),
        ensures
            match result {
                Ok(key_points) => {
                    &&& old(self).detections_verdict(detections@) is Ok
                    &&& final(self).well_formed()
                    &&& final(self).same_settings(old(self))
                    &&& forall|r: int, c: int|
                        0 <= r < old(self).detectors@.len() && 0 <= c < old(self).columns()
                            ==> #[trigger] final(self).detectors@[r]@[c] == old(
                            self,
                        ).adapted_region(old(self).detectors@[r]@[c], detections@[r]@[c]@.len())
                    &&& key_points@ == grid_keypoints(
                        detections@,
                        old(self).detectors@,
                        old(self).detectors@.len(),
                    )
                },
                Err(error) => {
                    &&& old(self).detections_verdict(detections@) == Err::<(), DetectionError>(error)
                    &&& *final(self) == *old(self)
                },
            },
    {
        match self.check_detections(detections) {
            Err(error) => {
                return Err(error);
            },
            Ok(()) => {},
        }
        let ghost regions = self.detectors@;
        let rows = self.detectors.len();
        let cols = self.detectors[0].len();
        let mut key_points: Vec<Keypoint> = Vec::new();
        let mut r: usize = 0;
        while r < rows
            invariant
                r <= rows,
                rows == regions.len(),
                cols == old(self).columns(),
                old(self).well_formed(),
                regions == old(self).detectors@,
                old(self).fits_grid(detections@),
                old(self).all_inside(detections@),
                self.well_formed(),
                self.same_settings(old(self)),
                forall|i: int, c: int|
                    0 <= i < r && 0 <= c < cols ==> #[trigger] self.detectors@[i]@[c] == old(
                        self,
                    ).adapted_region(regions[i]@[c], detections@[i]@[c]@.len()),
                forall|i: int, c: int|
                    r <= i < rows && 0 <= c < cols ==> #[trigger] self.detectors@[i]@[c]
                        == regions[i]@[c],
                key_points@ == grid_keypoints(detections@, regions, r as nat),
            decreases rows - r,
        {
            let ghost row_start = key_points@;
            let mut c: usize = 0;
            assert(detections@[r as int]@.len() == regions[r as int]@.len());
            while c < cols
                invariant
                    r < rows,
                    c <= cols,
                    rows == regions.len(),
                    cols == old(self).columns(),
                    old(self).well_formed(),
                    regions == old(self).detectors@,
                    old(self).fits_grid(detections@),
                    old(self).all_inside(detections@),
                    detections@[r as int]@.len() == cols,
                    self.well_formed(),
                    self.same_settings(old(self)),
                    forall|i: int, c: int|
                        0 <= i < r && 0 <= c < cols ==> #[trigger] self.detectors@[i]@[c] == old(
                            self,
                        ).adapted_region(regions[i]@[c], detections@[i]@[c]@.len()),
                    forall|i: int, c: int|
                        r < i < rows && 0 <= c < cols ==> #[trigger] self.detectors@[i]@[c]
                            == regions[i]@[c],
                    forall|j: int|
                        0 <= j < c ==> #[trigger] self.detectors@[r as int]@[j] == old(
                            self,
                        ).adapted_region(regions[r as int]@[j], detections@[r as int]@[j]@.len()),
                    forall|j: int|
                        c <= j < cols ==> #[trigger] self.detectors@[r as int]@[j]
                            == regions[r as int]@[j],
                    key_points@ == row_start + row_keypoints(
                        detections@[r as int]@,
                        regions[r as int]@,
                        c as nat,
                    ),
                decreases cols - c,
            {
                let ghost entry = *self;
                let region = self.detectors[r][c];
                assert(region == regions[r as int]@[c as int]);
                assert(old(self).admits(region));
                let found = &detections[r][c];
                let threshold = adapt_threshold(
                    region.detector_threshold as u64 * 1000,
                    found.len(),
                    self.number_of_detectors,
                    self.target_number_of_keypoints,
                    self.target_number_of_keypoints_tolerance,
                    self.detector_threshold_maximum_change,
                    self.detector_threshold_minimum,
                    self.detector_threshold_maximum,
                );
                proof {
                    lemma_threshold_response(
                        region.detector_threshold * SUBPIXEL,
                        found@.len() as int,
                        self.number_of_detectors as int,
                        self.target_number_of_keypoints as int,
                        self.target_number_of_keypoints_tolerance as int,
                        self.detector_threshold_maximum_change as int,
                        self.detector_threshold_minimum as int,
                        self.detector_threshold_maximum as int,
                    );
                }
                self.detectors[r][c] = DetectorRegion {
                    threshold,
                    number_of_keypoints: found.len(),
                    ..region
                };
                proof {
                    assert(self.detectors@[r as int]@[c as int] == old(self).adapted_region(
                        region,
                        found@.len(),
                    ));
                    assert forall|i: int, j: int|
                        0 <= i < self.detectors@.len() && 0 <= j < self.columns() implies self.admits(
                        #[trigger] self.detectors@[i]@[j],
                    ) by {
                        if i == r && j == c {
                        } else {
                            assert(self.detectors@[i]@[j] == entry.detectors@[i]@[j]);
                            assert(entry.admits(entry.detectors@[i]@[j]));
                        }
                    }
                    assert forall|i: int| 0 <= i < self.detectors@.len() implies (
                    #[trigger] self.detectors@[i])@.len() == self.columns() by {
                        assert(entry.detectors@[i]@.len() == entry.columns());
                    }
                }
                let ghost region_start = key_points@;
                let mut k: usize = 0;
                while k < found.len()
                    invariant
                        k <= found@.len(),
                        region.x + region.width <= MAX_EXTENT,
                        region.y + region.height <= MAX_EXTENT,
                        forall|i: int| 0 <= i < found@.len() ==> region.contains(#[trigger] found@[i]),
                        key_points@ == region_start + region_keypoints(found@, region).take(k as int),
                    decreases found@.len() - k,
                {
                    let keypoint = found[k];
                    assert(region.contains(found@[k as int]));
                    let moved = Keypoint {
                        x: keypoint.x + region.x as i32 * SUBPIXEL,
                        y: keypoint.y + region.y as i32 * SUBPIXEL,
                        ..keypoint
                    };
                    key_points.push(moved);
                    proof {
                        let all = region_keypoints(found@, region);
                        assert(all[k as int] == moved);
                        assert(all.take(k + 1) == all.take(k as int).push(moved));
                    }
                    k = k + 1;
                }
                proof {
                    let all = region_keypoints(found@, region);
                    assert(all.take(found@.len() as int) == all);
                    assert(key_points@ == row_start + (row_keypoints(
                        detections@[r as int]@,
                        regions[r as int]@,
                        c as nat,
                    ) + all));
                }
                c = c + 1;
            }
            r = r + 1;
        }
        Ok(key_points)
    }

    /// Hands every detector the threshold that the controller decided on.
    pub fn adjust_detector_thresholds(&mut self)
        requires
            old(self).well_formed(),
        ensures
            final(self).well_formed(),
            final(self).same_settings(old(self)),
            forall|r: int, c: int|
                0 <= r < old(self).detectors@.len() && 0 <= c < old(self).columns()
                    ==> #[trigger] final(self).detectors@[r]@[c] == old(
                    self,
                ).detectors@[r]@[c].handed_over(),
    {
        let rows = self.detectors.len();
        let cols = self.detectors[0].len();
        let mut r: usize = 0;
        while r < rows
            invariant
                r <= rows,
                rows == old(self).detectors@.len(),
                cols == old(self).columns(),
                old(self).well_formed(),
                self.well_formed(),
                self.same_settings(old(self)),
                forall|i: int, c: int|
                    0 <= i < r && 0 <= c < cols ==> #[trigger] self.detectors@[i]@[c]
                        == old(self).detectors@[i]@[c].handed_over(),
                forall|i: int, c: int|
                    r <= i < rows && 0 <= c < cols ==> #[trigger] self.detectors@[i]@[c] == old(
                        self,
                    ).detectors@[i]@[c],
            decreases rows - r,
        {
            let mut c: usize = 0;
            while c < cols
                invariant
                    r < rows,
                    c <= cols,
                    rows == old(self).detectors@.len(),
                    cols == old(self).columns(),
                    old(self).well_formed(),
                    self.well_formed(),
                    self.same_settings(old(self)),
                    forall|i: int, c: int|
                        0 <= i < r && 0 <= c < cols ==> #[trigger] self.detectors@[i]@[c]
                            == old(self).detectors@[i]@[c].handed_over(),
                    forall|i: int, c: int|
                        r < i < rows && 0 <= c < cols ==> #[trigger] self.detectors@[i]@[c] == old(
                            self,
                        ).detectors@[i]@[c],
                    forall|j: int|
                        0 <= j < c ==> #[trigger] self.detectors@[r as int]@[j]
                            == old(self).detectors@[r as int]@[j].handed_over(),
                    forall|j: int|
                        c <= j < cols ==> #[trigger] self.detectors@[r as int]@[j] == old(
                            self,
                        ).detectors@[r as int]@[j],
                decreases cols - c,
            {
                let ghost entry = *self;
                let region = self.detectors[r][c];
                assert(old(self).admits(old(self).detectors@[r as int]@[c as int]));
                self.detectors[r][c] = DetectorRegion {
                    detector_threshold: (region.threshold / 1000) as u32,
                    ..region
                };
                proof {
                    assert forall|i: int, j: int|
                        0 <= i < self.detectors@.len() && 0 <= j < self.columns() implies self.admits(
                        #[trigger] self.detectors@[i]@[j],
                    ) by {
                        if i == r && j == c {
                            // a whole minimum below the threshold is below its whole part
                            let whole = region.threshold / 1000;
                            assert(self.detector_threshold_minimum % 1000 == 0);
                            assert(self.detector_threshold_minimum <= whole * 1000);
                            assert(self.detectors@[i]@[j].detector_threshold == whole);
                        } else {
                            assert(self.detectors@[i]@[j] == entry.detectors@[i]@[j]);
                            assert(entry.admits(entry.detectors@[i]@[j]));
                        }
                    }
                    assert forall|i: int| 0 <= i < self.detectors@.len() implies (
                    #[trigger] self.detectors@[i])@.len() == self.columns() by {
                        assert(entry.detectors@[i]@.len() == entry.columns());
                    }
                }
                c = c + 1;
            }
            r = r + 1;
        }
    }

    /// Executable form of [`FramePointGenerator::admits`].
    fn takes(&self, region: &DetectorRegion) -> (b: bool)
        ensures
            b == self.admits(*region),
    {
        region.x as u64 + region.width as u64 <= self.image_width as u64 && region.y as u64
            + region.height as u64 <= self.image_height as u64 && self.detector_threshold_minimum
            <= region.threshold && region.threshold <= self.detector_threshold_maximum
            && self.detector_threshold_minimum <= region.detector_threshold as u64 * 1000
            && region.detector_threshold as u64 * 1000 <= self.detector_threshold_maximum
    }

    /// Executable form of [`FramePointGenerator::well_formed`], for callers
    /// that have changed the grid by hand.
    pub fn is_well_formed(&self) -> (b: bool)
        ensures
            b == self.well_formed(),
    {
        if self.detectors.len() < 1 {
            return false;
        }
        let cols = self.detectors[0].len();
        if cols < 1 {
            return false;
        }
        if self.image_width < 1 || self.image_width as usize > MAX_EXTENT || self.image_height < 1
            || self.image_height as usize > MAX_EXTENT {
            return false;
        }
        if self.target_number_of_keypoints < 1 || self.detector_threshold_minimum
            > self.detector_threshold_maximum || self.detector_threshold_minimum % 1000 != 0
            || self.detector_threshold_maximum > u32::MAX as u64 * 1000 {
            return false;
        }
        assert(self.detectors@.len() * cols <= 0xffff_ffff_ffff_ffff * 0xffff_ffff_ffff_ffff)
            by (nonlinear_arith)
            requires
                0 <= self.detectors@.len() <= 0xffff_ffff_ffff_ffff,
                0 <= cols <= 0xffff_ffff_ffff_ffff,
        ;
        if self.number_of_detectors as u128 != self.detectors.len() as u128 * cols as u128 {
            return false;
        }
        let mut r: usize = 0;
        while r < self.detectors.len()
            invariant
                r <= self.detectors@.len(),
                cols == self.columns(),
                forall|i: int| 0 <= i < r ==> (#[trigger] self.detectors@[i])@.len() == cols,
                forall|i: int, c: int|
                    0 <= i < r && 0 <= c < cols ==> self.admits(#[trigger] self.detectors@[i]@[c]),
            decreases self.detectors@.len() - r,
        {
            if self.detectors[r].len() != cols {
                return false;
            }
            let mut c: usize = 0;
            while c < cols
                invariant
                    r < self.detectors@.len(),
                    c <= cols,
                    cols == self.columns(),
                    self.detectors@[r as int]@.len() == cols,
                    forall|i: int| 0 <= i < r ==> (#[trigger] self.detectors@[i])@.len() == cols,
                    forall|i: int, c: int|
                        0 <= i < r && 0 <= c < cols ==> self.admits(
                            #[trigger] self.detectors@[i]@[c],
                        ),
                    forall|j: int|
                        0 <= j < c ==> self.admits(#[trigger] self.detectors@[r as int]@[j]),
                decreases cols - c,
            {
                if !self.takes(&self.detectors[r][c]) {
                    assert(!self.admits(self.detectors@[r as int]@[c as int]));
                    return false;
                }
                c = c + 1;
            }
            r = r + 1;
        }
        true
    }
}

} // verus!
