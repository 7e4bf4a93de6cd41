//! The errors the library reports.

use vstd::prelude::*;

verus! {

/// A configuration that cannot be used. Configuration errors are final: the
/// caller has to supply another configuration.
#[derive(Clone, Copy, Debug, PartialEq, Eq, Structural)]
pub enum ConfigError {
    /// A lattice that already holds a grid was configured a second time.
    AlreadyConfigured,
    /// A grid extent, an image extent or the bin size is zero.
    NonPositiveDimension,
    /// A grid extent or an image extent is larger than the library can address.
    DimensionTooLarge,
    /// The smallest detector threshold is above the largest.
    ThresholdBounds,
    /// The descriptor type names no supported descriptor.
    UnknownDescriptorType,
}

/// Features that cannot be loaded into a lattice.
#[derive(Clone, Copy, Debug, PartialEq, Eq, Structural)]
pub enum FeatureError {
    /// There are not as many descriptors as keypoints.
    CountMismatch,
    /// A keypoint lies on no pixel of the image.
    OutOfBounds,
}

/// Detections that do not fit the detector grid they are handed to.
#[derive(Clone, Copy, Debug, PartialEq, Eq, Structural)]
pub enum DetectionError {
    /// The detections are not laid out as the grid of regions is.
    GridMismatch,
    /// A keypoint lies outside the region it was reported for.
    OutsideRegion,
}

/// A search for correspondences that cannot be made.
#[derive(Clone, Copy, Debug, PartialEq, Eq, Structural)]
pub enum FramePointError {
    /// There are not enough identifiers left for the correspondences that
    /// the search may find.
    IdentifiersExhausted,
}

} // verus!
