//! Stereo correspondences: a left and a right feature that show the same point.

use crate::intensity_feature_matcher::IntensityFeature;
use crate::keypoint::{pixel_of, Descriptor, Keypoint, SUBPIXEL};
use vstd::prelude::*;

verus! {

/// Homogeneous image coordinates, in thousandths.
#[derive(Clone, Copy, Debug, PartialEq, Eq, Structural)]
pub struct PointCoordinates {
    pub x: i32,
    pub y: i32,
    pub z: i32,
}

/// A left and a right keypoint taken to show the same point, with their
/// descriptors, their disparity in thousandths of a pixel, the pixel of the
/// left keypoint, and an identifier.
#[derive(Clone, Copy, Debug)]
pub struct StereoFramepoint {
    pub keypoint_left: Keypoint,
    pub keypoint_right: Keypoint,
    pub descriptor_left: Descriptor,
    pub descriptor_right: Descriptor,
    pub disparity_pixels: i64,
    pub row: i32,
    pub col: i32,
    pub identifier: u64,
    pub image_coordinates_left: PointCoordinates,
    pub image_coordinates_right: PointCoordinates,
}

/// How far to the left of `left` the keypoint `right` lies, in thousandths of a pixel.
pub open spec fn disparity(left: Keypoint, right: Keypoint) -> int {
    left.x - right.x
}

/// The image coordinates of a keypoint.
pub open spec fn image_coordinates(keypoint: Keypoint) -> PointCoordinates {
    PointCoordinates { x: keypoint.x, y: keypoint.y, z: SUBPIXEL }
}

impl StereoFramepoint {
    /// The correspondence of two keypoints under the given identifier.
    pub open spec fn spec_new(
        keypoint_left: Keypoint,
        keypoint_right: Keypoint,
        descriptor_left: Descriptor,
        descriptor_right: Descriptor,
        identifier: u64,
    ) -> StereoFramepoint {
        StereoFramepoint {
            keypoint_left,
            keypoint_right,
            descriptor_left,
            descriptor_right,
            disparity_pixels: disparity(keypoint_left, keypoint_right) as i64,
            row: keypoint_left.row() as i32,
            col: keypoint_left.col() as i32,
            identifier,
            image_coordinates_left: image_coordinates(keypoint_left),
            image_coordinates_right: image_coordinates(keypoint_right),
        }
    }

    /// The correspondence of two features under the given identifier.
    pub open spec fn spec_of_features(
        feature_left: IntensityFeature,
        feature_right: IntensityFeature,
        identifier: u64,
    ) -> StereoFramepoint {
        Self::spec_new(
            feature_left.keypoint,
            feature_right.keypoint,
            feature_left.descriptor,
            feature_right.descriptor,
            identifier,
        )
    }

    pub fn new(
        keypoint_left: &Keypoint,
        keypoint_right: &Keypoint,
        descriptor_left: &Descriptor,
        descriptor_right: &Descriptor,
        identifier: u64,
    ) -> (point: StereoFramepoint)
        ensures
            point == Self::spec_new(
                *keypoint_left,
                *keypoint_right,
                *descriptor_left,
                *descriptor_right,
                identifier,
            ),
    {
        StereoFramepoint {
            keypoint_left: *keypoint_left,
            keypoint_right: *keypoint_right,
            descriptor_left: *descriptor_left,
            descriptor_right: *descriptor_right,
            disparity_pixels: keypoint_left.x as i64 - keypoint_right.x as i64,
            row: pixel_of(keypoint_left.y),
            col: pixel_of(keypoint_left.x),
            identifier,
            image_coordinates_left: PointCoordinates {
                x: keypoint_left.x,
                y: keypoint_left.y,
                z: SUBPIXEL,
            },
            image_coordinates_right: PointCoordinates {
                x: keypoint_right.x,
                y: keypoint_right.y,
                z: SUBPIXEL,
            },
        }
    }

    pub fn new_with_intensity_feature(
        feature_left: &IntensityFeature,
        feature_right: &IntensityFeature,
        identifier: u64,
    ) -> (point: StereoFramepoint)
        ensures
            point == Self::spec_of_features(*feature_left, *feature_right, identifier),
    {
        StereoFramepoint::new(
            &feature_left.keypoint,
            &feature_right.keypoint,
            &feature_left.descriptor,
            &feature_right.descriptor,
            identifier,
        )
    }
}

} // verus!
