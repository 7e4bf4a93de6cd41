//! Stereo feature point generation: an adaptive grid of keypoint detectors, a
//! spatial index over one image's features, and a greedy epipolar matcher that
//! pairs the features of a left and a right image.

pub mod dataset;
pub mod epipolar;
pub mod error;
pub mod frame_point_generator;
pub mod intensity_feature_matcher;
pub mod keypoint;
pub mod sensor;
pub mod stereo_frame_point_generator;
pub mod stereo_framepoint;
pub mod threshold;
