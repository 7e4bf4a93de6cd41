use proslam::intensity_feature_matcher::IntensityFeature;
use proslam::keypoint::{count_bits, pixel_of, Descriptor, Keypoint};
use proslam::stereo_framepoint::{PointCoordinates, StereoFramepoint};

fn descriptor_with_bits(bits: usize) -> Descriptor {
    let mut bytes = [0u8; 32];
    for bit in 0..bits {
        bytes[bit / 8] |= 1 << (bit % 8);
    }
    Descriptor { bytes }
}

#[test]
fn pixel_of_rounds_down() {
    assert_eq!(pixel_of(0), 0);
    assert_eq!(pixel_of(999), 0);
    assert_eq!(pixel_of(1_000), 1);
    assert_eq!(pixel_of(12_500), 12);
    assert_eq!(pixel_of(-1), -1);
    assert_eq!(pixel_of(-1_000), -1);
    assert_eq!(pixel_of(-1_001), -2);
    assert_eq!(pixel_of(i32::MAX), 2_147_483);
    assert_eq!(pixel_of(i32::MIN), -2_147_484);
}

#[test]
fn keypoint_within_the_image() {
    let keypoint = Keypoint::at(9_999, 3_000);
    assert!(keypoint.is_within(4, 10));
    assert!(!keypoint.is_within(3, 10));
    assert!(!keypoint.is_within(4, 9));
    assert!(!Keypoint::at(-1, 0).is_within(4, 10));
    assert!(!Keypoint::at(0, -1).is_within(4, 10));
    assert!(!Keypoint::at(0, 0).is_within(0, 0));
}

#[test]
fn keypoint_at_carries_no_metadata() {
    let keypoint = Keypoint::at(3, 4);
    assert_eq!(
        keypoint,
        Keypoint { x: 3, y: 4, size: 0, angle: 0, response: 0, octave: 0, class_id: 0 }
    );
}

#[test]
fn count_bits_counts_set_bits() {
    assert_eq!(count_bits(0), 0);
    assert_eq!(count_bits(1), 1);
    assert_eq!(count_bits(0b1010_0101), 4);
    assert_eq!(count_bits(0x80), 1);
    assert_eq!(count_bits(0xff), 8);
    for byte in 0..=255u8 {
        assert_eq!(count_bits(byte), byte.count_ones());
    }
}

#[test]
fn descriptor_distance_is_the_hamming_distance() {
    let zero = descriptor_with_bits(0);
    let all = descriptor_with_bits(256);
    assert_eq!(zero.distance(&zero), 0);
    assert_eq!(zero.distance(&all), 256);
    assert_eq!(all.distance(&zero), 256);
    assert_eq!(descriptor_with_bits(25).distance(&zero), 25);
    assert_eq!(descriptor_with_bits(25).distance(&descriptor_with_bits(10)), 15);
    let mut left = [0u8; 32];
    let mut right = [0u8; 32];
    left[0] = 0b1100_0011;
    right[0] = 0b0101_0101;
    left[31] = 0xf0;
    right[31] = 0x0f;
    assert_eq!(Descriptor { bytes: left }.distance(&Descriptor { bytes: right }), 4 + 8);
}

#[test]
fn intensity_feature_lies_on_the_pixel_of_its_keypoint() {
    let keypoint = Keypoint { x: 12_750, y: 7_250, size: 7_000, angle: 1, response: 2, octave: 3, class_id: 4 };
    let descriptor = descriptor_with_bits(9);
    let feature = IntensityFeature::new(&keypoint, &descriptor, 17);
    assert_eq!(feature.keypoint, keypoint);
    assert_eq!(feature.descriptor, descriptor);
    assert_eq!(feature.row, 7);
    assert_eq!(feature.col, 12);
    assert_eq!(feature.index_in_vector, 17);
    let outside = IntensityFeature::new(&Keypoint::at(-500, -1_500), &descriptor, 0);
    assert_eq!(outside.row, -2);
    assert_eq!(outside.col, -1);
}

#[test]
fn intensity_features_are_ordered_row_major() {
    let descriptor = descriptor_with_bits(0);
    let a = IntensityFeature::new(&Keypoint::at(5_000, 1_000), &descriptor, 0);
    let b = IntensityFeature::new(&Keypoint::at(2_000, 2_000), &descriptor, 1);
    let c = IntensityFeature::new(&Keypoint::at(2_900, 2_100), &descriptor, 2);
    assert!(a.precedes(&b));
    assert!(!b.precedes(&a));
    assert!(b.precedes(&c));
    assert!(c.precedes(&b));
    assert!(a.precedes(&a));
}

#[test]
fn stereo_framepoint_has_the_disparity_of_its_keypoints() {
    let left = Keypoint::at(50_250, 20_750);
    let right = Keypoint::at(45_000, 20_500);
    let point = StereoFramepoint::new(&left, &right, &descriptor_with_bits(1), &descriptor_with_bits(2), 9);
    assert_eq!(point.keypoint_left, left);
    assert_eq!(point.keypoint_right, right);
    assert_eq!(point.descriptor_left, descriptor_with_bits(1));
    assert_eq!(point.descriptor_right, descriptor_with_bits(2));
    assert_eq!(point.disparity_pixels, 5_250);
    assert_eq!(point.row, 20);
    assert_eq!(point.col, 50);
    assert_eq!(point.identifier, 9);
    assert_eq!(point.image_coordinates_left, PointCoordinates { x: 50_250, y: 20_750, z: 1_000 });
    assert_eq!(point.image_coordinates_right, PointCoordinates { x: 45_000, y: 20_500, z: 1_000 });
}

#[test]
fn stereo_framepoint_disparity_may_be_negative_and_large() {
    let left = Keypoint::at(i32::MIN, 0);
    let right = Keypoint::at(i32::MAX, 0);
    let descriptor = descriptor_with_bits(0);
    let point = StereoFramepoint::new(&left, &right, &descriptor, &descriptor, 0);
    assert_eq!(point.disparity_pixels, i32::MIN as i64 - i32::MAX as i64);
}

#[test]
fn stereo_framepoint_of_features() {
    let left = IntensityFeature::new(&Keypoint::at(8_000, 3_000), &descriptor_with_bits(3), 0);
    let right = IntensityFeature::new(&Keypoint::at(6_500, 3_000), &descriptor_with_bits(4), 1);
    let point = StereoFramepoint::new_with_intensity_feature(&left, &right, 42);
    assert_eq!(point.keypoint_left, left.keypoint);
    assert_eq!(point.keypoint_right, right.keypoint);
    assert_eq!(point.descriptor_left, left.descriptor);
    assert_eq!(point.descriptor_right, right.descriptor);
    assert_eq!(point.disparity_pixels, 1_500);
    assert_eq!(point.identifier, 42);
    assert_eq!(point.row, 3);
    assert_eq!(point.col, 8);
}
