use proslam::error::{ConfigError, DetectionError};
use proslam::frame_point_generator::{DetectorRegion, FramePointGenerator, FramePointGeneratorCfg};
use proslam::keypoint::Keypoint;

fn grid(rows: usize, cols: usize, width: usize, height: usize) -> FramePointGenerator {
    let cfg = FramePointGeneratorCfg {
        number_of_detectors_vertical: rows,
        number_of_detectors_horizontal: cols,
        ..FramePointGeneratorCfg::default()
    };
    cfg.finalize(width, height).expect("the configuration is valid")
}

fn rectangles(generator: &FramePointGenerator) -> Vec<Vec<(u32, u32, u32, u32)>> {
    generator
        .detectors
        .iter()
        .map(|row| row.iter().map(|region| (region.x, region.y, region.width, region.height)).collect())
        .collect()
}

fn error_of(result: Result<FramePointGenerator, ConfigError>) -> ConfigError {
    match result {
        Ok(_) => panic!("the configuration was accepted"),
        Err(error) => error,
    }
}

#[test]
fn default_grid_configuration() {
    let cfg = FramePointGeneratorCfg::default();
    assert_eq!(cfg.number_of_detectors_vertical, 1);
    assert_eq!(cfg.number_of_detectors_horizontal, 1);
    assert_eq!(cfg.target_number_of_keypoints_tolerance, 100);
    assert_eq!(cfg.detector_threshold_maximum_change, 500);
    assert_eq!(cfg.detector_threshold_initial, 15);
    assert_eq!(cfg.detector_threshold_minimum, 15);
    assert_eq!(cfg.detector_threshold_maximum, 100);
    assert_eq!(cfg.bin_size_pixels, 25);
}

#[test]
fn single_region_covers_the_image() {
    let generator = grid(1, 1, 100, 80);
    assert_eq!(rectangles(&generator), vec![vec![(0, 0, 100, 80)]]);
    let region = generator.detectors[0][0];
    assert_eq!(region.threshold, 15_000);
    assert_eq!(region.detector_threshold, 15);
    assert_eq!(region.number_of_keypoints, 0);
    assert_eq!(generator.image_width, 100);
    assert_eq!(generator.image_height, 80);
    assert_eq!(generator.target_number_of_keypoints, 5 * 4);
    assert_eq!(generator.number_of_detectors, 1);
    assert_eq!(generator.target_number_of_keypoints_tolerance, 100);
    assert_eq!(generator.detector_threshold_maximum_change, 500);
    assert_eq!(generator.detector_threshold_minimum, 15_000);
    assert_eq!(generator.detector_threshold_maximum, 100_000);
}

#[test]
fn regions_divide_the_image_evenly() {
    let generator = grid(2, 4, 640, 480);
    assert_eq!(
        rectangles(&generator),
        vec![
            vec![(0, 0, 160, 240), (160, 0, 160, 240), (320, 0, 160, 240), (480, 0, 160, 240)],
            vec![(0, 240, 160, 240), (160, 240, 160, 240), (320, 240, 160, 240), (480, 240, 160, 240)],
        ]
    );
    assert_eq!(generator.number_of_detectors, 8);
    assert_eq!(generator.target_number_of_keypoints, 26 * 20);
}

#[test]
fn region_corners_are_rounded_and_sizes_cut() {
    // 10 / 3 is 3.33: the corners are at 0, 3.33 and 6.67; 7 / 2 is 3.5: at 0 and 3.5
    let generator = grid(2, 3, 10, 7);
    assert_eq!(
        rectangles(&generator),
        vec![
            vec![(0, 0, 3, 3), (3, 0, 3, 3), (7, 0, 3, 3)],
            vec![(0, 4, 3, 3), (3, 4, 3, 3), (7, 4, 3, 3)],
        ]
    );
    for row in &generator.detectors {
        for region in row {
            assert!(region.x + region.width <= 10);
            assert!(region.y + region.height <= 7);
        }
    }
}

#[test]
fn more_detectors_than_pixels_give_empty_regions() {
    let generator = grid(1, 4, 2, 5);
    assert_eq!(rectangles(&generator), vec![vec![(0, 0, 0, 5), (1, 0, 0, 5), (1, 0, 0, 5), (2, 0, 0, 5)]]);
}

#[test]
fn target_counts_the_started_bins() {
    assert_eq!(grid(1, 1, 100, 100).target_number_of_keypoints, 25);
    assert_eq!(grid(1, 1, 99, 100).target_number_of_keypoints, 4 * 5);
    assert_eq!(grid(1, 1, 24, 24).target_number_of_keypoints, 1);
    assert_eq!(grid(1, 1, 1241, 376).target_number_of_keypoints, 50 * 16);
    let cfg = FramePointGeneratorCfg { bin_size_pixels: 7, ..FramePointGeneratorCfg::default() };
    assert_eq!(cfg.finalize(50, 20).expect("valid").target_number_of_keypoints, 8 * 3);
}

#[test]
fn grid_configuration_errors() {
    let cfg = FramePointGeneratorCfg::default();
    assert_eq!(error_of(cfg.finalize(0, 10)), ConfigError::NonPositiveDimension);
    assert_eq!(error_of(cfg.finalize(10, 0)), ConfigError::NonPositiveDimension);
    let no_rows = FramePointGeneratorCfg { number_of_detectors_vertical: 0, ..cfg };
    assert_eq!(error_of(no_rows.finalize(10, 10)), ConfigError::NonPositiveDimension);
    let no_cols = FramePointGeneratorCfg { number_of_detectors_horizontal: 0, ..cfg };
    assert_eq!(error_of(no_cols.finalize(10, 10)), ConfigError::NonPositiveDimension);
    let no_bin = FramePointGeneratorCfg { bin_size_pixels: 0, ..cfg };
    assert_eq!(error_of(no_bin.finalize(10, 10)), ConfigError::NonPositiveDimension);
    assert_eq!(error_of(cfg.finalize(2_147_484, 10)), ConfigError::DimensionTooLarge);
    assert_eq!(error_of(cfg.finalize(10, 2_147_484)), ConfigError::DimensionTooLarge);
    let many_rows = FramePointGeneratorCfg { number_of_detectors_vertical: 2_147_484, ..cfg };
    assert_eq!(error_of(many_rows.finalize(10, 10)), ConfigError::DimensionTooLarge);
    let many_cols = FramePointGeneratorCfg { number_of_detectors_horizontal: 2_147_484, ..cfg };
    assert_eq!(error_of(many_cols.finalize(10, 10)), ConfigError::DimensionTooLarge);
    let crossed = FramePointGeneratorCfg {
        detector_threshold_minimum: 101,
        detector_threshold_maximum: 100,
        ..cfg
    };
    assert_eq!(error_of(crossed.finalize(10, 10)), ConfigError::ThresholdBounds);
    // an empty extent is reported before an oversized one, and both before the thresholds
    let all_wrong = FramePointGeneratorCfg { number_of_detectors_vertical: 2_147_484, ..crossed };
    assert_eq!(error_of(all_wrong.finalize(0, 10)), ConfigError::NonPositiveDimension);
    assert_eq!(error_of(all_wrong.finalize(10, 10)), ConfigError::DimensionTooLarge);
    let equal = FramePointGeneratorCfg {
        detector_threshold_minimum: 100,
        detector_threshold_maximum: 100,
        ..cfg
    };
    assert!(equal.finalize(2_147_483, 1).is_ok());
}

#[test]
fn detections_come_back_in_image_coordinates_region_by_region() {
    let mut generator = grid(2, 2, 10, 8);
    assert_eq!(
        rectangles(&generator),
        vec![vec![(0, 0, 5, 4), (5, 0, 5, 4)], vec![(0, 4, 5, 4), (5, 4, 5, 4)]]
    );
    let tagged = Keypoint { x: 500, y: 1_000, size: 7_000, angle: 90_000, response: 31_000, octave: 2, class_id: -1 };
    let detections = vec![
        vec![vec![Keypoint::at(1_000, 2_000)], vec![tagged, Keypoint::at(4_999, 3_999)]],
        vec![vec![], vec![Keypoint::at(0, 0), Keypoint::at(250, 750)]],
    ];
    let keypoints = generator.detect_keypoints(&detections).expect("the detections fit");
    assert_eq!(
        keypoints,
        vec![
            Keypoint::at(1_000, 2_000),
            Keypoint { x: 5_500, ..tagged },
            Keypoint::at(9_999, 3_999),
            Keypoint::at(5_000, 4_000),
            Keypoint::at(5_250, 4_750),
        ]
    );
    let counts: Vec<Vec<usize>> = generator
        .detectors
        .iter()
        .map(|row| row.iter().map(|region| region.number_of_keypoints).collect())
        .collect();
    assert_eq!(counts, vec![vec![1, 2], vec![0, 2]]);
    assert_eq!(
        rectangles(&generator),
        vec![vec![(0, 0, 5, 4), (5, 0, 5, 4)], vec![(0, 4, 5, 4), (5, 4, 5, 4)]]
    );
}

#[test]
fn no_detections_are_no_error() {
    let mut generator = grid(1, 2, 10, 8);
    let keypoints = generator.detect_keypoints(&vec![vec![vec![], vec![]]]).expect("fits");
    assert!(keypoints.is_empty());
}

#[test]
fn detections_must_fit_the_grid() {
    let mut generator = grid(2, 2, 10, 8);
    let before = generator.detectors.clone();
    for detections in [
        vec![],
        vec![vec![vec![], vec![]]],
        vec![vec![vec![], vec![]], vec![vec![]]],
        vec![vec![vec![], vec![]], vec![vec![], vec![], vec![]]],
        vec![vec![vec![], vec![]], vec![vec![], vec![]], vec![]],
    ] {
        assert_eq!(generator.check_detections(&detections), Err(DetectionError::GridMismatch));
        assert_eq!(generator.detect_keypoints(&detections), Err(DetectionError::GridMismatch));
        assert_eq!(generator.detectors, before);
    }
}

#[test]
fn detections_must_lie_in_their_regions() {
    let mut generator = grid(1, 2, 10, 8);
    let before = generator.detectors.clone();
    for outside in [
        Keypoint::at(5_000, 0),
        Keypoint::at(0, 8_000),
        Keypoint::at(-1, 0),
        Keypoint::at(0, -1),
    ] {
        let detections = vec![vec![vec![Keypoint::at(0, 0)], vec![Keypoint::at(4_999, 7_999), outside]]];
        assert_eq!(generator.check_detections(&detections), Err(DetectionError::OutsideRegion));
        assert_eq!(generator.detect_keypoints(&detections), Err(DetectionError::OutsideRegion));
        assert_eq!(generator.detectors, before);
    }
    // a grid that does not fit is reported first
    let detections = vec![vec![vec![Keypoint::at(-1, -1)]]];
    assert_eq!(generator.check_detections(&detections), Err(DetectionError::GridMismatch));
}

#[test]
fn thresholds_follow_the_counts_and_reach_the_detectors_on_request() {
    // one region of 100 by 100 pixels wants 25 keypoints
    let mut generator = grid(1, 1, 100, 100);
    let found = |count: usize| vec![vec![vec![Keypoint::at(10_000, 10_000); count]]];

    assert!(generator.detect_keypoints(&found(50)).is_ok());
    let region = generator.detectors[0][0];
    assert_eq!(region.threshold, 30_000);
    assert_eq!(region.detector_threshold, 15);
    assert_eq!(region.number_of_keypoints, 50);

    // until the thresholds are handed over, the detector's own one counts
    assert!(generator.detect_keypoints(&found(30)).is_ok());
    assert_eq!(generator.detectors[0][0].threshold, 22_500);
    assert_eq!(generator.detectors[0][0].detector_threshold, 15);

    // the detector takes the whole part of 22.5
    generator.adjust_detector_thresholds();
    assert_eq!(
        generator.detectors[0][0],
        DetectorRegion {
            x: 0,
            y: 0,
            width: 100,
            height: 100,
            threshold: 22_500,
            detector_threshold: 22,
            number_of_keypoints: 30,
        }
    );

    // the controller goes on from what the detector has
    assert!(generator.detect_keypoints(&found(25)).is_ok());
    assert_eq!(generator.detectors[0][0].threshold, 22_000);
    assert!(generator.detect_keypoints(&found(22)).is_ok());
    // 12 % of 22 is 2.64
    assert_eq!(generator.detectors[0][0].threshold, 19_360);
    assert!(generator.detect_keypoints(&found(10)).is_ok());
    // 60 % of 22 is 13.2: down to 8.8, and up to the minimum
    assert_eq!(generator.detectors[0][0].threshold, 15_000);
    generator.adjust_detector_thresholds();
    assert_eq!(generator.detectors[0][0].detector_threshold, 15);
    assert!(generator.detect_keypoints(&found(10_000)).is_ok());
    assert_eq!(generator.detectors[0][0].threshold, 100_000);
    generator.adjust_detector_thresholds();
    assert_eq!(generator.detectors[0][0].detector_threshold, 100);
}

#[test]
fn threshold_rises_by_half_on_half_too_many_keypoints() {
    // 100 by 75 pixels want 5 * 4 = 20 keypoints
    let mut generator = grid(1, 1, 100, 75);
    assert_eq!(generator.target_number_of_keypoints, 20);
    let detections = vec![vec![vec![Keypoint::at(10_000, 10_000); 30]]];
    let keypoints = generator.detect_keypoints(&detections).expect("the detections fit");
    assert_eq!(keypoints.len(), 30);
    assert_eq!(generator.detectors[0][0].threshold, 22_500);
    assert_eq!(generator.detectors[0][0].detector_threshold, 15);
    generator.adjust_detector_thresholds();
    assert_eq!(generator.detectors[0][0].threshold, 22_500);
    assert_eq!(generator.detectors[0][0].detector_threshold, 22);
}

#[test]
fn each_region_has_a_threshold_of_its_own() {
    // 100 by 100 pixels want 25 keypoints, 6.25 for each of 4 regions
    let mut generator = grid(2, 2, 100, 100);
    let found = |count: usize| vec![Keypoint::at(1_000, 1_000); count];
    let detections = vec![vec![found(6), found(0)], vec![found(7), found(20)]];
    assert!(generator.detect_keypoints(&detections).is_ok());
    generator.adjust_detector_thresholds();
    let decided: Vec<Vec<u64>> = generator
        .detectors
        .iter()
        .map(|row| row.iter().map(|region| region.threshold).collect())
        .collect();
    // 6 is 4 % short and stays; 0 stays at the minimum; 7 is 12 % over: up by half;
    // 20 is 220 % over: up by 33
    assert_eq!(decided, vec![vec![15_000, 15_000], vec![22_500, 48_000]]);
    let thresholds: Vec<Vec<u32>> = generator
        .detectors
        .iter()
        .map(|row| row.iter().map(|region| region.detector_threshold).collect())
        .collect();
    assert_eq!(thresholds, vec![vec![15, 15], vec![22, 48]]);
}

#[test]
fn well_formed_grids_are_recognized() {
    let mut generator = grid(2, 3, 10, 7);
    assert!(generator.is_well_formed());
    generator.detectors[1][2].threshold = 100_001;
    assert!(!generator.is_well_formed());
    generator.detectors[1][2].threshold = 14_999;
    assert!(!generator.is_well_formed());
    generator.detectors[1][2].threshold = 100_000;
    assert!(generator.is_well_formed());
    generator.detectors[1][2].detector_threshold = 101;
    assert!(!generator.is_well_formed());
    generator.detectors[1][2].detector_threshold = 14;
    assert!(!generator.is_well_formed());
    generator.detectors[1][2].detector_threshold = 15;
    generator.detectors[0][1].width = 8;
    assert!(!generator.is_well_formed());
    generator.detectors[0][1].width = 7;
    assert!(generator.is_well_formed());
    generator.detectors[0].pop();
    assert!(!generator.is_well_formed());
    let mut generator = grid(1, 1, 10, 7);
    generator.detector_threshold_minimum = 14_500;
    assert!(!generator.is_well_formed());
    generator.detector_threshold_minimum = 15_000;
    generator.detector_threshold_maximum = u32::MAX as u64 * 1_000 + 1;
    assert!(!generator.is_well_formed());
    generator.detector_threshold_maximum = 100_000;
    assert!(generator.is_well_formed());
    generator.number_of_detectors = 2;
    assert!(!generator.is_well_formed());
    generator.number_of_detectors = 1;
    generator.target_number_of_keypoints = 0;
    assert!(!generator.is_well_formed());
    generator.target_number_of_keypoints = 1;
    generator.image_width = 0;
    assert!(!generator.is_well_formed());
    generator.image_width = 10;
    generator.detectors.clear();
    assert!(!generator.is_well_formed());
}

#[test]
fn regions_lie_in_the_image_and_apart() {
    for (rows, cols, width, height) in [(3, 7, 100, 50), (5, 5, 17, 23), (4, 6, 6, 4), (6, 9, 5, 3)] {
        let generator = grid(rows, cols, width, height);
        for row in &generator.detectors {
            for pair in row.windows(2) {
                assert!(pair[0].x + pair[0].width <= pair[1].x);
            }
            let last = row[cols - 1];
            assert!(last.x as usize + last.width as usize <= width);
        }
        for pair in generator.detectors.windows(2) {
            assert!(pair[0][0].y + pair[0][0].height <= pair[1][0].y);
        }
        let last = generator.detectors[rows - 1][0];
        assert!(last.y as usize + last.height as usize <= height);
    }
}
