use proslam::error::{ConfigError, FeatureError};
use proslam::intensity_feature_matcher::{check_sorted, IntensityFeatureMatcher};
use proslam::keypoint::{Descriptor, Keypoint};
use std::collections::BTreeSet;

fn descriptor(byte: u8) -> Descriptor {
    Descriptor { bytes: [byte; 32] }
}

fn configured(rows: usize, cols: usize) -> IntensityFeatureMatcher {
    let mut lattice = IntensityFeatureMatcher::default();
    assert_eq!(lattice.configure(rows, cols), Ok(()));
    lattice
}

fn loaded(rows: usize, cols: usize, pixels: &[(i32, i32)]) -> IntensityFeatureMatcher {
    let mut lattice = configured(rows, cols);
    let keypoints: Vec<Keypoint> =
        pixels.iter().map(|(row, col)| Keypoint::at(col * 1_000 + 500, row * 1_000 + 250)).collect();
    let descriptors: Vec<Descriptor> = (0..pixels.len()).map(|i| descriptor(i as u8)).collect();
    assert_eq!(lattice.set_fatures(&keypoints, &descriptors), Ok(()));
    lattice
}

fn order(lattice: &IntensityFeatureMatcher) -> Vec<usize> {
    lattice.feature_vector.iter().map(|feature| feature.index_in_vector).collect()
}

#[test]
fn default_lattice_is_empty() {
    let lattice = IntensityFeatureMatcher::default();
    assert_eq!(lattice.number_of_rows, 0);
    assert_eq!(lattice.number_of_cols, 0);
    assert!(lattice.feature_lattice.is_empty());
    assert!(lattice.feature_vector.is_empty());
}

#[test]
fn configure_makes_an_empty_grid() {
    let lattice = configured(3, 5);
    assert_eq!(lattice.number_of_rows, 3);
    assert_eq!(lattice.number_of_cols, 5);
    assert_eq!(lattice.feature_lattice.len(), 3);
    for row in &lattice.feature_lattice {
        assert_eq!(row.len(), 5);
        assert!(row.iter().all(|cell| cell.is_none()));
    }
    assert!(lattice.feature_vector.is_empty());
}

#[test]
fn configure_refuses_empty_and_oversized_grids() {
    let mut lattice = IntensityFeatureMatcher::default();
    assert_eq!(lattice.configure(0, 5), Err(ConfigError::NonPositiveDimension));
    assert_eq!(lattice.configure(5, 0), Err(ConfigError::NonPositiveDimension));
    assert_eq!(lattice.configure(i32::MAX as usize + 1, 1), Err(ConfigError::DimensionTooLarge));
    assert_eq!(lattice.configure(1, i32::MAX as usize + 1), Err(ConfigError::DimensionTooLarge));
    assert!(lattice.feature_lattice.is_empty());
    assert_eq!(lattice.number_of_rows, 0);
    assert_eq!(lattice.configure(2, 2), Ok(()));
}

#[test]
fn configure_twice_fails_and_keeps_the_grid() {
    let mut lattice = configured(4, 6);
    let keypoints = vec![Keypoint::at(2_500, 1_500)];
    let descriptors = vec![descriptor(7)];
    assert_eq!(lattice.set_fatures(&keypoints, &descriptors), Ok(()));
    assert_eq!(lattice.configure(9, 9), Err(ConfigError::AlreadyConfigured));
    assert_eq!(lattice.configure(0, 0), Err(ConfigError::AlreadyConfigured));
    assert_eq!(lattice.number_of_rows, 4);
    assert_eq!(lattice.number_of_cols, 6);
    assert_eq!(lattice.feature_lattice.len(), 4);
    assert_eq!(lattice.feature_lattice[0].len(), 6);
    assert_eq!(lattice.feature_vector.len(), 1);
    let occupant = lattice.feature_lattice[1][2].as_ref().expect("the cell is taken");
    assert_eq!(occupant.index_in_vector, 0);
    assert_eq!(occupant.keypoint, keypoints[0]);
}

#[test]
fn mismatched_counts_fail_and_change_nothing() {
    let mut lattice = configured(10, 10);
    let first = vec![Keypoint::at(1_000, 1_000)];
    assert_eq!(lattice.set_fatures(&first, &vec![descriptor(1)]), Ok(()));
    let keypoints: Vec<Keypoint> = (0..5).map(|i| Keypoint::at(i * 1_000, 2_000)).collect();
    let descriptors: Vec<Descriptor> = (0..4).map(|i| descriptor(i as u8)).collect();
    assert_eq!(lattice.set_fatures(&keypoints, &descriptors), Err(FeatureError::CountMismatch));
    assert_eq!(lattice.check_features(&keypoints, &descriptors), Err(FeatureError::CountMismatch));
    assert_eq!(lattice.feature_vector.len(), 1);
    assert_eq!(lattice.feature_vector[0].keypoint, first[0]);
    assert!(lattice.feature_lattice[1][1].is_some());
    for col in 0..5 {
        assert!(lattice.feature_lattice[2][col].is_none());
    }
}

#[test]
fn keypoint_outside_the_image_fails_and_changes_nothing() {
    let mut lattice = loaded(4, 6, &[(1, 1)]);
    let descriptors = vec![descriptor(0), descriptor(1)];
    for outside in [
        Keypoint::at(6_000, 0),
        Keypoint::at(0, 4_000),
        Keypoint::at(-1, 0),
        Keypoint::at(0, -1),
    ] {
        let keypoints = vec![Keypoint::at(0, 0), outside];
        assert_eq!(lattice.check_features(&keypoints, &descriptors), Err(FeatureError::OutOfBounds));
        assert_eq!(lattice.set_fatures(&keypoints, &descriptors), Err(FeatureError::OutOfBounds));
        assert_eq!(order(&lattice), vec![0]);
        assert!(lattice.feature_lattice[1][1].is_some());
        assert!(lattice.feature_lattice[0][0].is_none());
    }
    let inside = vec![Keypoint::at(5_999, 3_999), Keypoint::at(0, 0)];
    assert_eq!(lattice.check_features(&inside, &descriptors), Ok(()));
    assert_eq!(lattice.set_fatures(&inside, &descriptors), Ok(()));
    assert!(lattice.feature_lattice[3][5].is_some());
}

#[test]
fn count_mismatch_is_reported_before_bounds() {
    let lattice = configured(2, 2);
    let keypoints = vec![Keypoint::at(9_000, 9_000)];
    assert_eq!(lattice.check_features(&keypoints, &vec![]), Err(FeatureError::CountMismatch));
}

#[test]
fn unconfigured_lattice_takes_no_keypoint() {
    let mut lattice = IntensityFeatureMatcher::default();
    assert_eq!(lattice.set_fatures(&vec![], &vec![]), Ok(()));
    assert_eq!(
        lattice.set_fatures(&vec![Keypoint::at(0, 0)], &vec![descriptor(0)]),
        Err(FeatureError::OutOfBounds)
    );
}

#[test]
fn lattice_indexes_every_feature() {
    let pixels = [(3, 1), (0, 0), (2, 4), (0, 5), (3, 0)];
    let lattice = loaded(4, 6, &pixels);
    assert_eq!(lattice.feature_vector.len(), pixels.len());
    for (index, feature) in lattice.feature_vector.iter().enumerate() {
        assert_eq!(feature.index_in_vector, index);
        assert_eq!((feature.row, feature.col), pixels[index]);
        assert_eq!(feature.descriptor, descriptor(index as u8));
        let cell = lattice.feature_lattice[feature.row as usize][feature.col as usize]
            .as_ref()
            .expect("the feature's cell is taken");
        assert_eq!(cell.index_in_vector, index);
        assert_eq!(cell.keypoint, feature.keypoint);
    }
    let taken = lattice.feature_lattice.iter().flatten().filter(|cell| cell.is_some()).count();
    assert_eq!(taken, pixels.len());
}

#[test]
fn later_keypoint_takes_a_shared_cell() {
    let mut lattice = configured(4, 4);
    let keypoints = vec![
        Keypoint::at(2_100, 1_100),
        Keypoint::at(0, 0),
        Keypoint::at(2_900, 1_900),
        Keypoint::at(2_500, 1_500),
    ];
    let descriptors = vec![descriptor(10), descriptor(11), descriptor(12), descriptor(13)];
    assert_eq!(lattice.set_fatures(&keypoints, &descriptors), Ok(()));
    assert_eq!(lattice.feature_vector.len(), 4);
    let cell = lattice.feature_lattice[1][2].as_ref().expect("the shared cell is taken");
    assert_eq!(cell.index_in_vector, 3);
    assert_eq!(cell.keypoint, keypoints[3]);
    assert_eq!(cell.descriptor, descriptor(13));
    let taken = lattice.feature_lattice.iter().flatten().filter(|cell| cell.is_some()).count();
    assert_eq!(taken, 2);
}

#[test]
fn set_features_replaces_what_was_there() {
    let mut lattice = loaded(4, 4, &[(0, 0), (1, 1), (2, 2)]);
    let keypoints = vec![Keypoint::at(3_000, 3_000)];
    assert_eq!(lattice.set_fatures(&keypoints, &vec![descriptor(9)]), Ok(()));
    assert_eq!(lattice.feature_vector.len(), 1);
    assert_eq!(lattice.feature_vector[0].index_in_vector, 0);
    assert!(lattice.feature_lattice[0][0].is_none());
    assert!(lattice.feature_lattice[1][1].is_none());
    assert!(lattice.feature_lattice[2][2].is_none());
    assert!(lattice.feature_lattice[3][3].is_some());
    assert_eq!(lattice.set_fatures(&vec![], &vec![]), Ok(()));
    assert!(lattice.feature_vector.is_empty());
    assert!(lattice.feature_lattice[3][3].is_none());
}

#[test]
fn sort_orders_features_row_major() {
    let mut lattice = loaded(5, 5, &[(3, 1), (0, 4), (3, 0), (1, 2), (0, 0)]);
    lattice.sort_feature_vector();
    assert_eq!(order(&lattice), vec![4, 1, 3, 2, 0]);
    let pixels: Vec<(i32, i32)> =
        lattice.feature_vector.iter().map(|feature| (feature.row, feature.col)).collect();
    assert_eq!(pixels, vec![(0, 0), (0, 4), (1, 2), (3, 0), (3, 1)]);
    lattice.sort_feature_vector();
    assert_eq!(order(&lattice), vec![4, 1, 3, 2, 0]);
    assert!(lattice.feature_lattice[3][1].is_some());
}

#[test]
fn sort_keeps_the_order_of_features_on_one_pixel() {
    let mut lattice = loaded(3, 3, &[(2, 2), (1, 1), (0, 0), (1, 1), (2, 2), (1, 1)]);
    lattice.sort_feature_vector();
    assert_eq!(order(&lattice), vec![2, 1, 3, 5, 0, 4]);
}

#[test]
fn sort_of_an_empty_list_and_of_reverse_order() {
    let mut lattice = configured(2, 2);
    lattice.sort_feature_vector();
    assert!(lattice.feature_vector.is_empty());
    let mut lattice = loaded(1, 6, &[(0, 5), (0, 4), (0, 3), (0, 2), (0, 1), (0, 0)]);
    lattice.sort_feature_vector();
    assert_eq!(order(&lattice), vec![5, 4, 3, 2, 1, 0]);
}

#[test]
fn prune_removes_the_matched_and_keeps_the_order() {
    let mut lattice = loaded(1, 6, &[(0, 0), (0, 1), (0, 2), (0, 3), (0, 4)]);
    let matched: BTreeSet<usize> = [1usize, 3].into_iter().collect();
    lattice.prune(&matched);
    assert_eq!(order(&lattice), vec![0, 2, 4]);
    // the indices are those of the list as it is now
    let matched: BTreeSet<usize> = [0usize].into_iter().collect();
    lattice.prune(&matched);
    assert_eq!(order(&lattice), vec![2, 4]);
    // the grid is not touched
    assert!(lattice.feature_lattice[0][1].is_some());
}

#[test]
fn prune_of_nothing_of_all_and_of_strangers() {
    let mut lattice = loaded(1, 4, &[(0, 0), (0, 1), (0, 2)]);
    lattice.prune(&BTreeSet::new());
    assert_eq!(order(&lattice), vec![0, 1, 2]);
    let strangers: BTreeSet<usize> = [3usize, 17, usize::MAX].into_iter().collect();
    lattice.prune(&strangers);
    assert_eq!(order(&lattice), vec![0, 1, 2]);
    let all: BTreeSet<usize> = [0usize, 1, 2].into_iter().collect();
    lattice.prune(&all);
    assert!(lattice.feature_vector.is_empty());
    lattice.prune(&all);
    assert!(lattice.feature_vector.is_empty());
}

#[test]
fn prune_shortens_the_list_by_the_number_of_matched() {
    for mask in 0u32..32 {
        let mut lattice = loaded(1, 5, &[(0, 0), (0, 1), (0, 2), (0, 3), (0, 4)]);
        let matched: BTreeSet<usize> = (0..5usize).filter(|i| mask & (1 << i) != 0).collect();
        lattice.prune(&matched);
        assert_eq!(lattice.feature_vector.len(), 5 - matched.len());
        let expected: Vec<usize> = (0..5usize).filter(|i| !matched.contains(i)).collect();
        assert_eq!(order(&lattice), expected);
    }
}

#[test]
fn well_formed_lattices_are_recognized() {
    assert!(IntensityFeatureMatcher::default().is_well_formed());
    let mut lattice = loaded(3, 4, &[(1, 1)]);
    assert!(lattice.is_well_formed());
    lattice.number_of_rows = 2;
    assert!(!lattice.is_well_formed());
    lattice.number_of_rows = 3;
    lattice.feature_lattice[2].pop();
    assert!(!lattice.is_well_formed());
    lattice.feature_lattice[2].push(None);
    assert!(lattice.is_well_formed());
    lattice.number_of_cols = -4;
    assert!(!lattice.is_well_formed());
}

#[test]
fn sorted_lists_are_recognized() {
    let mut lattice = loaded(5, 5, &[(3, 1), (0, 4), (3, 0), (1, 2), (0, 0)]);
    assert!(!check_sorted(&lattice.feature_vector));
    lattice.sort_feature_vector();
    assert!(check_sorted(&lattice.feature_vector));
    assert!(check_sorted(&configured(1, 1).feature_vector));
    assert!(check_sorted(&loaded(2, 2, &[(1, 1)]).feature_vector));
    assert!(check_sorted(&loaded(2, 2, &[(1, 1), (1, 1)]).feature_vector));
    assert!(!check_sorted(&loaded(2, 2, &[(0, 0), (1, 1), (1, 0)]).feature_vector));
}
