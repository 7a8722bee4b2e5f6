use music_cli::diff::histogram_distance_parts;
use music_cli::theory::ScaleKind;

#[test]
fn histogram_distance_is_symmetric_and_bounded() {
    let l = [2, 0, 1, 0, 0, 0, 0, 3, 0, 0, 0, 0];
    let r = [0, 0, 4, 0, 1, 0, 0, 3, 0, 0, 0, 0];
    let (d, t) = histogram_distance_parts(&l, &r);
    assert_eq!((d, t), (6, 14));
    assert_eq!(histogram_distance_parts(&r, &l), (d, t));
}

#[test]
fn histogram_distance_is_zero_for_equal_and_total_for_disjoint() {
    let l = [1, 0, 2, 0, 0, 0, 0, 0, 0, 0, 0, 5];
    assert_eq!(histogram_distance_parts(&l, &l), (0, 16));
    let r = [0, 3, 0, 0, 0, 0, 0, 0, 0, 0, 1, 0];
    assert_eq!(histogram_distance_parts(&l, &r), (12, 12));
    assert_eq!(histogram_distance_parts(&[0; 12], &[0; 12]), (0, 0));
}

#[test]
fn rotating_a_diatonic_kind_names_the_rotated_mode() {
    assert_eq!(ScaleKind::Dorian.mode_name_for_rotation(2), Some("Lydian"));
    assert_eq!(ScaleKind::Lydian.pitch_classes(), [0, 2, 4, 6, 7, 9, 11]);
    assert_eq!(ScaleKind::Major.mode_name_for_rotation(5), Some("Aeolian"));
    assert_eq!(ScaleKind::Aeolian.pitch_classes(), [0, 2, 3, 5, 7, 8, 10]);
    assert_eq!(ScaleKind::Dorian.mode_name_for_rotation(9), ScaleKind::Dorian.mode_name_for_rotation(2));
    assert_eq!(ScaleKind::HarmonicMinor.mode_name_for_rotation(10), Some("Dorian ♯4"));
}
