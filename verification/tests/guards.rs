use music_cli::analysis::{analyze_melody, melody_span_fits, AnalysisError};
use music_cli::generate::gaps_fit_notes;
use music_cli::key::hint_splits_char;
use music_cli::render::{roll_fits_notes, staff_fits_notes};
use music_cli::resolve::key_splits_at_boundary;
use music_cli::theory::ScaleKind;
use music_cli::validation::{validate_melody, MelodyValidationError};

#[test]
fn melody_span_fits_accepts_ordinary_and_empty_melodies() {
    assert!(melody_span_fits(&vec![60, 62, 64]));
    assert!(melody_span_fits(&vec![]));
    assert!(melody_span_fits(&vec![i32::MAX, 0]));
}

#[test]
fn melody_span_fits_refuses_a_span_beyond_i32() {
    assert!(!melody_span_fits(&vec![i32::MIN, i32::MAX]));
    assert!(!melody_span_fits(&vec![-1, i32::MAX]));
}

#[test]
fn hint_splits_char_flags_multibyte_accidentals_after_the_tonic() {
    assert!(hint_splits_char("C♯"));
    assert!(hint_splits_char("  b♭ minor"));
    assert!(!hint_splits_char("C#"));
    assert!(!hint_splits_char("Bb"));
    assert!(!hint_splits_char("x♯"));
    assert!(!hint_splits_char("C"));
    assert!(!hint_splits_char(""));
}

#[test]
fn staff_fits_notes_needs_two_rows_of_margin() {
    assert!(staff_fits_notes(&vec![60, 72]));
    assert!(staff_fits_notes(&vec![]));
    assert!(!staff_fits_notes(&vec![i32::MAX - 1]));
    assert!(!staff_fits_notes(&vec![i32::MIN + 1]));
    assert!(staff_fits_notes(&vec![i32::MAX - 2]));
}

#[test]
fn roll_fits_notes_checks_the_widened_rows() {
    assert!(roll_fits_notes(&vec![60, 64], 16, 8));
    assert!(roll_fits_notes(&vec![], 0, 0));
    // A single note at the top is widened by one row above it, which overflows.
    assert!(!roll_fits_notes(&vec![i32::MAX], 8, 4));
    assert!(!roll_fits_notes(&vec![i32::MIN, i32::MAX], 8, 4));
}

#[test]
fn key_splits_at_boundary_follows_the_three_byte_suffix() {
    assert!(key_splits_at_boundary("Cmaj"));
    assert!(key_splits_at_boundary("C"));
    assert!(key_splits_at_boundary("C♯"));
    assert!(!key_splits_at_boundary("C♯m"));
    assert!(key_splits_at_boundary("C♯min"));
}

#[test]
fn gaps_fit_notes_checks_each_step() {
    assert!(gaps_fit_notes(&vec![60, 67, 55]));
    assert!(gaps_fit_notes(&vec![]));
    assert!(gaps_fit_notes(&vec![i32::MIN, -1, i32::MAX - 1]));
    assert!(!gaps_fit_notes(&vec![i32::MIN, i32::MAX]));
}

#[test]
fn errors_come_before_the_span_is_measured() {
    let wide = vec![i32::MIN, i32::MAX];
    assert!(matches!(
        validate_melody(&wide, "12tet".to_string(), 60, ScaleKind::Major, 0),
        Err(MelodyValidationError::NonPositiveInterval)
    ));
    assert!(matches!(analyze_melody(&wide, Some("Q")), Err(AnalysisError::KeyHint(_))));
}
