use music_cli::analysis::{analyze_chords, analyze_melody, histogram_bins, AnalysisError, PitchClassBin};
use music_cli::key::{infer_key, parse_key_hint, KeyHintError, ModeFlavor};
use music_cli::pitch::{build_histogram, melody_range, normalize_pitch_class, normalize_pitch_classes, pitch_class_name};
use music_cli::resolve::{distance_signed, nearest_triad_pc, parse_key_to_pc, resolve_chord, resolve_notes, ResolveError};
use music_cli::roman::{
    classify_function, detect_cadence, diatonic_degree_label, is_valid_roman, normalize_roman, roman_for_degree,
    roman_numeral, FunctionRole,
};
use music_cli::theory::{ChordVoicing, ScaleKind};
use music_cli::validation::{validate_melody, validate_progression, MelodyValidationError};

fn strings(items: &[&str]) -> Vec<String> {
    items.iter().map(|s| s.to_string()).collect()
}

#[test]
fn scale_kinds_and_mode_names() {
    assert_eq!(ScaleKind::all().len(), 12);
    assert_eq!(ScaleKind::Dorian.pitch_classes(), [0, 2, 3, 5, 7, 9, 10]);
    assert_eq!(ScaleKind::Major.mode_name_for_rotation(1), Some("Dorian"));
    assert_eq!(ScaleKind::Aeolian.mode_name_for_rotation(1), Some("Locrian"));
    assert_eq!(ScaleKind::Aeolian.mode_name_for_rotation(2), Some("Ionian"));
    assert_eq!(ScaleKind::HarmonicMinor.mode_name_for_rotation(4), Some("Phrygian Dominant"));
    assert_eq!(ScaleKind::MelodicMinor.mode_name_for_rotation(13), Some("Altered"));
    assert_eq!(ScaleKind::Lydian.diatonic_rotation_offset(), Some(3));
    assert_eq!(ScaleKind::MelodicMinor.diatonic_rotation_offset(), None);
    assert_eq!(ScaleKind::NaturalMinor.name(), "NaturalMinor");
    assert_eq!(ChordVoicing::Sevenths.name(), "Sevenths");
}

#[test]
fn pitch_classes_and_histograms() {
    assert_eq!(normalize_pitch_class(-1), 11);
    assert_eq!(normalize_pitch_class(61), 1);
    assert_eq!(normalize_pitch_classes(&vec![60, 72, 64, -8, 67]), vec![0, 4, 7]);
    let h = build_histogram(&vec![60, 62, 64, 72, -12]);
    assert_eq!(h[0], 3);
    assert_eq!(h.iter().sum::<usize>(), 5);
    assert_eq!(
        histogram_bins(&h),
        vec![
            PitchClassBin { pitch_class: 0, count: 3 },
            PitchClassBin { pitch_class: 2, count: 1 },
            PitchClassBin { pitch_class: 4, count: 1 },
        ]
    );
    assert_eq!(melody_range(&vec![64, 60, 67]), (60, 67));
    assert_eq!(melody_range(&vec![]), (i32::MAX, i32::MIN));
    assert_eq!(pitch_class_name(6), "F♯/G♭");
}

#[test]
fn roman_numerals_normalise_and_classify() {
    assert_eq!(normalize_roman("bVII7"), "VII");
    assert_eq!(normalize_roman("ii°"), "II");
    assert_eq!(normalize_roman("V/V"), "V");
    assert_eq!(normalize_roman("7"), "UNK");
    assert_eq!(classify_function("vi"), FunctionRole::Tonic);
    assert_eq!(classify_function("IV"), FunctionRole::Predominant);
    assert_eq!(classify_function("viiø7"), FunctionRole::Dominant);
    assert_eq!(classify_function("X"), FunctionRole::Other);
    assert!(is_valid_roman("IV"));
    assert!(!is_valid_roman("iv"));
    assert!(!is_valid_roman("VIII"));
    assert_eq!(roman_numeral(4), "V");
    assert_eq!(roman_for_degree(8), "II");
    assert_eq!(diatonic_degree_label(6), "leading tone");
}

#[test]
fn cadences_are_detected_at_the_end() {
    let c = detect_cadence(&strings(&["I", "IV", "V7", "I"])).unwrap();
    assert_eq!(c.pattern, "V–I");
    assert_eq!(c.description, "Authentic cadence");
    assert_eq!(c.confidence_pct, 92);
    assert_eq!(detect_cadence(&strings(&["IV", "I"])).unwrap().confidence_pct, 80);
    assert_eq!(detect_cadence(&strings(&["V", "vi"])).unwrap().pattern, "V–VI");
    assert!(detect_cadence(&strings(&["I", "V"])).is_none());
    assert!(detect_cadence(&strings(&["I"])).is_none());
}

#[test]
fn key_hints_and_key_inference() {
    assert_eq!(parse_key_hint("Cmaj").unwrap(), (0, ModeFlavor::Major));
    assert_eq!(parse_key_hint("F#m").unwrap(), (6, ModeFlavor::Minor));
    assert_eq!(parse_key_hint(" Bb minor ").unwrap(), (10, ModeFlavor::Minor));
    assert!(matches!(parse_key_hint("  "), Err(KeyHintError::Empty)));
    assert!(matches!(parse_key_hint("Hmaj"), Err(KeyHintError::UnknownTonic(_))));
    let h = build_histogram(&vec![60, 62, 64, 65, 67, 69, 71, 72]);
    let k = infer_key(&h, 8, None).unwrap();
    assert_eq!((k.root_pc, k.mode, k.matches), (0, ModeFlavor::Major, 8));
    let forced = infer_key(&h, 8, Some("Amin")).unwrap();
    assert_eq!((forced.root_pc, forced.mode, forced.enforced), (9, ModeFlavor::Minor, true));
}

#[test]
fn melody_and_chord_analysis() {
    let a = analyze_melody(&vec![60, 62, 64, 66], None).unwrap();
    assert_eq!(a.note_count, 4);
    assert_eq!(a.distinct_pitch_classes, 4);
    assert_eq!((a.ambitus.lowest, a.ambitus.highest, a.ambitus.span), (60, 66, 6));
    assert_eq!(a.best_key.matches, 4);
    assert_eq!((a.best_key.root_pc, a.tonic_index, a.best_key.enforced), (7, 67, false));
    let hinted = analyze_melody(&vec![60, 64], Some("Am")).unwrap();
    assert_eq!((hinted.best_key.root_pc, hinted.tonic_index, hinted.best_key.enforced), (9, 69, true));
    assert!(matches!(analyze_melody(&vec![], None), Err(AnalysisError::EmptyInput)));
    assert!(matches!(analyze_melody(&vec![60], Some("Q")), Err(AnalysisError::KeyHint(_))));
    let c = analyze_chords(&strings(&[" ii ", "", "V", "I", "i"]), None).unwrap();
    assert_eq!(c.progression, strings(&["ii", "V", "I", "i"]));
    assert_eq!(c.unique_chords, 3);
    assert_eq!((c.function_counts.tonic, c.function_counts.predominant, c.function_counts.dominant), (2, 1, 1));
    assert!(c.cadence.is_none());
    assert_eq!(
        c.render_text(),
        "Chord progression (4 chords, 3 unique):\n  ii → V → I → i\nFunctional counts: tonic 2, predominant 1, dominant 1, other 0.\nCadence: none detected.\n"
    );
    let cad = analyze_chords(&strings(&["IV", "I"]), Some("Cmaj".to_string())).unwrap();
    assert!(cad.render_text().ends_with("Cadence: IV–I — Plagal cadence (confidence 80%).\nContext key hint: Cmaj.\n"));
    assert!(matches!(analyze_chords(&strings(&[" ", ""]), None), Err(AnalysisError::EmptyInput)));
}

#[test]
fn melody_validation_reports_issues() {
    let rep = validate_melody(&vec![60, 61, 76], "12tet".to_string(), 60, ScaleKind::Major, 12).unwrap();
    assert_eq!(rep.out_of_scale_notes.len(), 1);
    assert_eq!(rep.out_of_scale_notes[0].pitch_class, 1);
    assert_eq!(rep.leap_violations.len(), 1);
    assert_eq!(rep.leap_violations[0].interval, 15);
    assert_eq!(
        rep.render_text(),
        "Melody validation in 12tet — Major scale (root 60, 3 note(s)).\nAmbitus: 16 semitone(s) [60 → 76]. Max interval allowed: ±12.\nAllowed pitch classes (relative to root): [0, 2, 4, 5, 7, 9, 11]\n1 note(s) fall outside the implied scale:\n  • idx 61 (pc 1) at position 2\n1 leap violation(s) exceed ±12 semitone(s):\n  • pos 2: 61 → 76 (+15 st)\n"
    );
    assert!(matches!(
        validate_melody(&vec![], "x".to_string(), 60, ScaleKind::Major, 12),
        Err(MelodyValidationError::EmptyNotes)
    ));
    assert!(matches!(
        validate_melody(&vec![60], "x".to_string(), 60, ScaleKind::Major, 0),
        Err(MelodyValidationError::NonPositiveInterval)
    ));
    let clean = validate_melody(&vec![60, 62], "12tet".to_string(), 60, ScaleKind::Major, 12).unwrap();
    assert!(clean.render_text().ends_with("No validation issues detected.\n"));
}

#[test]
fn progression_validation_reports_tokens() {
    let rep = validate_progression(&strings(&["I", "I", "Xyz", "V", "I"]), Some("Cmaj".to_string())).unwrap();
    assert_eq!(
        rep.render_text(),
        "Progression validation (5 chord(s)).\nKey hint: Cmaj.\n1 invalid chord token(s) found:\n  • pos 3: 'Xyz' (normalized 'XYZ')\nAdjacent duplicates at positions: [1].\nFunction counts — tonic 3, predominant 0, dominant 1, other 1.\nDetected cadence V–I (Authentic cadence, confidence 92%).\n"
    );
    assert!(validate_progression(&strings(&[""]), None).is_err());
}

#[test]
fn resolution_toward_the_tonic_triad() {
    assert_eq!(parse_key_to_pc("Cmaj"), Some((0, false)));
    assert_eq!(parse_key_to_pc("C#min"), Some((1, true)));
    assert_eq!(parse_key_to_pc("H"), None);
    assert_eq!(distance_signed(11, 0), 1);
    assert_eq!(distance_signed(0, 7), -5);
    assert_eq!(nearest_triad_pc(5, &[0, 4, 7]), (4, -1));
    let rep = resolve_chord("Cmaj".to_string(), "12tet".to_string(), "V7".to_string()).unwrap();
    assert_eq!(rep.input_description, "Chord V7");
    assert_eq!(rep.resolutions.len(), 4);
    assert_eq!((rep.resolutions[1].from_pc, rep.resolutions[1].to_pc, rep.resolutions[1].semitones), (11, 0, 1));
    assert_eq!(
        rep.render_text(),
        "Resolution in Cmaj (12tet) — Chord V7 → I:\nSuggested voice-leading:\n  pc 7   → pc 7    (stay +0 st)\n  pc 11  → pc 0    (up +1 st)\n  pc 2   → pc 0    (down -2 st)\n  pc 5   → pc 4    (down -1 st)\n"
    );
    let notes = resolve_notes("Amin".to_string(), "12tet".to_string(), &vec![59, 62]).unwrap();
    assert_eq!(notes.input_description, "Notes 59,62");
    assert_eq!(notes.target_description, "i");
    assert!(matches!(resolve_notes("Cmaj".to_string(), "x".to_string(), &vec![]), Err(ResolveError::EmptyNotes)));
    assert!(matches!(resolve_chord("Zmaj".to_string(), "x".to_string(), "V".to_string()), Err(ResolveError::InvalidKey(_))));
}
