use music_cli::reharm::{keeps_chord, matches_target, reharm_target, ReharmError};
use music_cli::diff::{
    build_melody_profile, compare_progressions, diff_pitch_classes, explain_diff_progression,
    histogram_distance_parts, intersect_pitch_classes, melody_diff_commentary, render_melody_side, DiffError,
};
use music_cli::explain::pitch_context_in_key;
use music_cli::extrapolate::{chord_context, melody_context, ExtrapolateError};
use music_cli::generate::{
    arpeggio_directions, contour, degree_position, direction_symbol, motif_pattern, pattern_context, rhythm_cell,
    RhythmStep,
};
use music_cli::cli::PatternDensity;
use music_cli::interpolate::{interpolation_context, split_anchor};
use music_cli::cli::InterpolationCurve;
use music_cli::midi_header::{analyze_midi_bytes, inspect_midi_header, midi_diff, midi_summary};
use music_cli::onsets::{midi_note_onsets, wrap_midi_pitches, OnsetError};
use music_cli::output::handle_placeholder;
use music_cli::pitch::build_histogram;
use music_cli::render::{render_piano_roll, render_staff, staff_row_range, PianoRollCharset, RenderError, StaffCharset};
use music_cli::scale_map::{modulatory_path, modulations_to_list, pitch_class_map, pivot_pitch_classes, ScaleDegree, ScaleMap};
use music_cli::score::{score_chord, score_melody, score_progression, ScoreError};
use music_cli::search::{
    chord_pitch_classes, matches_pitch_classes, search_chords, search_scales, select_chord_matches, shifted_pattern,
    ChordSearchMatch, SearchError,
};
use music_cli::theory::{ChordVoicing, ScaleKind};
use music_cli::convert::csv_to_midi;

fn strings(items: &[&str]) -> Vec<String> {
    items.iter().map(|s| s.to_string()).collect()
}

fn root_labels() -> [String; 12] {
    ["C4", "C#4", "D4", "D#4", "E4", "F4", "F#4", "G4", "G#4", "A4", "A#4", "B4"].map(|s| s.to_string())
}

#[test]
fn placeholder_names_the_command() {
    assert_eq!(
        handle_placeholder("resolve").unwrap_err(),
        "`music resolve` is not implemented yet. Use `music resolve --help` to preview its planned behavior."
    );
}

#[test]
fn scale_search_finds_scales_holding_the_notes() {
    let rep = search_scales(&vec![60, 64, 67, 71, 62, 65, 69], "12tet".to_string(), &root_labels(), 3).unwrap();
    assert_eq!(rep.criteria, vec![0, 4, 7, 11, 2, 5, 9]);
    assert_eq!(rep.match_count, 3);
    assert_eq!(
        rep.render_text(),
        "Scale search in 12tet: 3 match(es) for pcs [0, 4, 7, 11, 2, 5, 9].\n  - Ionian rooted at C4 (60).\n  - Major rooted at C4 (60).\n  - Dorian rooted at D4 (62).\n"
    );
    let one = search_scales(&vec![1], "12tet".to_string(), &root_labels(), 1).unwrap();
    assert_eq!(one.match_count, 1);
    assert_eq!(one.matches[0].scale, "Phrygian");
    let none = search_scales(&vec![1], "12tet".to_string(), &root_labels(), 0).unwrap();
    assert_eq!(none.match_count, 0);
    assert!(none.matches.is_empty());
    assert!(matches!(search_scales(&vec![], "x".to_string(), &root_labels(), 5), Err(SearchError::NoNotes)));
}

#[test]
fn chord_search_keeps_matching_candidates_in_order() {
    let cand = |numeral: &str, pcs: Vec<u8>| ChordSearchMatch {
        scale: "Major".to_string(),
        degree: 1,
        numeral: numeral.to_string(),
        root_label: "C4".to_string(),
        pitch_classes: pcs,
    };
    assert!(select_chord_matches(vec![cand("I", vec![0, 4, 7])], &vec![0, 4], 0).is_empty());
    let kept = select_chord_matches(vec![cand("I", vec![0, 4, 7]), cand("ii", vec![2, 5, 9]), cand("vi", vec![0, 4, 9])], &vec![0, 4], 5);
    assert_eq!(kept.len(), 2);
    assert_eq!(kept[1].numeral, "vi");
    let rep = search_chords(&vec![60, 76], "12tet".to_string(), ChordVoicing::Triads, vec![cand("I", vec![0, 4, 7])], 12).unwrap();
    assert_eq!(
        rep.render_text(),
        "Chord search (Triads) in 12tet: 1 match(es) for pcs [0, 4].\n  - Major degree 1 (I) root C4, pcs [0, 4, 7].\n"
    );
    assert_eq!(chord_pitch_classes(&vec![67, 60, 64, 72]), vec![0, 4, 7]);
    assert!(matches_pitch_classes(&vec![0, 4, 7], &vec![7, 0]));
    assert!(!matches_pitch_classes(&vec![0, 4, 7], &vec![1]));
    assert_eq!(shifted_pattern(&[0, 2, 4, 5, 7, 9, 11], 10), vec![10, 0, 2, 3, 5, 7, 9]);
}

#[test]
fn staff_rendering_draws_lines_and_notes() {
    assert_eq!(staff_row_range(&vec![60, 62]).unwrap(), (58, 64));
    let labels: Vec<String> = (58..=64).rev().map(|i| format!("p{i}")).collect();
    let rep = render_staff(&vec![60, 62], "12tet".to_string(), false, None, &labels, strings(&["C4", "D4"])).unwrap();
    assert_eq!(rep.min_index, 58);
    assert_eq!(rep.max_index, 64);
    assert_eq!(rep.rows[0], "         p64 |-----|");
    assert_eq!(rep.rows[2], "         p62 |---o-|");
    assert_eq!(rep.rows[4], "         p60 |-o---|");
    assert_eq!(rep.rows[5], "         p59 |     |");
    let text = rep.render_text();
    assert!(text.starts_with("Staff render (ASCII) for 2 note(s) in 12tet [58..64].\n"));
    assert!(text.ends_with("Notes:\n  • C4\n  • D4\n"));
    assert!(matches!(render_staff(&vec![], "x".to_string(), false, None, &vec![], vec![]), Err(RenderError::NoNotes)));
    assert_eq!(StaffCharset::new(true).note, '●');
}

#[test]
fn piano_roll_spreads_notes_across_columns() {
    let labels: Vec<String> = (0..4).map(|i| format!("r{i}")).collect();
    let rep = render_piano_roll(&vec![60, 61], "12tet".to_string(), 2, 1, false, &labels, vec![]).unwrap();
    assert_eq!((rep.width, rep.height, rep.min_index, rep.max_index), (8, 4, 59, 62));
    assert_eq!(rep.rows[1], "          r1 |       #|");
    assert_eq!(rep.rows[2], "          r2 |#       |");
    assert_eq!(rep.rows[0], "          r0 |        |");
    assert_eq!(rep.render_text().lines().next().unwrap(), "Piano-roll render (8×4) for 2 note(s) in 12tet [59..62].");
    assert_eq!(PianoRollCharset::new(false).note, '#');
}

#[test]
fn progression_diff_splits_and_comments() {
    let (shared, left_only, right_only) = compare_progressions(&strings(&["I", "vi", "IV", "V"]), &strings(&["i", "ii", "V7"]));
    assert_eq!(shared, strings(&["I", "V"]));
    assert_eq!(left_only, strings(&["IV", "VI"]));
    assert_eq!(right_only, strings(&["II"]));
    let rep = explain_diff_progression(&strings(&["I", "IV", "V", "I"]), &strings(&["ii", "V", "vi"]), None).unwrap();
    assert_eq!(
        rep.commentary,
        strings(&["Cadence shift: left V–I vs right V–VI"])
    );
    assert_eq!(
        rep.render_text(),
        "Left progression (4 chords, 3 unique):\n  I → IV → V → I\nRight progression (3 chords, 3 unique):\n  ii → V → vi\nShared chords: V\nLeft-only: I, IV\nRight-only: II, VI\n\n  • Cadence shift: left V–I vs right V–VI\n"
    );
    assert!(matches!(explain_diff_progression(&vec![], &strings(&["I"]), None), Err(DiffError::EmptySide)));
    let none = explain_diff_progression(&strings(&["I"]), &strings(&["V"]), None).unwrap();
    assert_eq!(none.commentary, strings(&["Right progression emphasizes dominant function more", "No shared chords — sequences are fully distinct"]));
}

#[test]
fn melody_profiles_and_histogram_comparisons() {
    let p = build_melody_profile(&vec![60, 64, 67, 72]);
    assert_eq!((p.note_count, p.distinct_pitch_classes, p.ambitus.span), (4, 3, 12));
    let mut out = String::new();
    render_melody_side(&mut out, "Left", &p);
    assert_eq!(
        out,
        "Left — notes 4, distinct pcs 3, ambitus 12 st (lowest 60, highest 72).\n  Histogram:\n    pc  0: 2\n    pc  4: 1\n    pc  7: 1\n"
    );
    let l = build_histogram(&vec![60, 62]);
    let r = build_histogram(&vec![62, 64, 64]);
    assert_eq!(intersect_pitch_classes(&l, &r), vec![2]);
    assert_eq!(diff_pitch_classes(&l, &r), vec![0]);
    assert_eq!(histogram_distance_parts(&l, &r), (3, 5));
    assert_eq!(
        melody_diff_commentary(3, 5, 2, 2, false),
        strings(&["Melodies have markedly different pitch distributions"])
    );
    assert_eq!(
        melody_diff_commentary(0, 4, 2, 5, true),
        strings(&["Histograms are closely aligned", "Ambitus differs: left 2 st, right 5 st", "No shared pitch classes — likely contrasting keys"])
    );
}

#[test]
fn scale_maps_and_modulation_candidates() {
    let degrees: Vec<ScaleDegree> = [0u8, 2, 4, 5, 7, 9, 11, 0]
        .iter()
        .enumerate()
        .map(|(i, pc)| ScaleDegree { degree: i + 1, pitch_class: *pc, label: Some(format!("d{}", i + 1)) })
        .collect();
    let map = pitch_class_map(&degrees);
    assert_eq!(map.len(), 12);
    assert_eq!(map[0].degree, Some(1));
    assert!(!map[1].occupied);
    assert_eq!(pivot_pitch_classes(&vec![0, 2, 4, 5, 7, 9, 11], &vec![2, 4, 6, 7, 9, 11, 1]), vec![2, 4, 7, 9, 11]);
    assert_eq!(modulations_to_list(5, 3), 2);
    assert_eq!(modulations_to_list(1, 0), 0);
    let path = modulatory_path(ScaleKind::Major, 1, 62, None, &vec![0, 2], &vec![2, 3]);
    assert_eq!(path.mode_name.as_deref(), Some("Dorian"));
    assert_eq!(path.pivot_pitch_classes, vec![2]);
    let text = ScaleMap {
        system: "12tet".to_string(),
        root_index: 60,
        root_label: Some("C4".to_string()),
        scale: "Major".to_string(),
        pitch_class_map: map,
        modulatory_paths: vec![path],
    }
    .render_text();
    assert!(text.starts_with("Scale map for Major in 12tet, root 60 (C4).\nPitch-class layout:\n  pc  0 ● degree 1 (d1)\n  pc  1 ·\n"));
    assert!(text.ends_with("\nModulatory paths:\n  Rotation 1: Dorian, root 62, pivots [2].\n"));
}

#[test]
fn scores_count_functions_leaps_and_tension() {
    let s = score_progression(&strings(&["ii", "V", "I"])).unwrap();
    assert_eq!(s.coverage_hits, 3);
    assert_eq!(
        s.commentary,
        strings(&["Balanced tonic→predominant→dominant flow detected", "Cadence V–I lands convincingly"])
    );
    let soft = score_progression(&strings(&["I", "I", "I", "IV", "I"])).unwrap();
    assert_eq!(soft.unique_chords, 2);
    assert_eq!(
        soft.commentary,
        strings(&[
            "Progression touches two primary functions; consider completing the cycle",
            "Cadence present but relatively soft",
            "Consider introducing more harmonic variety"
        ])
    );
    assert!(matches!(score_progression(&strings(&[" "])), Err(ScoreError::Empty)));
    let (m, remarks) = score_melody(&vec![60, 62, 64, 72, 60]).unwrap();
    assert_eq!((m.leaps, m.steps, m.direction_changes, m.span, m.closure_interval), (2, 2, 1, 12, 0));
    assert_eq!(
        remarks,
        strings(&["Frequent leaps add excitement but increase tension", "Closing near the opening pitch provides resolution"])
    );
    let (c, chord_remarks) = score_chord(&vec![60, 64, 67, 70, 86]).unwrap();
    assert_eq!((c.pitch_span, c.unique_pitch_classes, c.extensions, c.tension_tenths), (26, 5, 1, 7));
    assert_eq!(
        chord_remarks,
        strings(&[
            "Includes 1 upper extension(s) for added color",
            "Strong dissonance present — resolve or sustain intentionally",
            "Very wide voicing; ensure ensemble can cover the span"
        ])
    );
    let (_, stable) = score_chord(&vec![60, 64, 67]).unwrap();
    assert_eq!(stable, strings(&["Stable sonority suitable for cadential use"]));
}

#[test]
fn generation_patterns() {
    assert_eq!(motif_pattern(PatternDensity::Sparse), vec![0, 2, 4, 5]);
    assert_eq!(contour(&vec![60, 64, 62]), vec![4, -2]);
    assert_eq!(direction_symbol(0), "hold");
    assert_eq!(arpeggio_directions(&vec![60, 64, 64, 59]), strings(&["root", "up", "hold", "down"]));
    assert_eq!(degree_position(9, 7), (3, 1));
    assert_eq!(degree_position(3, 0), (1, 3));
    let ctx = pattern_context("12tet".to_string(), ScaleKind::Dorian, 62, None, PatternDensity::Dense);
    assert_eq!((ctx.scale.as_str(), ctx.density.as_str()), ("Dorian", "Dense"));
    let (events, length) = rhythm_cell(PatternDensity::Balanced);
    assert_eq!(length, 8);
    assert_eq!(events[1], RhythmStep { beat_halves: 2, duration_halves: 1, accent: true, suggested_degree: 5 });
    assert_eq!(events[2], RhythmStep { beat_halves: 3, duration_halves: 1, accent: false, suggested_degree: 3 });
    let (dense, _) = rhythm_cell(PatternDensity::Dense);
    assert!(dense[1].accent);
}

#[test]
fn pitch_context_and_interpolation_pieces() {
    let ctx = pitch_context_in_key(7, "Cmaj", &root_labels()).unwrap().unwrap();
    assert_eq!((ctx.key.as_str(), ctx.mode.as_str(), ctx.degree), ("C4", "Major", 5));
    assert_eq!((ctx.degree_label.as_str(), ctx.function.as_str()), ("dominant", "dominant"));
    assert!(pitch_context_in_key(1, "Cmaj", &root_labels()).unwrap().is_none());
    assert!(pitch_context_in_key(1, "", &root_labels()).is_err());
    assert_eq!(split_anchor(" 0 : 120 "), Some(("0".to_string(), "120".to_string())));
    assert_eq!(split_anchor("1:2:3"), None);
    let c = interpolation_context(InterpolationCurve::EaseIn, 3, 4);
    assert_eq!((c.curve.as_str(), c.samples), ("EaseIn", 9));
    assert_eq!(interpolation_context(InterpolationCurve::Linear, 3, 0).samples, 3);
}

#[test]
fn extrapolation_contexts() {
    let (pcs, ctx) = melody_context(&vec![60, 62, -1, 64], 2).unwrap();
    assert_eq!(pcs, vec![0, 2, 11, 4]);
    assert_eq!(ctx, vec![11, 4]);
    assert_eq!(melody_context(&vec![60], 1).unwrap_err(), ExtrapolateError::TooShort);
    assert_eq!(melody_context(&vec![], 1).unwrap_err(), ExtrapolateError::NoInput);
    let (prog, last) = chord_context(&strings(&[" I", "", "IV ", "V"]), 1).unwrap();
    assert_eq!(prog, strings(&["I", "IV", "V"]));
    assert_eq!(last, strings(&["V"]));
}

#[test]
fn midi_headers_and_onsets() {
    let (bytes, _) = csv_to_midi("0,0,60,0,10,100\n1,0,64,5,10,100\n", 96, "a".to_string(), "b".to_string()).unwrap();
    let info = inspect_midi_header(&bytes);
    assert!(info.is_standard_midi);
    assert_eq!((info.header_format, info.declared_tracks, info.ticks_per_quarter, info.detected_tracks), (Some(1), Some(2), Some(96), 2));
    let rep = analyze_midi_bytes("song.mid".to_string(), 40, &bytes, Some("Cmaj".to_string()));
    assert_eq!(
        rep.render_text(),
        "MIDI file: song.mid (40 bytes).\nStandard MIDI header detected.\nDeclared format: 1, tracks: Some(2), detected chunks: 2.\nTicks per quarter note: 96.\nContext key hint: Cmaj.\n"
    );
    let bad = analyze_midi_bytes("x".to_string(), 3, b"abc", None);
    assert_eq!(bad.render_text(), "MIDI file: x (3 bytes).\nUnknown/invalid MIDI header.\nDetected track chunks: 0.\n");
    let diff = midi_diff(midi_summary("a.mid".to_string(), 40, &bytes), midi_summary("b".to_string(), 3, b"MTrk"));
    assert_eq!((diff.size_delta, diff.track_delta), (37, 1));
    assert_eq!(diff.commentary.len(), 3);
    assert!(diff.render_text().starts_with("MIDI diff — size Δ 37 bytes, track Δ 1.\nLeft: a.mid (40 bytes, fmt Some(1), declared Some(2), detected 2).\n  TPQ: 96.\n  Standard MIDI header: yes.\nRight: b (3 bytes, fmt None, declared None, detected 1).\n  Standard MIDI header: no.\n\n- Header format differs\n"));
    let (onsets, tpb) = midi_note_onsets(&bytes).unwrap();
    assert_eq!(onsets, vec![(60, 0), (64, 5)]);
    assert_eq!(tpb, 96);
    assert_eq!(midi_note_onsets(b"junk").unwrap_err(), OnsetError::Parse);
    assert_eq!(wrap_midi_pitches(&vec![-1, 128, 60]), vec![127, 0, 60]);
}

#[test]
fn reharmonization_choices() {
    assert_eq!(reharm_target(None, 7), Ok(None));
    assert_eq!(reharm_target(Some(7), 7), Ok(Some(6)));
    assert_eq!(reharm_target(Some(0), 7), Err(ReharmError::DegreeOutOfRange { degree: 0, step_count: 7 }));
    assert_eq!(reharm_target(Some(1), 0), Err(ReharmError::NoSteps));
    assert!(keeps_chord(None, None));
    assert!(keeps_chord(Some(60), Some(60)));
    assert!(!keeps_chord(Some(60), Some(62)));
    assert!(!matches_target(None, Some(60)));
    assert!(matches_target(Some(60), Some(60)));
}
