use music_cli::convert::{csv_to_midi, midi_to_csv, ConvertError, MidiConversionDirection};
use music_cli::csv::{parse_csv_rows_str, CsvField, CsvProblem};
use music_cli::midi::MidiCsvRow;
use music_cli::smf::{build_smf, PlannedEvent, SmfFormat};

fn row(track: u16, channel: u8, note: u8, start: u32, end: u32, velocity: u8) -> MidiCsvRow {
    MidiCsvRow {
        track,
        channel,
        note,
        start_tick: start,
        end_tick: end,
        duration_tick: end - start,
        velocity,
    }
}

#[test]
fn parse_csv_rows_str_handles_header_and_values() {
    let rows = parse_csv_rows_str("track,channel,note,start_tick,end_tick,velocity\n0,1,60,0,480,100\n").unwrap();
    assert_eq!(rows.len(), 1);
    let row = &rows[0];
    assert_eq!(row.track, 0);
    assert_eq!(row.channel, 1);
    assert_eq!(row.note, 60);
    assert_eq!(row.duration_tick, 480);
}

#[test]
fn build_smf_emits_parallel_format_when_multiple_tracks() {
    let rows = vec![
        MidiCsvRow { track: 0, channel: 0, note: 60, start_tick: 0, end_tick: 120, duration_tick: 120, velocity: 100 },
        MidiCsvRow { track: 1, channel: 1, note: 64, start_tick: 0, end_tick: 120, duration_tick: 120, velocity: 90 },
    ];
    let smf = build_smf(&rows, 480);
    assert_eq!(smf.tracks.len(), 2);
    assert_eq!(smf.format, SmfFormat::Parallel);
}

#[test]
fn csv_skips_comments_blank_lines_and_trims_columns() {
    let rows = parse_csv_rows_str("# notes\n\n 1 , 2 , +64 , 10 , 30 , 90 , extra\r\n").unwrap();
    assert_eq!(rows, vec![row(1, 2, 64, 10, 30, 90)]);
}

#[test]
fn csv_header_is_only_skipped_on_the_first_line() {
    let err = parse_csv_rows_str("0,0,60,0,10,100\nTrack,channel,note,start,end,vel\n").unwrap_err();
    assert_eq!(err.line, 2);
    assert_eq!(err.problem, CsvProblem::Invalid(CsvField::Track));
    assert_eq!(err.message(), "line 2: invalid track");
}

#[test]
fn csv_reports_each_kind_of_problem() {
    let cases = [
        ("0,0,60,0,10", CsvProblem::TooFewColumns),
        ("70000,0,60,0,10,100", CsvProblem::Invalid(CsvField::Track)),
        ("0,256,60,0,10,100", CsvProblem::Invalid(CsvField::Channel)),
        ("0,0,-1,0,10,100", CsvProblem::Invalid(CsvField::Note)),
        ("0,0,60,x,10,100", CsvProblem::Invalid(CsvField::StartTick)),
        ("0,0,60,0,,100", CsvProblem::Invalid(CsvField::EndTick)),
        ("0,0,60,20,10,999", CsvProblem::EndBeforeStart),
        ("0,0,60,0,10,300", CsvProblem::Invalid(CsvField::Velocity)),
    ];
    for (line, problem) in cases {
        let err = parse_csv_rows_str(line).unwrap_err();
        assert_eq!(err.line, 1);
        assert_eq!(err.problem, problem);
    }
    let err = parse_csv_rows_str("0,0,60,0,10").unwrap_err();
    assert_eq!(
        err.message(),
        "line 1: expected at least 6 columns (track,channel,note,start_tick,end_tick,velocity)"
    );
    let err = parse_csv_rows_str("0,0,60,20,10,1").unwrap_err();
    assert_eq!(err.message(), "line 1: end_tick must be greater than or equal to start_tick");
}

#[test]
fn build_smf_orders_events_and_computes_deltas() {
    let rows = vec![row(0, 20, 200, 100, 200, 200), row(0, 1, 60, 0, 100, 80)];
    let plan = build_smf(&rows, 0);
    assert_eq!(plan.format, SmfFormat::SingleTrack);
    assert_eq!(plan.ticks_per_quarter, 1);
    assert_eq!(
        plan.tracks[0],
        vec![
            PlannedEvent::NoteOn { delta: 0, channel: 1, key: 60, vel: 80 },
            PlannedEvent::NoteOff { delta: 100, channel: 1, key: 60, vel: 0 },
            PlannedEvent::NoteOn { delta: 0, channel: 15, key: 127, vel: 127 },
            PlannedEvent::NoteOff { delta: 100, channel: 15, key: 127, vel: 0 },
            PlannedEvent::EndOfTrack { delta: 0 },
        ]
    );
}

#[test]
fn build_smf_without_rows_has_one_empty_track() {
    let plan = build_smf(&vec![], 96);
    assert_eq!(plan.tracks, vec![vec![PlannedEvent::EndOfTrack { delta: 0 }]]);
    assert_eq!(plan.format, SmfFormat::SingleTrack);
    assert_eq!(plan.ticks_per_quarter, 96);
}

#[test]
fn build_smf_puts_tracks_in_ascending_order() {
    let rows = vec![row(5, 0, 60, 0, 10, 1), row(2, 0, 62, 0, 10, 1), row(5, 0, 64, 0, 10, 1)];
    let plan = build_smf(&rows, 480);
    assert_eq!(plan.tracks.len(), 2);
    assert_eq!(plan.tracks[0][0], PlannedEvent::NoteOn { delta: 0, channel: 0, key: 62, vel: 1 });
    assert_eq!(plan.tracks[1].len(), 5);
}

#[test]
fn csv_to_midi_and_back_keeps_the_notes() {
    let table = "track,channel,note,start_tick,end_tick,velocity\n0,0,60,0,480,100\n0,0,64,480,960,90\n1,2,67,0,960,70\n";
    let (bytes, report) = csv_to_midi(table, 480, "in.csv".to_string(), "out.mid".to_string()).unwrap();
    assert_eq!(&bytes[0..4], b"MThd");
    assert_eq!(report.direction, MidiConversionDirection::CsvToMidi);
    assert_eq!(report.note_count, 3);
    assert_eq!(
        report.render_text(),
        "Wrote 3 note(s) to out.mid (PPQ 480).\nPreview of first 3 row(s): track,channel,note,start_tick,end_tick,duration_tick,velocity\n0,0,60,0,480,480,100\n0,0,64,480,960,480,90\n1,2,67,0,960,960,70\n"
    );
    let back = midi_to_csv(&bytes, "out.mid".to_string(), None).unwrap();
    assert_eq!(back.ticks_per_quarter, Some(480));
    assert_eq!(back.rows, vec![row(0, 0, 60, 0, 480, 100), row(0, 0, 64, 480, 960, 90), row(1, 2, 67, 0, 960, 70)]);
    assert!(!back.truncated);
}

#[test]
fn midi_to_csv_truncates_to_max_rows() {
    let table = "0,0,60,0,10,100\n0,0,62,10,20,100\n0,0,64,20,30,100\n";
    let (bytes, _) = csv_to_midi(table, 96, "a".to_string(), "b".to_string()).unwrap();
    let rep = midi_to_csv(&bytes, "b".to_string(), Some(2)).unwrap();
    assert!(rep.truncated);
    assert_eq!(rep.note_count, 3);
    assert_eq!(rep.emitted_rows, 2);
    assert_eq!(
        rep.render_text(),
        "track,channel,note,start_tick,end_tick,duration_tick,velocity\n0,0,60,0,10,10,100\n0,0,62,10,20,10,100\n# truncated 1 additional row(s); re-run with --max-rows=<larger> to emit all\n"
    );
}

#[test]
fn conversion_errors() {
    assert!(matches!(midi_to_csv(b"not midi", "x".to_string(), None), Err(ConvertError::MidiParse)));
    assert!(matches!(csv_to_midi("# nothing\n", 480, "a".to_string(), "b".to_string()), Err(ConvertError::NoRows)));
    match csv_to_midi("1,2,3\n", 480, "a".to_string(), "b".to_string()) {
        Err(ConvertError::Csv(e)) => assert_eq!(e.problem, CsvProblem::TooFewColumns),
        _ => panic!("expected a CSV error"),
    }
    assert_eq!(ConvertError::NoRows.message(), "CSV file does not contain any note rows");
}
