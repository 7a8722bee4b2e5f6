//! Converting between Standard MIDI Files and CSV note tables, and the reports of it.

use vstd::prelude::*;
use crate::csv::{csv_table, parse_csv_rows_str, CsvError};
use crate::midi::{
    extract_midi_rows, file_rows, parse_smf, smf_model, sort_rows, sorted_rows, MidiCsvRow, MidiFile,
};
use crate::smf::{build_smf, encode_smf, plan_of, smf_encoding};
use crate::text::{concat_map, dec_nat, push_nat};

verus! {

/// Which way a conversion went.
#[derive(Clone, Copy, Debug, PartialEq, Eq, Structural)]
pub enum MidiConversionDirection {
    MidiToCsv,
    CsvToMidi,
}

/// The outcome of a conversion between a MIDI file and a note table.
pub struct MidiCsvConversionReport {
    pub direction: MidiConversionDirection,
    pub source: String,
    pub destination: Option<String>,
    /// The number of notes found.
    pub note_count: usize,
    /// The number of notes emitted.
    pub emitted_rows: usize,
    pub truncated: bool,
    pub ticks_per_quarter: Option<u16>,
    /// The rows shown in the report.
    pub rows: Vec<MidiCsvRow>,
}

/// Why a conversion failed.
#[derive(Clone, Copy, Debug, PartialEq, Eq, Structural)]
pub enum ConvertError {
    /// The bytes are not a MIDI file that the parser accepts.
    MidiParse,
    /// The note table has a bad line.
    Csv(CsvError),
    /// The note table holds no notes.
    NoRows,
    /// The encoder refused the rebuilt file.
    Encode,
}

impl ConvertError {
    /// The message of this error.
    pub open spec fn text(&self) -> Seq<char> {
        match self {
            ConvertError::MidiParse => "failed to parse MIDI file"@,
            ConvertError::Csv(e) => e.text(),
            ConvertError::NoRows => "CSV file does not contain any note rows"@,
            ConvertError::Encode => "failed to serialize MIDI data"@,
        }
    }

    /// The message of this error.
    pub fn message(&self) -> (s: String)
        ensures
            s@ == self.text(),
    {
        match self {
            ConvertError::MidiParse => String::from_str("failed to parse MIDI file"),
            ConvertError::Csv(e) => e.message(),
            ConvertError::NoRows => String::from_str("CSV file does not contain any note rows"),
            ConvertError::Encode => String::from_str("failed to serialize MIDI data"),
        }
    }
}

/// `rows` cut to at most `max_rows` rows, and whether anything was cut.
pub open spec fn limit_rows(rows: Seq<MidiCsvRow>, max_rows: Option<usize>) -> (Seq<MidiCsvRow>, bool) {
    match max_rows {
        Some(limit) => if rows.len() > limit {
            (rows.take(limit as int), true)
        } else {
            (rows, false)
        },
        None => (rows, false),
    }
}

/// The report of reading a parsed MIDI file as a note table: every note of every track,
/// sorted by track, start tick and note, cut to `max_rows` rows when there are more.
pub fn midi_csv_report(file: &MidiFile, source: String, max_rows: Option<usize>) -> (rep: MidiCsvConversionReport)
    ensures
        ({
            let all = sorted_rows(file_rows(file.model().1));
            let (shown, cut) = limit_rows(all, max_rows);
            &&& rep.direction == MidiConversionDirection::MidiToCsv
            &&& rep.source@ == source@
            &&& rep.destination is None
            &&& rep.note_count == all.len()
            &&& rep.rows@ == shown
            &&& rep.emitted_rows == shown.len()
            &&& rep.truncated == cut
            &&& rep.ticks_per_quarter == file.model().0
        }),
{
    let found = extract_midi_rows(file);
    let rows = sort_rows(&found);
    let note_count = rows.len();
    let mut shown = rows;
    let mut truncated = false;
    if let Some(limit) = max_rows {
        if shown.len() > limit {
            shown.truncate(limit);
            truncated = true;
        }
    }
    MidiCsvConversionReport {
        direction: MidiConversionDirection::MidiToCsv,
        source,
        destination: None,
        note_count,
        emitted_rows: shown.len(),
        truncated,
        ticks_per_quarter: file.ticks_per_quarter,
        rows: shown,
    }
}

/// Reads the bytes of a MIDI file as a note table (see `midi_csv_report`); fails when
/// the parser rejects the bytes.
pub fn midi_to_csv(bytes: &[u8], source: String, max_rows: Option<usize>) -> (r: Result<MidiCsvConversionReport, ConvertError>)
    ensures
        match smf_model(bytes@) {
            None => r == Err::<MidiCsvConversionReport, ConvertError>(ConvertError::MidiParse),
            Some((tpq, tracks)) => r matches Ok(rep) && {
                let all = sorted_rows(file_rows(tracks));
                let (shown, cut) = limit_rows(all, max_rows);
                &&& rep.direction == MidiConversionDirection::MidiToCsv
                &&& rep.source@ == source@
                &&& rep.destination is None
                &&& rep.note_count == all.len()
                &&& rep.rows@ == shown
                &&& rep.emitted_rows == shown.len()
                &&& rep.truncated == cut
                &&& rep.ticks_per_quarter == tpq
            },
        },
{
    match parse_smf(bytes) {
        None => Err(ConvertError::MidiParse),
        Some(file) => Ok(midi_csv_report(&file, source, max_rows)),
    }
}

/// The report of writing a note table as a MIDI file: all rows counted, the first 16 shown.
pub fn csv_midi_report(rows: &Vec<MidiCsvRow>, ticks_per_quarter: u16, source: String, destination: String) -> (rep: MidiCsvConversionReport)
    ensures
        rep.direction == MidiConversionDirection::CsvToMidi,
        rep.source@ == source@,
        rep.destination matches Some(d) && d@ == destination@,
        rep.note_count == rows.len(),
        rep.emitted_rows == rows.len(),
        !rep.truncated,
        rep.ticks_per_quarter == Some(ticks_per_quarter),
        rep.rows@ == rows@.take(if rows.len() < 16 { rows.len() as int } else { 16 }),
{
    let mut shown: Vec<MidiCsvRow> = Vec::new();
    let n = if rows.len() < 16 {
        rows.len()
    } else {
        16
    };
    for i in 0..n
        invariant
            n <= rows.len(),
            shown@ == rows@.take(i as int),
    {
        shown.push(rows[i]);
        assert(shown@ =~= rows@.take(i + 1));
    }
    MidiCsvConversionReport {
        direction: MidiConversionDirection::CsvToMidi,
        source,
        destination: Some(destination),
        note_count: rows.len(),
        emitted_rows: rows.len(),
        truncated: false,
        ticks_per_quarter: Some(ticks_per_quarter),
        rows: shown,
    }
}

/// Turns a note table into the bytes of a MIDI file and the report of it. The rows are
/// sorted by track, start tick and note before the file is planned (see `build_smf`).
/// Fails on a bad line, on a table without notes, and when the encoder refuses the file.
pub fn csv_to_midi(contents: &str, ticks_per_quarter: u16, source: String, destination: String) -> (r: Result<(Vec<u8>, MidiCsvConversionReport), ConvertError>)
    ensures
        match csv_table(contents@) {
            Err((line, problem)) => r matches Err(ConvertError::Csv(e)) && e.line == line + 1 && e.problem == problem,
            Ok(rows) => if rows.len() == 0 {
                r == Err::<(Vec<u8>, MidiCsvConversionReport), ConvertError>(ConvertError::NoRows)
            } else {
                let plan = plan_of(sorted_rows(rows), ticks_per_quarter);
                match smf_encoding(plan.0, plan.1, plan.2) {
                    None => r == Err::<(Vec<u8>, MidiCsvConversionReport), ConvertError>(ConvertError::Encode),
                    Some(bytes) => r matches Ok((b, rep)) && {
                        &&& b@ == bytes
                        &&& rep.direction == MidiConversionDirection::CsvToMidi
                        &&& rep.source@ == source@
                        &&& rep.destination matches Some(d) && d@ == destination@
                        &&& rep.note_count == rows.len()
                        &&& rep.emitted_rows == rows.len()
                        &&& !rep.truncated
                        &&& rep.ticks_per_quarter == Some(ticks_per_quarter)
                        &&& rep.rows@ == rows.take(if rows.len() < 16 { rows.len() as int } else { 16 })
                    },
                }
            },
        },
{
    let rows = match parse_csv_rows_str(contents) {
        Ok(rows) => rows,
        Err(e) => return Err(ConvertError::Csv(e)),
    };
    if rows.len() == 0 {
        return Err(ConvertError::NoRows);
    }
    let grouped = sort_rows(&rows);
    let plan = build_smf(&grouped, ticks_per_quarter);
    match encode_smf(&plan) {
        None => Err(ConvertError::Encode),
        Some(bytes) => Ok((bytes, csv_midi_report(&rows, ticks_per_quarter, source, destination))),
    }
}

/// A note-table line: `track,channel,note,start_tick,end_tick,duration_tick,velocity`.
pub open spec fn row_line(r: MidiCsvRow) -> Seq<char> {
    dec_nat(r.track as nat) + ","@ + dec_nat(r.channel as nat) + ","@ + dec_nat(r.note as nat) + ","@
        + dec_nat(r.start_tick as nat) + ","@ + dec_nat(r.end_tick as nat) + ","@ + dec_nat(
        r.duration_tick as nat,
    ) + ","@ + dec_nat(r.velocity as nat) + "\n"@
}

fn push_row_line(out: &mut String, r: &MidiCsvRow)
    ensures
        final(out)@ == old(out)@ + row_line(*r),
{
    let ghost start = out@;
    push_nat(out, r.track as u128);
    out.append(",");
    push_nat(out, r.channel as u128);
    out.append(",");
    push_nat(out, r.note as u128);
    out.append(",");
    push_nat(out, r.start_tick as u128);
    out.append(",");
    push_nat(out, r.end_tick as u128);
    out.append(",");
    push_nat(out, r.duration_tick as u128);
    out.append(",");
    push_nat(out, r.velocity as u128);
    out.append("\n");
    assert(out@ =~= start + row_line(*r));
}

fn push_row_lines(out: &mut String, rows: &Vec<MidiCsvRow>, n: usize)
    requires
        n <= rows.len(),
    ensures
        final(out)@ == old(out)@ + concat_map(rows@.take(n as int), |r: MidiCsvRow| row_line(r)),
{
    let ghost start = out@;
    for i in 0..n
        invariant
            n <= rows.len(),
            out@ == start + concat_map(rows@.take(i as int), |r: MidiCsvRow| row_line(r)),
    {
        push_row_line(out, &rows[i]);
        assert(rows@.take(i + 1).drop_last() =~= rows@.take(i as int));
        assert(out@ =~= start + concat_map(rows@.take(i + 1), |r: MidiCsvRow| row_line(r)));
    }
}

impl MidiCsvConversionReport {
    /// The rows as a note table, with a closing comment when rows were left out.
    pub open spec fn csv_text(&self) -> Seq<char> {
        "track,channel,note,start_tick,end_tick,duration_tick,velocity\n"@ + concat_map(
            self.rows@,
            |r: MidiCsvRow| row_line(r),
        ) + if self.truncated {
            "# truncated "@ + dec_nat(
                if self.note_count >= self.rows.len() {
                    (self.note_count - self.rows.len()) as nat
                } else {
                    0
                },
            ) + " additional row(s); re-run with --max-rows=<larger> to emit all\n"@
        } else {
            Seq::empty()
        }
    }

    /// The number of rows previewed in a summary: at most 16.
    pub open spec fn preview_count(&self) -> nat {
        if self.rows.len() < 16 {
            self.rows.len() as nat
        } else {
            16
        }
    }

    /// A summary of a written file, with a preview of the first rows.
    pub open spec fn summary_text(&self) -> Seq<char> {
        "Wrote "@ + dec_nat(self.note_count as nat) + " note(s) to "@ + match self.destination {
            Some(d) => d@,
            None => "(not written)"@,
        } + " (PPQ "@ + match self.ticks_per_quarter {
            Some(t) => dec_nat(t as nat),
            None => "unknown"@,
        } + ").\n"@ + if self.preview_count() > 0 {
            "Preview of first "@ + dec_nat(self.preview_count())
                + " row(s): track,channel,note,start_tick,end_tick,duration_tick,velocity\n"@ + concat_map(
                self.rows@.take(self.preview_count() as int),
                |r: MidiCsvRow| row_line(r),
            )
        } else {
            Seq::empty()
        }
    }

    /// The text rendering: the note table after reading a MIDI file, the summary after writing one.
    pub open spec fn text(&self) -> Seq<char> {
        match self.direction {
            MidiConversionDirection::MidiToCsv => self.csv_text(),
            MidiConversionDirection::CsvToMidi => self.summary_text(),
        }
    }

    /// Renders the rows as a note table (see `csv_text`).
    pub fn render_as_csv(&self) -> (out: String)
        ensures
            out@ == self.csv_text(),
    {
        let mut out = String::new();
        out.append("track,channel,note,start_tick,end_tick,duration_tick,velocity\n");
        push_row_lines(&mut out, &self.rows, self.rows.len());
        assert(self.rows@.take(self.rows.len() as int) =~= self.rows@);
        if self.truncated {
            let remaining = if self.note_count >= self.rows.len() {
                self.note_count - self.rows.len()
            } else {
                0
            };
            out.append("# truncated ");
            push_nat(&mut out, remaining as u128);
            out.append(" additional row(s); re-run with --max-rows=<larger> to emit all\n");
        }
        out
    }

    /// Renders the summary of a written file (see `summary_text`).
    pub fn render_csv_to_midi_summary(&self) -> (out: String)
        ensures
            out@ == self.summary_text(),
    {
        let mut out = String::new();
        out.append("Wrote ");
        push_nat(&mut out, self.note_count as u128);
        out.append(" note(s) to ");
        match &self.destination {
            Some(d) => out.append(d.as_str()),
            None => out.append("(not written)"),
        }
        out.append(" (PPQ ");
        match self.ticks_per_quarter {
            Some(t) => push_nat(&mut out, t as u128),
            None => out.append("unknown"),
        }
        out.append(").\n");
        let preview = if self.rows.len() < 16 {
            self.rows.len()
        } else {
            16
        };
        if preview > 0 {
            out.append("Preview of first ");
            push_nat(&mut out, preview as u128);
            out.append(" row(s): track,channel,note,start_tick,end_tick,duration_tick,velocity\n");
            push_row_lines(&mut out, &self.rows, preview);
        }
        out
    }

    /// Renders the report as text (see `text`).
    pub fn render_text(&self) -> (out: String)
        ensures
            out@ == self.text(),
    {
        match self.direction {
            MidiConversionDirection::MidiToCsv => self.render_as_csv(),
            MidiConversionDirection::CsvToMidi => self.render_csv_to_midi_summary(),
        }
    }
}

} // verus!
