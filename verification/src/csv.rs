//! Note tables in CSV form: `track,channel,note,start_tick,end_tick,velocity` per line.

use vstd::prelude::*;
use crate::chars::{
    char_views, chars_start_with, is_ascii_digit, lower_chars, lower_seq, split_chars, split_on,
    starts_with, trim, trim_chars,
};
use crate::midi::MidiCsvRow;
use crate::resolve::digits_value;
use crate::text::{chars_of, dec_nat, push_nat};

verus! {

/// Whether every character of `s` is an ASCII digit.
pub open spec fn all_digits(s: Seq<char>) -> bool {
    forall|i: int| 0 <= i < s.len() ==> is_ascii_digit(#[trigger] s[i])
}

/// An unsigned number as `str::parse` reads it for an unsigned type whose largest value
/// is `max`: an optional `+`, then one or more ASCII digits, with a value of at most `max`.
pub open spec fn parse_unsigned(s: Seq<char>, max: int) -> Option<int> {
    let d = if s.len() > 0 && s[0] == '+' {
        s.drop_first()
    } else {
        s
    };
    if d.len() > 0 && all_digits(d) && digits_value(d) <= max {
        Some(digits_value(d) as int)
    } else {
        None
    }
}

proof fn lemma_digits_value_grows(s: Seq<char>, c: char)
    requires
        is_ascii_digit(c),
    ensures
        digits_value(s.push(c)) >= digits_value(s),
        digits_value(s.push(c)) == digits_value(s) * 10 + (c as u32 - 48),
{
    assert(s.push(c).drop_last() =~= s);
}

/// Reads an unsigned number of at most `max` (see `parse_unsigned`).
pub fn parse_unsigned_chars(v: &Vec<char>, max: u32) -> (r: Option<u32>)
    ensures
        match r {
            Some(x) => parse_unsigned(v@, max as int) == Some(x as int),
            None => parse_unsigned(v@, max as int) is None,
        },
{
    let start: usize = if v.len() > 0 && v[0] == '+' {
        1
    } else {
        0
    };
    let ghost d = if v@.len() > 0 && v@[0] == '+' {
        v@.drop_first()
    } else {
        v@
    };
    assert(d =~= v@.skip(start as int));
    if start >= v.len() {
        return None;
    }
    let mut value: u64 = 0;
    let mut over = false;
    let mut i = start;
    while i < v.len()
        invariant
            start <= i <= v.len(),
            d =~= v@.skip(start as int),
            d == (if v@.len() > 0 && v@[0] == '+' {
                v@.drop_first()
            } else {
                v@
            }),
            all_digits(v@.subrange(start as int, i as int)),
            over ==> digits_value(v@.subrange(start as int, i as int)) > max,
            !over ==> value == digits_value(v@.subrange(start as int, i as int)) && value <= max,
        decreases v.len() - i,
    {
        let c = v[i];
        if !('0' <= c && c <= '9') {
            assert(d[i - start] == c);
            assert(!is_ascii_digit(d[i - start]));
            assert(!all_digits(d));
            return None;
        }
        proof {
            lemma_digits_value_grows(v@.subrange(start as int, i as int), c);
            assert(v@.subrange(start as int, i + 1) =~= v@.subrange(start as int, i as int).push(c));
        }
        if !over {
            let next: u64 = value * 10 + ((c as u32) - 48) as u64;
            if next > max as u64 {
                over = true;
            } else {
                value = next;
            }
        }
        i += 1;
    }
    assert(v@.subrange(start as int, v.len() as int) =~= d);
    if over {
        None
    } else {
        Some(value as u32)
    }
}

/// The column of a note table that a problem concerns.
#[derive(Clone, Copy, Debug, PartialEq, Eq, Structural)]
pub enum CsvField {
    Track,
    Channel,
    Note,
    StartTick,
    EndTick,
    Velocity,
}

/// What is wrong with a line of a note table.
#[derive(Clone, Copy, Debug, PartialEq, Eq, Structural)]
pub enum CsvProblem {
    /// Fewer than six comma-separated columns.
    TooFewColumns,
    /// A column that does not read as a number of its type.
    Invalid(CsvField),
    /// An end tick before the start tick.
    EndBeforeStart,
}

/// A rejected note table: the (1-based) line and the problem found there.
#[derive(Clone, Copy, Debug, PartialEq, Eq, Structural)]
pub struct CsvError {
    pub line: usize,
    pub problem: CsvProblem,
}

/// What a single line contributes.
#[derive(Clone, Copy, Debug, PartialEq, Eq, Structural)]
pub enum LineOutcome {
    /// A blank line, a comment, or the header.
    Skip,
    Row(MidiCsvRow),
    Fail(CsvProblem),
}

/// The lines of `s` (as `str::lines`, before trimming): split at `\n`, with no empty
/// line after a final line break.
pub open spec fn csv_lines(s: Seq<char>) -> Seq<Seq<char>> {
    let parts = split_on(s, '\n');
    if parts.len() > 0 && parts.last().len() == 0 {
        parts.drop_last()
    } else {
        parts
    }
}

/// The trimmed comma-separated columns of a (trimmed) line.
pub open spec fn csv_columns(t: Seq<char>) -> Seq<Seq<char>> {
    split_on(t, ',').map_values(|c: Seq<char>| trim(c))
}

/// The row a line with at least six columns describes, or the first problem in it:
/// the columns are read in order, the tick order is checked before the velocity.
pub open spec fn columns_outcome(cols: Seq<Seq<char>>) -> LineOutcome {
    match (
        parse_unsigned(cols[0], 0xffff),
        parse_unsigned(cols[1], 0xff),
        parse_unsigned(cols[2], 0xff),
        parse_unsigned(cols[3], 0xffff_ffff),
        parse_unsigned(cols[4], 0xffff_ffff),
    ) {
        (None, _, _, _, _) => LineOutcome::Fail(CsvProblem::Invalid(CsvField::Track)),
        (Some(_), None, _, _, _) => LineOutcome::Fail(CsvProblem::Invalid(CsvField::Channel)),
        (Some(_), Some(_), None, _, _) => LineOutcome::Fail(CsvProblem::Invalid(CsvField::Note)),
        (Some(_), Some(_), Some(_), None, _) => LineOutcome::Fail(CsvProblem::Invalid(CsvField::StartTick)),
        (Some(_), Some(_), Some(_), Some(_), None) => LineOutcome::Fail(CsvProblem::Invalid(CsvField::EndTick)),
        (Some(track), Some(channel), Some(note), Some(start), Some(end)) => if end < start {
            LineOutcome::Fail(CsvProblem::EndBeforeStart)
        } else {
            match parse_unsigned(cols[5], 0xff) {
                None => LineOutcome::Fail(CsvProblem::Invalid(CsvField::Velocity)),
                Some(velocity) => LineOutcome::Row(
                    MidiCsvRow {
                        track: track as u16,
                        channel: channel as u8,
                        note: note as u8,
                        start_tick: start as u32,
                        end_tick: end as u32,
                        duration_tick: (end - start) as u32,
                        velocity: velocity as u8,
                    },
                ),
            }
        },
    }
}

/// What line number `index` (0-based) of a note table contributes: blank lines and lines
/// starting with `#` are skipped, and so is a first line starting with `track` in any case.
pub open spec fn csv_line(line: Seq<char>, index: int) -> LineOutcome {
    let t = trim(line);
    if t.len() == 0 || t[0] == '#' {
        LineOutcome::Skip
    } else if index == 0 && starts_with(lower_seq(t), "track"@) {
        LineOutcome::Skip
    } else if csv_columns(t).len() < 6 {
        LineOutcome::Fail(CsvProblem::TooFewColumns)
    } else {
        columns_outcome(csv_columns(t))
    }
}

/// The rows of the lines, or the first line's problem with its 0-based index.
pub open spec fn csv_rows(lines: Seq<Seq<char>>) -> Result<Seq<MidiCsvRow>, (int, CsvProblem)>
    decreases lines.len(),
{
    if lines.len() == 0 {
        Ok(Seq::empty())
    } else {
        match csv_rows(lines.drop_last()) {
            Err(e) => Err(e),
            Ok(rows) => match csv_line(lines.last(), lines.len() - 1) {
                LineOutcome::Skip => Ok(rows),
                LineOutcome::Row(r) => Ok(rows.push(r)),
                LineOutcome::Fail(p) => Err((lines.len() - 1, p)),
            },
        }
    }
}

/// The note table written in `s`.
pub open spec fn csv_table(s: Seq<char>) -> Result<Seq<MidiCsvRow>, (int, CsvProblem)> {
    csv_rows(csv_lines(s))
}

fn trimmed_columns(t: &Vec<char>) -> (cols: Vec<Vec<char>>)
    ensures
        char_views(cols@) == csv_columns(t@),
{
    let parts = split_chars(t, ',');
    let mut cols: Vec<Vec<char>> = Vec::new();
    for k in 0..parts.len()
        invariant
            char_views(parts@) == split_on(t@, ','),
            char_views(cols@) == split_on(t@, ',').take(k as int).map_values(|c: Seq<char>| trim(c)),
    {
        let c = trim_chars(&parts[k]);
        let ghost before = cols@;
        cols.push(c);
        assert(char_views(parts@)[k as int] == parts@[k as int]@);
        assert(char_views(cols@) =~= char_views(before).push(c@));
        assert(split_on(t@, ',').take(k + 1).map_values(|c: Seq<char>| trim(c)) =~= split_on(
            t@,
            ',',
        ).take(k as int).map_values(|c: Seq<char>| trim(c)).push(trim(split_on(t@, ',')[k as int])));
    }
    assert(split_on(t@, ',').take(parts.len() as int) =~= split_on(t@, ','));
    cols
}

fn read_columns(cols: &Vec<Vec<char>>) -> (r: LineOutcome)
    requires
        cols.len() >= 6,
    ensures
        r == columns_outcome(char_views(cols@)),
{
    let ghost cv = char_views(cols@);
    assert(cv[0] == cols@[0]@ && cv[1] == cols@[1]@ && cv[2] == cols@[2]@);
    assert(cv[3] == cols@[3]@ && cv[4] == cols@[4]@ && cv[5] == cols@[5]@);
    let track = match parse_unsigned_chars(&cols[0], 0xffff) {
        Some(v) => v,
        None => return LineOutcome::Fail(CsvProblem::Invalid(CsvField::Track)),
    };
    let channel = match parse_unsigned_chars(&cols[1], 0xff) {
        Some(v) => v,
        None => return LineOutcome::Fail(CsvProblem::Invalid(CsvField::Channel)),
    };
    let note = match parse_unsigned_chars(&cols[2], 0xff) {
        Some(v) => v,
        None => return LineOutcome::Fail(CsvProblem::Invalid(CsvField::Note)),
    };
    let start = match parse_unsigned_chars(&cols[3], 0xffff_ffff) {
        Some(v) => v,
        None => return LineOutcome::Fail(CsvProblem::Invalid(CsvField::StartTick)),
    };
    let end = match parse_unsigned_chars(&cols[4], 0xffff_ffff) {
        Some(v) => v,
        None => return LineOutcome::Fail(CsvProblem::Invalid(CsvField::EndTick)),
    };
    if end < start {
        return LineOutcome::Fail(CsvProblem::EndBeforeStart);
    }
    let velocity = match parse_unsigned_chars(&cols[5], 0xff) {
        Some(v) => v,
        None => return LineOutcome::Fail(CsvProblem::Invalid(CsvField::Velocity)),
    };
    LineOutcome::Row(
        MidiCsvRow {
            track: track as u16,
            channel: channel as u8,
            note: note as u8,
            start_tick: start,
            end_tick: end,
            duration_tick: end - start,
            velocity: velocity as u8,
        },
    )
}

/// What one line contributes (see `csv_line`).
pub fn read_csv_line(line: &Vec<char>, index: usize) -> (r: LineOutcome)
    ensures
        r == csv_line(line@, index as int),
{
    let t = trim_chars(line);
    if t.len() == 0 || t[0] == '#' {
        return LineOutcome::Skip;
    }
    if index == 0 {
        let lower = lower_chars(&t);
        if chars_start_with(&lower, "track") {
            return LineOutcome::Skip;
        }
    }
    let cols = trimmed_columns(&t);
    if cols.len() < 6 {
        return LineOutcome::Fail(CsvProblem::TooFewColumns);
    }
    read_columns(&cols)
}

/// Parses a note table. Each line holds `track,channel,note,start_tick,end_tick,velocity`;
/// blank lines, `#` comments and a header line are skipped; the duration is the end tick
/// minus the start tick. The first bad line is reported with its 1-based number.
pub fn parse_csv_rows_str(contents: &str) -> (r: Result<Vec<MidiCsvRow>, CsvError>)
    ensures
        match r {
            Ok(rows) => csv_table(contents@) == Ok::<Seq<MidiCsvRow>, (int, CsvProblem)>(rows@),
            Err(e) => csv_table(contents@) == Err::<Seq<MidiCsvRow>, (int, CsvProblem)>(
                (e.line - 1, e.problem),
            ),
        },
{
    let chars = chars_of(contents);
    let mut lines = split_chars(&chars, '\n');
    let ghost parts = split_on(contents@, '\n');
    if lines.len() > 0 && lines[lines.len() - 1].len() == 0 {
        let ghost before = lines@;
        lines.pop();
        assert(char_views(lines@) =~= char_views(before).drop_last());
    }
    assert(char_views(lines@) == csv_lines(contents@));
    let ghost all = csv_lines(contents@);
    let mut rows: Vec<MidiCsvRow> = Vec::new();
    for i in 0..lines.len()
        invariant
            char_views(lines@) == all,
            all == csv_lines(contents@),
            csv_rows(all.take(i as int)) == Ok::<Seq<MidiCsvRow>, (int, CsvProblem)>(rows@),
    {
        assert(all.take(i + 1).drop_last() =~= all.take(i as int));
        assert(all.take(i + 1).last() == lines@[i as int]@);
        match read_csv_line(&lines[i], i) {
            LineOutcome::Skip => {},
            LineOutcome::Row(row) => {
                rows.push(row);
            },
            LineOutcome::Fail(problem) => {
                proof {
                    lemma_rows_error_stays(all, i + 1, (i as int, problem));
                }
                return Err(CsvError { line: i + 1, problem });
            },
        }
    }
    assert(all.take(lines.len() as int) =~= all);
    Ok(rows)
}

proof fn lemma_rows_error_stays(lines: Seq<Seq<char>>, n: int, e: (int, CsvProblem))
    requires
        0 <= n <= lines.len(),
        csv_rows(lines.take(n)) == Err::<Seq<MidiCsvRow>, (int, CsvProblem)>(e),
    ensures
        csv_rows(lines) == Err::<Seq<MidiCsvRow>, (int, CsvProblem)>(e),
    decreases lines.len() - n,
{
    if n < lines.len() {
        assert(lines.take(n + 1).drop_last() =~= lines.take(n));
        lemma_rows_error_stays(lines, n + 1, e);
    } else {
        assert(lines.take(n) =~= lines);
    }
}

impl CsvError {
    /// The message of this error.
    pub open spec fn text(&self) -> Seq<char> {
        "line "@ + dec_nat(self.line as nat) + ": "@ + match self.problem {
            CsvProblem::TooFewColumns =>
                "expected at least 6 columns (track,channel,note,start_tick,end_tick,velocity)"@,
            CsvProblem::Invalid(f) => "invalid "@ + match f {
                CsvField::Track => "track"@,
                CsvField::Channel => "channel"@,
                CsvField::Note => "note"@,
                CsvField::StartTick => "start_tick"@,
                CsvField::EndTick => "end_tick"@,
                CsvField::Velocity => "velocity"@,
            },
            CsvProblem::EndBeforeStart => "end_tick must be greater than or equal to start_tick"@,
        }
    }

    /// The message of this error, such as `line 3: invalid note`.
    pub fn message(&self) -> (s: String)
        ensures
            s@ == self.text(),
    {
        let mut s = String::new();
        s.append("line ");
        push_nat(&mut s, self.line as u128);
        s.append(": ");
        match self.problem {
            CsvProblem::TooFewColumns => s.append(
                "expected at least 6 columns (track,channel,note,start_tick,end_tick,velocity)",
            ),
            CsvProblem::Invalid(f) => {
                s.append("invalid ");
                match f {
                    CsvField::Track => s.append("track"),
                    CsvField::Channel => s.append("channel"),
                    CsvField::Note => s.append("note"),
                    CsvField::StartTick => s.append("start_tick"),
                    CsvField::EndTick => s.append("end_tick"),
                    CsvField::Velocity => s.append("velocity"),
                }
            },
            CsvProblem::EndBeforeStart => s.append(
                "end_tick must be greater than or equal to start_tick",
            ),
        }
        s
    }
}

/// Every row of a note table ends no earlier than it starts and lasts from its start to its end.
pub proof fn lemma_csv_rows_consistent(lines: Seq<Seq<char>>)
    ensures
        csv_rows(lines) matches Ok(rows) ==> forall|i: int|
            0 <= i < rows.len() ==> #[trigger] rows[i].end_tick >= rows[i].start_tick && rows[i].duration_tick
                == rows[i].end_tick - rows[i].start_tick,
    decreases lines.len(),
{
    if lines.len() > 0 {
        lemma_csv_rows_consistent(lines.drop_last());
    }
}

} // verus!
