//! Character-grid renderings of note sequences: a staff and a piano roll.

use vstd::prelude::*;
use crate::pitch::{is_range, melody_range};
use crate::text::{concat_map, dec_int, dec_nat, pad_left, push_int, push_nat, push_padded_left};
use crate::chars::char_views;

verus! {

/// The lowest note of a non-empty sequence.
pub open spec fn seq_low(s: Seq<i32>) -> int
    decreases s.len(),
{
    if s.len() <= 1 {
        if s.len() == 1 {
            s[0] as int
        } else {
            0
        }
    } else if (s.last() as int) < seq_low(s.drop_last()) {
        s.last() as int
    } else {
        seq_low(s.drop_last())
    }
}

/// The highest note of a non-empty sequence.
pub open spec fn seq_high(s: Seq<i32>) -> int
    decreases s.len(),
{
    if s.len() <= 1 {
        if s.len() == 1 {
            s[0] as int
        } else {
            0
        }
    } else if (s.last() as int) > seq_high(s.drop_last()) {
        s.last() as int
    } else {
        seq_high(s.drop_last())
    }
}

proof fn lemma_low_high(s: Seq<i32>)
    requires
        s.len() > 0,
    ensures
        forall|i: int| 0 <= i < s.len() ==> seq_low(s) <= #[trigger] s[i] <= seq_high(s),
        exists|i: int| 0 <= i < s.len() && s[i] == seq_low(s),
        exists|i: int| 0 <= i < s.len() && s[i] == seq_high(s),
    decreases s.len(),
{
    if s.len() > 1 {
        let p = s.drop_last();
        lemma_low_high(p);
        assert forall|i: int| 0 <= i < s.len() implies seq_low(s) <= #[trigger] s[i] <= seq_high(s) by {
            if i < s.len() - 1 {
                assert(s[i] == p[i]);
            }
        }
        let a = choose|i: int| 0 <= i < p.len() && p[i] == seq_low(p);
        let b = choose|i: int| 0 <= i < p.len() && p[i] == seq_high(p);
        assert(s[a] == p[a]);
        assert(s[b] == p[b]);
        assert(s[s.len() - 1] == s.last());
    } else {
        assert(s[0] == seq_low(s));
    }
}

/// The range found by `melody_range` is the lowest and highest note.
proof fn lemma_range_is_low_high(s: Seq<i32>, lo: i32, hi: i32)
    requires
        s.len() > 0,
        is_range(s, lo, hi),
    ensures
        lo == seq_low(s),
        hi == seq_high(s),
{
    lemma_low_high(s);
    let a = choose|i: int| 0 <= i < s.len() && s[i] == lo;
    let b = choose|i: int| 0 <= i < s.len() && s[i] == seq_low(s);
    assert(lo <= s[b] && seq_low(s) <= s[a]);
    let c = choose|i: int| 0 <= i < s.len() && s[i] == hi;
    let d = choose|i: int| 0 <= i < s.len() && s[i] == seq_high(s);
    assert(hi >= s[d] && seq_high(s) >= s[c]);
}

/// The characters of a staff.
#[derive(Clone, Copy, Debug, PartialEq, Eq, Structural)]
pub struct StaffCharset {
    pub line: char,
    pub space: char,
    pub note: char,
    pub frame: char,
}

impl StaffCharset {
    pub open spec fn of(unicode: bool) -> StaffCharset {
        if unicode {
            StaffCharset { line: '─', space: ' ', note: '●', frame: '│' }
        } else {
            StaffCharset { line: '-', space: ' ', note: 'o', frame: '|' }
        }
    }

    /// Box-drawing characters, or plain ASCII.
    pub fn new(unicode: bool) -> (c: StaffCharset)
        ensures
            c == StaffCharset::of(unicode),
    {
        if unicode {
            StaffCharset { line: '─', space: ' ', note: '●', frame: '│' }
        } else {
            StaffCharset { line: '-', space: ' ', note: 'o', frame: '|' }
        }
    }
}

/// The characters of a piano roll.
#[derive(Clone, Copy, Debug, PartialEq, Eq, Structural)]
pub struct PianoRollCharset {
    pub background: char,
    pub note: char,
    pub frame: char,
}

impl PianoRollCharset {
    pub open spec fn of(unicode: bool) -> PianoRollCharset {
        if unicode {
            PianoRollCharset { background: '·', note: '█', frame: '│' }
        } else {
            PianoRollCharset { background: ' ', note: '#', frame: '|' }
        }
    }

    /// Block characters, or plain ASCII.
    pub fn new(unicode: bool) -> (c: PianoRollCharset)
        ensures
            c == PianoRollCharset::of(unicode),
    {
        if unicode {
            PianoRollCharset { background: '·', note: '█', frame: '│' }
        } else {
            PianoRollCharset { background: ' ', note: '#', frame: '|' }
        }
    }
}

/// Why a rendering was refused.
#[derive(Clone, Copy, Debug, PartialEq, Eq, Structural)]
pub enum RenderError {
    /// No notes were given.
    NoNotes,
}

/// Whether a note sequence fits a staff: two rows of margin above and below, and a row
/// count that is an `i32`.
pub open spec fn staff_fits(notes: Seq<i32>) -> bool {
    notes.len() > 0 ==> {
        &&& seq_low(notes) - 2 >= i32::MIN
        &&& seq_high(notes) + 2 <= i32::MAX
        &&& seq_high(notes) - seq_low(notes) + 5 <= i32::MAX
    }
}

/// Tells whether a note sequence fits a staff (see `staff_fits`), so that a caller can
/// test it before rendering.
pub fn staff_fits_notes(notes: &Vec<i32>) -> (b: bool)
    ensures
        b == staff_fits(notes@),
{
    if notes.len() == 0 {
        return true;
    }
    let (lo, hi) = melody_range(notes);
    proof {
        lemma_range_is_low_high(notes@, lo, hi);
    }
    let low = lo as i64;
    let high = hi as i64;
    low - 2 >= i32::MIN as i64 && high + 2 <= i32::MAX as i64 && high - low + 5 <= i32::MAX as i64
}

/// The lowest and highest row of a staff: two semitones beyond the notes.
pub open spec fn staff_range(notes: Seq<i32>) -> (int, int) {
    (seq_low(notes) - 2, seq_high(notes) + 2)
}

/// The pitch indices of the staff's rows, top row first.
pub fn staff_row_range(notes: &Vec<i32>) -> (r: Result<(i32, i32), RenderError>)
    requires
        staff_fits(notes@),
    ensures
        notes.len() == 0 <==> r is Err,
        r matches Ok((lo, hi)) ==> (lo as int, hi as int) == staff_range(notes@),
{
    if notes.len() == 0 {
        return Err(RenderError::NoNotes);
    }
    let (lo, hi) = melody_range(notes);
    proof {
        lemma_range_is_low_high(notes@, lo, hi);
    }
    Ok((lo - 2, hi + 2))
}

/// The character at row `r`, column `c` of a staff: a note where one sits (note `i` in
/// column `2i + 1`, on the row of its pitch), else a line on every other row counted from
/// the bottom, else a space.
pub open spec fn staff_cell(notes: Seq<i32>, row_min: int, row_max: int, cs: StaffCharset, r: int, c: int) -> char {
    if exists|i: int| 0 <= i < notes.len() && c == 2 * i + 1 && row_max - notes[i] == r {
        cs.note
    } else if (row_max - r - row_min) % 2 == 0 {
        cs.line
    } else {
        cs.space
    }
}

/// The staff grid: one row per pitch from the top, `2n + 1` columns.
pub open spec fn staff_grid(notes: Seq<i32>, cs: StaffCharset) -> Seq<Seq<char>> {
    let (row_min, row_max) = staff_range(notes);
    Seq::new(
        (row_max - row_min + 1) as nat,
        |r: int| Seq::new((2 * notes.len() + 1) as nat, |c: int| staff_cell(notes, row_min, row_max, cs, r, c)),
    )
}

/// A row of a grid behind its label, right-aligned in 12 characters, and framed.
pub open spec fn labeled_row(label: Seq<char>, cells: Seq<char>, frame: char) -> Seq<char> {
    pad_left(label, 12) + seq![' ', frame] + cells + seq![frame]
}

/// Labels each row of a grid and frames it (see `labeled_row`).
pub fn build_labeled_rows(grid: &Vec<Vec<char>>, labels: &Vec<String>, frame: char) -> (rows: Vec<String>)
    requires
        labels.len() == grid.len(),
    ensures
        rows.len() == grid.len(),
        forall|r: int| 0 <= r < grid.len() ==> #[trigger] rows@[r]@ == labeled_row(labels@[r]@, grid@[r]@, frame),
{
    let mut rows: Vec<String> = Vec::new();
    for r in 0..grid.len()
        invariant
            labels.len() == grid.len(),
            rows.len() == r,
            forall|k: int| 0 <= k < r ==> #[trigger] rows@[k]@ == labeled_row(labels@[k]@, grid@[k]@, frame),
    {
        let mut line = String::new();
        let label = crate::text::chars_of(labels[r].as_str());
        push_padded_left(&mut line, &label, 12);
        crate::text::push_char(&mut line, ' ');
        crate::text::push_char(&mut line, frame);
        crate::text::push_chars(&mut line, &grid[r]);
        crate::text::push_char(&mut line, frame);
        assert(line@ =~= labeled_row(labels@[r as int]@, grid@[r as int]@, frame));
        rows.push(line);
    }
    rows
}

fn staff_cells(notes: &Vec<i32>, row_min: i32, row_max: i32, cs: StaffCharset) -> (grid: Vec<Vec<char>>)
    requires
        notes.len() > 0,
        row_min as int == staff_range(notes@).0,
        row_max as int == staff_range(notes@).1,
        staff_fits(notes@),
        2 * notes.len() + 1 <= usize::MAX,
    ensures
        grid@.map_values(|row: Vec<char>| row@) == staff_grid(notes@, cs),
{
    proof {
        lemma_low_high(notes@);
    }
    let columns = notes.len() * 2 + 1;
    let row_count = (row_max - row_min + 1) as usize;
    let mut grid: Vec<Vec<char>> = Vec::new();
    for r in 0..row_count
        invariant
            columns == 2 * notes.len() + 1,
            row_count == row_max - row_min + 1,
            row_count <= i32::MAX,
            row_min as int == staff_range(notes@).0,
            row_max as int == staff_range(notes@).1,
            forall|i: int| 0 <= i < notes.len() ==> row_min <= #[trigger] notes@[i] <= row_max,
            grid.len() == r,
            forall|k: int| 0 <= k < r ==> #[trigger] grid@[k]@ == staff_grid(notes@, cs)[k],
    {
        let pitch: i32 = row_max - (r as i32);
        assert(pitch == row_max - r);
        let base = if (pitch - row_min) % 2 == 0 {
            cs.line
        } else {
            cs.space
        };
        let mut row: Vec<char> = Vec::new();
        for c in 0..columns
            invariant
                columns == 2 * notes.len() + 1,
                row_count == row_max - row_min + 1,
                r < row_count,
                pitch == row_max - r,
                base == (if (row_max - r - row_min) % 2 == 0 { cs.line } else { cs.space }),
                row_min <= pitch <= row_max,
                row.len() == c,
                forall|i: int| 0 <= i < notes.len() ==> row_min <= #[trigger] notes@[i] <= row_max,
                forall|k: int| 0 <= k < c ==> #[trigger] row@[k] == staff_cell(notes@, row_min as int, row_max as int, cs, r as int, k),
        {
            let mut ch = base;
            let mut hit = false;
            if c % 2 == 1 {
                let i = c / 2;
                if notes[i] == pitch {
                    ch = cs.note;
                    hit = true;
                    assert(c as int == 2 * (i as int) + 1 && row_max - notes@[i as int] == r);
                }
            }
            proof {
                if !hit {
                    assert forall|i: int| 0 <= i < notes.len() implies !(c == 2 * i + 1 && row_max - notes@[i] == r) by {
                        if c == 2 * i + 1 {
                            assert(i == c / 2);
                        }
                    }
                }
            }
            row.push(ch);
        }
        assert(row@ =~= staff_grid(notes@, cs)[r as int]);
        grid.push(row);
    }
    assert(grid@.map_values(|row: Vec<char>| row@) =~= staff_grid(notes@, cs));
    grid
}

/// A staff rendering of a note sequence.
pub struct StaffRenderReport {
    pub system: String,
    pub unicode: bool,
    pub key_hint: Option<String>,
    pub note_count: usize,
    pub min_index: i32,
    pub max_index: i32,
    pub rows: Vec<String>,
    pub note_labels: Vec<String>,
}

/// Renders notes on a staff: one row per pitch from two above the highest note down to
/// two below the lowest, each labeled with `row_labels` (top row first), lines on every
/// other row, and note `i` drawn in column `2i + 1`.
pub fn render_staff(notes: &Vec<i32>, system: String, unicode: bool, key_hint: Option<String>, row_labels: &Vec<String>, note_labels: Vec<String>) -> (r: Result<StaffRenderReport, RenderError>)
    requires
        staff_fits(notes@),
        2 * notes.len() + 1 <= usize::MAX,
        notes.len() > 0 ==> row_labels.len() == staff_range(notes@).1 - staff_range(notes@).0 + 1,
    ensures
        notes.len() == 0 <==> r is Err,
        r matches Ok(rep) ==> {
            let cs = StaffCharset::of(unicode);
            let grid = staff_grid(notes@, cs);
            &&& rep.system@ == system@
            &&& rep.unicode == unicode
            &&& rep.key_hint == key_hint
            &&& rep.note_count == notes.len()
            &&& rep.min_index == staff_range(notes@).0
            &&& rep.max_index == staff_range(notes@).1
            &&& rep.rows.len() == grid.len()
            &&& forall|k: int| 0 <= k < grid.len() ==> #[trigger] rep.rows@[k]@ == labeled_row(row_labels@[k]@, grid[k], cs.frame)
            &&& rep.note_labels == note_labels
        },
{
    let (row_min, row_max) = match staff_row_range(notes) {
        Ok(range) => range,
        Err(e) => return Err(e),
    };
    let cs = StaffCharset::new(unicode);
    let grid = staff_cells(notes, row_min, row_max, cs);
    assert forall|k: int| 0 <= k < grid.len() implies #[trigger] grid@[k]@ == staff_grid(notes@, cs)[k] by {
        assert(grid@.map_values(|row: Vec<char>| row@)[k] == grid@[k]@);
    }
    assert(grid@.map_values(|row: Vec<char>| row@).len() == grid.len());
    let rows = build_labeled_rows(&grid, row_labels, cs.frame);
    Ok(StaffRenderReport {
        system,
        unicode,
        key_hint,
        note_count: notes.len(),
        min_index: row_min,
        max_index: row_max,
        rows,
        note_labels,
    })
}

/// The closing lines of a rendering: the rows, then the note labels under `Notes:`.
pub open spec fn rows_and_labels(rows: Seq<String>, labels: Seq<String>) -> Seq<char> {
    concat_map(rows, |row: String| row@ + "\n"@) + if labels.len() > 0 {
        "Notes:\n"@ + concat_map(labels, |l: String| "  • "@ + l@ + "\n"@)
    } else {
        Seq::empty()
    }
}

fn push_rows_and_labels(out: &mut String, rows: &Vec<String>, labels: &Vec<String>)
    ensures
        final(out)@ == old(out)@ + rows_and_labels(rows@, labels@),
{
    let ghost start = out@;
    for i in 0..rows.len()
        invariant
            out@ == start + concat_map(rows@.take(i as int), |row: String| row@ + "\n"@),
    {
        out.append(rows[i].as_str());
        out.append("\n");
        assert(rows@.take(i + 1).drop_last() =~= rows@.take(i as int));
        assert(out@ =~= start + concat_map(rows@.take(i + 1), |row: String| row@ + "\n"@));
    }
    assert(rows@.take(rows.len() as int) =~= rows@);
    if labels.len() > 0 {
        let ghost mid = out@;
        out.append("Notes:\n");
        let ghost base = out@;
        for i in 0..labels.len()
            invariant
                out@ == base + concat_map(labels@.take(i as int), |l: String| "  • "@ + l@ + "\n"@),
        {
            out.append("  • ");
            out.append(labels[i].as_str());
            out.append("\n");
            assert(labels@.take(i + 1).drop_last() =~= labels@.take(i as int));
            assert(out@ =~= base + concat_map(labels@.take(i + 1), |l: String| "  • "@ + l@ + "\n"@));
        }
        assert(labels@.take(labels.len() as int) =~= labels@);
    }
    assert(out@ =~= start + rows_and_labels(rows@, labels@));
}

impl StaffRenderReport {
    /// The text rendering of this report.
    pub open spec fn text(&self) -> Seq<char> {
        "Staff render ("@ + (if self.unicode {
            "Unicode"@
        } else {
            "ASCII"@
        }) + ") for "@ + dec_nat(self.note_count as nat) + " note(s) in "@ + self.system@ + " ["@ + dec_int(
            self.min_index as int,
        ) + ".."@ + dec_int(self.max_index as int) + "].\n"@ + (match self.key_hint {
            Some(k) => "Context key: "@ + k@ + ".\n"@,
            None => Seq::empty(),
        }) + rows_and_labels(self.rows@, self.note_labels@)
    }

    /// Renders the report as text (see `text`).
    pub fn render_text(&self) -> (out: String)
        ensures
            out@ == self.text(),
    {
        let mut out = String::new();
        out.append("Staff render (");
        if self.unicode {
            out.append("Unicode");
        } else {
            out.append("ASCII");
        }
        out.append(") for ");
        push_nat(&mut out, self.note_count as u128);
        out.append(" note(s) in ");
        out.append(self.system.as_str());
        out.append(" [");
        push_int(&mut out, self.min_index as i128);
        out.append("..");
        push_int(&mut out, self.max_index as i128);
        out.append("].\n");
        if let Some(k) = &self.key_hint {
            out.append("Context key: ");
            out.append(k.as_str());
            out.append(".\n");
        }
        let ghost head = out@;
        push_rows_and_labels(&mut out, &self.rows, &self.note_labels);
        assert(out@ =~= self.text());
        out
    }
}

/// The width and height of a piano roll: at least 8 columns and 4 rows.
pub open spec fn roll_size(width: usize, height: usize) -> (nat, nat) {
    (if width < 8 { 8 } else { width as nat }, if height < 4 { 4 } else { height as nat })
}

/// The lowest and highest row of a piano roll `height` rows tall: the notes' range,
/// widened evenly (the extra row below) when it is shorter, cut at the top when taller.
pub open spec fn roll_range(notes: Seq<i32>, height: nat) -> (int, int) {
    let lo = seq_low(notes);
    let natural = seq_high(notes) - lo + 1;
    let row_min = if natural < height {
        lo - (height - natural) / 2
    } else {
        lo
    };
    (row_min, row_min + height - 1)
}

/// Whether a note sequence fits a piano roll of this height in `i32` row numbers.
pub open spec fn roll_fits(notes: Seq<i32>, width: usize, height: usize) -> bool {
    notes.len() > 0 ==> {
        let h = roll_size(width, height).1;
        &&& h <= i32::MAX
        &&& seq_high(notes) - seq_low(notes) + 1 <= i32::MAX
        &&& roll_range(notes, h).0 >= i32::MIN
        &&& roll_range(notes, h).1 <= i32::MAX
        &&& notes.len() * roll_size(width, height).0 <= usize::MAX
    }
}

/// Tells whether a note sequence fits a piano roll of this size (see `roll_fits`), so
/// that a caller can test it before rendering.
pub fn roll_fits_notes(notes: &Vec<i32>, width: usize, height: usize) -> (b: bool)
    ensures
        b == roll_fits(notes@, width, height),
{
    if notes.len() == 0 {
        return true;
    }
    let (lo, hi) = melody_range(notes);
    proof {
        lemma_range_is_low_high(notes@, lo, hi);
    }
    let w: u128 = if width < 8 {
        8
    } else {
        width as u128
    };
    let h: i128 = if height < 4 {
        4
    } else {
        height as i128
    };
    let low = lo as i128;
    let natural = hi as i128 - low + 1;
    let row_min = if natural < h {
        low - (h - natural) / 2
    } else {
        low
    };
    let row_max = row_min + h - 1;
    let n = notes.len() as u128;
    assert(n * w <= 0xffff_ffff_ffff_ffffu128 * 0xffff_ffff_ffff_ffffu128) by (nonlinear_arith)
        requires
            n <= 0xffff_ffff_ffff_ffffu128,
            w <= 0xffff_ffff_ffff_ffffu128,
    ;
    &&& h <= i32::MAX as i128
    &&& natural <= i32::MAX as i128
    &&& row_min >= i32::MIN as i128
    &&& row_max <= i32::MAX as i128
    &&& n * w <= usize::MAX as u128
}

/// The column of note `i` of `n` notes on a roll `width` wide: spread evenly from the
/// first column to the last, or in the middle for a single note.
pub open spec fn roll_column(i: int, n: int, width: int) -> int {
    if n == 1 {
        width / 2
    } else {
        i * (width - 1) / (n - 1)
    }
}

/// `x` limited to `[lo, hi]`.
pub open spec fn clamp(x: int, lo: int, hi: int) -> int {
    if x < lo {
        lo
    } else if x > hi {
        hi
    } else {
        x
    }
}

/// The character at row `r`, column `c` of a piano roll: a note where one sits (notes
/// outside the rows drawn on the nearest row), else the background.
pub open spec fn roll_cell(notes: Seq<i32>, row_min: int, row_max: int, width: int, cs: PianoRollCharset, r: int, c: int) -> char {
    if exists|i: int| 0 <= i < notes.len() && c == roll_column(i, notes.len() as int, width) && row_max - clamp(notes[i] as int, row_min, row_max) == r {
        cs.note
    } else {
        cs.background
    }
}

/// The piano-roll grid.
pub open spec fn roll_grid(notes: Seq<i32>, width: usize, height: usize, cs: PianoRollCharset) -> Seq<Seq<char>> {
    let (w, h) = roll_size(width, height);
    let (row_min, row_max) = roll_range(notes, h);
    Seq::new(h, |r: int| Seq::new(w, |c: int| roll_cell(notes, row_min, row_max, w as int, cs, r, c)))
}

/// The rows of a piano roll, top row first (see `roll_range`).
pub fn piano_roll_row_range(notes: &Vec<i32>, width: usize, height: usize) -> (r: Result<(i32, i32), RenderError>)
    requires
        roll_fits(notes@, width, height),
    ensures
        notes.len() == 0 <==> r is Err,
        r matches Ok((lo, hi)) ==> (lo as int, hi as int) == roll_range(notes@, roll_size(width, height).1),
{
    if notes.len() == 0 {
        return Err(RenderError::NoNotes);
    }
    let h: usize = if height < 4 {
        4
    } else {
        height
    };
    let (lo, hi) = melody_range(notes);
    proof {
        lemma_range_is_low_high(notes@, lo, hi);
    }
    let desired = h as i32;
    let natural = hi - lo + 1;
    let row_min = if natural < desired {
        lo - (desired - natural) / 2
    } else {
        lo
    };
    Ok((row_min, row_min + (desired - 1)))
}

fn roll_cells(notes: &Vec<i32>, row_min: i32, row_max: i32, w: usize, h: usize, cs: PianoRollCharset) -> (grid: Vec<Vec<char>>)
    requires
        notes.len() > 0,
        notes.len() * w <= usize::MAX,
        w >= 8,
        h <= i32::MAX,
        row_min <= row_max,
    ensures
        grid@.map_values(|row: Vec<char>| row@) == Seq::new(h as nat, |r: int| Seq::new(w as nat, |c: int| roll_cell(notes@, row_min as int, row_max as int, w as int, cs, r, c))),
{
    let n = notes.len();
    let mut cols: Vec<usize> = Vec::new();
    let mut rows: Vec<i64> = Vec::new();
    for i in 0..n
        invariant
            n == notes.len(),
            notes.len() * w <= usize::MAX,
            w >= 8,
            row_min <= row_max,
            cols.len() == i,
            rows.len() == i,
            forall|k: int| 0 <= k < i ==> #[trigger] cols@[k] == roll_column(k, n as int, w as int),
            forall|k: int| 0 <= k < i ==> #[trigger] rows@[k] == row_max - clamp(notes@[k] as int, row_min as int, row_max as int),
    {
        let col = if n == 1 {
            w / 2
        } else {
            assert(i * (w - 1) <= n * w) by (nonlinear_arith)
                requires i < n, w >= 8;
            (i * (w - 1)) / (n - 1)
        };
        let note = notes[i];
        let clamped = if note < row_min {
            row_min
        } else if note > row_max {
            row_max
        } else {
            note
        };
        cols.push(col);
        rows.push(row_max as i64 - clamped as i64);
    }
    let mut grid: Vec<Vec<char>> = Vec::new();
    for r in 0..h
        invariant
            n == notes.len(),
            cols.len() == n,
            rows.len() == n,
            forall|k: int| 0 <= k < n ==> #[trigger] cols@[k] == roll_column(k, n as int, w as int),
            forall|k: int| 0 <= k < n ==> #[trigger] rows@[k] == row_max - clamp(notes@[k] as int, row_min as int, row_max as int),
            grid.len() == r,
            h <= i32::MAX,
            forall|k: int| 0 <= k < r ==> #[trigger] grid@[k]@ == Seq::new(w as nat, |c: int| roll_cell(notes@, row_min as int, row_max as int, w as int, cs, k, c)),
    {
        let mut row: Vec<char> = Vec::new();
        for c in 0..w
            invariant
                n == notes.len(),
                cols.len() == n,
                rows.len() == n,
                forall|k: int| 0 <= k < n ==> #[trigger] cols@[k] == roll_column(k, n as int, w as int),
                forall|k: int| 0 <= k < n ==> #[trigger] rows@[k] == row_max - clamp(notes@[k] as int, row_min as int, row_max as int),
                row.len() == c,
                r < h,
                h <= i32::MAX,
                forall|k: int| 0 <= k < c ==> #[trigger] row@[k] == roll_cell(notes@, row_min as int, row_max as int, w as int, cs, r as int, k),
        {
            let mut hit = false;
            let mut i: usize = 0;
            while i < n
                invariant
                    i <= n,
                    n == notes.len(),
                    cols.len() == n,
                    rows.len() == n,
                    hit == exists|k: int| 0 <= k < i && cols@[k] == c && rows@[k] == r,
                    r < h,
                    h <= i32::MAX,
                decreases n - i,
            {
                if cols[i] == c && rows[i] == r as i64 {
                    hit = true;
                }
                i += 1;
            }
            proof {
                if hit {
                    let k = choose|k: int| 0 <= k < n && cols@[k] == c && rows@[k] == r;
                    assert(cols@[k] == roll_column(k, n as int, w as int));
                    assert(rows@[k] == row_max - clamp(notes@[k] as int, row_min as int, row_max as int));
                } else {
                    assert forall|k: int| 0 <= k < n implies !(c == roll_column(k, n as int, w as int) && row_max - clamp(notes@[k] as int, row_min as int, row_max as int) == r) by {
                        assert(cols@[k] == roll_column(k, n as int, w as int));
                        assert(rows@[k] == row_max - clamp(notes@[k] as int, row_min as int, row_max as int));
                    }
                }
            }
            row.push(if hit {
                cs.note
            } else {
                cs.background
            });
        }
        assert(row@ =~= Seq::new(w as nat, |c: int| roll_cell(notes@, row_min as int, row_max as int, w as int, cs, r as int, c)));
        grid.push(row);
    }
    assert(grid@.map_values(|row: Vec<char>| row@) =~= Seq::new(h as nat, |r: int| Seq::new(w as nat, |c: int| roll_cell(notes@, row_min as int, row_max as int, w as int, cs, r, c))));
    grid
}

/// A piano-roll rendering of a note sequence.
pub struct PianoRollRenderReport {
    pub system: String,
    pub width: usize,
    pub height: usize,
    pub note_count: usize,
    pub min_index: i32,
    pub max_index: i32,
    pub rows: Vec<String>,
    pub note_labels: Vec<String>,
}

/// Renders notes on a piano roll at least 8 columns wide and 4 rows tall (see
/// `roll_range`, `roll_grid`), each row labeled with `row_labels` (top row first).
pub fn render_piano_roll(notes: &Vec<i32>, system: String, width: usize, height: usize, unicode: bool, row_labels: &Vec<String>, note_labels: Vec<String>) -> (r: Result<PianoRollRenderReport, RenderError>)
    requires
        roll_fits(notes@, width, height),
        notes.len() > 0 ==> row_labels.len() == roll_size(width, height).1,
    ensures
        notes.len() == 0 <==> r is Err,
        r matches Ok(rep) ==> {
            let cs = PianoRollCharset::of(unicode);
            let grid = roll_grid(notes@, width, height, cs);
            let (w, h) = roll_size(width, height);
            &&& rep.system@ == system@
            &&& rep.width == w
            &&& rep.height == h
            &&& rep.note_count == notes.len()
            &&& rep.min_index == roll_range(notes@, h).0
            &&& rep.max_index == roll_range(notes@, h).1
            &&& rep.rows.len() == h
            &&& forall|k: int| 0 <= k < h ==> #[trigger] rep.rows@[k]@ == labeled_row(row_labels@[k]@, grid[k], cs.frame)
            &&& rep.note_labels == note_labels
        },
{
    let (row_min, row_max) = match piano_roll_row_range(notes, width, height) {
        Ok(range) => range,
        Err(e) => return Err(e),
    };
    let w: usize = if width < 8 {
        8
    } else {
        width
    };
    let h: usize = if height < 4 {
        4
    } else {
        height
    };
    let cs = PianoRollCharset::new(unicode);
    let grid = roll_cells(notes, row_min, row_max, w, h, cs);
    assert(grid@.map_values(|row: Vec<char>| row@).len() == grid.len());
    assert forall|k: int| 0 <= k < grid.len() implies #[trigger] grid@[k]@ == roll_grid(notes@, width, height, cs)[k] by {
        assert(grid@.map_values(|row: Vec<char>| row@)[k] == grid@[k]@);
    }
    let rows = build_labeled_rows(&grid, row_labels, cs.frame);
    Ok(PianoRollRenderReport {
        system,
        width: w,
        height: h,
        note_count: notes.len(),
        min_index: row_min,
        max_index: row_max,
        rows,
        note_labels,
    })
}

impl PianoRollRenderReport {
    /// The text rendering of this report.
    pub open spec fn text(&self) -> Seq<char> {
        "Piano-roll render ("@ + dec_nat(self.width as nat) + "×"@ + dec_nat(self.height as nat) + ") for "@
            + dec_nat(self.note_count as nat) + " note(s) in "@ + self.system@ + " ["@ + dec_int(self.min_index as int)
            + ".."@ + dec_int(self.max_index as int) + "].\n"@ + rows_and_labels(self.rows@, self.note_labels@)
    }

    /// Renders the report as text (see `text`).
    pub fn render_text(&self) -> (out: String)
        ensures
            out@ == self.text(),
    {
        let mut out = String::new();
        out.append("Piano-roll render (");
        push_nat(&mut out, self.width as u128);
        out.append("×");
        push_nat(&mut out, self.height as u128);
        out.append(") for ");
        push_nat(&mut out, self.note_count as u128);
        out.append(" note(s) in ");
        out.append(self.system.as_str());
        out.append(" [");
        push_int(&mut out, self.min_index as i128);
        out.append("..");
        push_int(&mut out, self.max_index as i128);
        out.append("].\n");
        push_rows_and_labels(&mut out, &self.rows, &self.note_labels);
        assert(out@ =~= self.text());
        out
    }
}

/// On a staff, note `i` is drawn in column `2i + 1` of the row of its pitch.
pub proof fn lemma_staff_shows_notes(notes: Seq<i32>, unicode: bool)
    requires
        notes.len() > 0,
    ensures
        forall|i: int| 0 <= i < notes.len() ==> staff_grid(notes, StaffCharset::of(unicode))[staff_range(notes).1 - notes[i]][2 * i + 1]
            == StaffCharset::of(unicode).note,
{
    lemma_low_high(notes);
    let cs = StaffCharset::of(unicode);
    let (row_min, row_max) = staff_range(notes);
    assert forall|i: int| 0 <= i < notes.len() implies staff_grid(notes, cs)[row_max - notes[i]][2 * i + 1] == cs.note by {
        assert(row_min <= notes[i] <= row_max);
        assert(staff_cell(notes, row_min, row_max, cs, row_max - notes[i], 2 * i + 1) == cs.note);
    }
}

/// On a piano roll, note `i` is drawn in its column, on the row of its pitch (the nearest
/// row when its pitch lies outside the roll).
pub proof fn lemma_roll_shows_notes(notes: Seq<i32>, width: usize, height: usize, unicode: bool)
    requires
        notes.len() > 0,
    ensures
        ({
            let (w, h) = roll_size(width, height);
            let (row_min, row_max) = roll_range(notes, h);
            forall|i: int| 0 <= i < notes.len() ==> roll_grid(notes, width, height, PianoRollCharset::of(unicode))[row_max
                - clamp(notes[i] as int, row_min, row_max)][roll_column(i, notes.len() as int, w as int)]
                == PianoRollCharset::of(unicode).note
        }),
{
    let cs = PianoRollCharset::of(unicode);
    let (w, h) = roll_size(width, height);
    let (row_min, row_max) = roll_range(notes, h);
    assert forall|i: int| 0 <= i < notes.len() implies roll_grid(notes, width, height, cs)[row_max - clamp(
        notes[i] as int,
        row_min,
        row_max,
    )][roll_column(i, notes.len() as int, w as int)] == cs.note by {
        let r = row_max - clamp(notes[i] as int, row_min, row_max);
        let c = roll_column(i, notes.len() as int, w as int);
        assert(0 <= r < h);
        if notes.len() == 1 {
            assert(0 <= c < w);
        } else {
            assert(0 <= i * (w - 1) <= (notes.len() - 1) * (w - 1)) by (nonlinear_arith)
                requires 0 <= i < notes.len(), w >= 8;
            assert(0 <= c <= w - 1) by (nonlinear_arith)
                requires c == i * (w - 1) / (notes.len() - 1), 0 <= i * (w - 1) <= (notes.len() - 1) * (w - 1), notes.len() > 1, w >= 8;
        }
        assert(roll_cell(notes, row_min, row_max, w as int, cs, r, c) == cs.note);
    }
}

} // verus!
