//! What the first bytes of a MIDI file declare, and reports built on it.

use vstd::prelude::*;
use crate::text::{concat_map, dbg_opt, dec_int, dec_nat, push_dbg_opt, push_int, push_nat};

verus! {

/// A big-endian 16-bit number.
pub open spec fn be16(hi: u8, lo: u8) -> u16 {
    (hi as int * 256 + lo as int) as u16
}

/// Whether the four bytes at `i` spell `MTrk`.
pub open spec fn mtrk_at(b: Seq<u8>, i: int) -> bool {
    0 <= i && i + 4 <= b.len() && b[i] == 77 && b[i + 1] == 84 && b[i + 2] == 114 && b[i + 3] == 107
}

/// The number of positions below `n` where `MTrk` starts.
pub open spec fn count_mtrk(b: Seq<u8>, n: int) -> nat
    decreases n,
{
    if n <= 0 {
        0
    } else {
        count_mtrk(b, n - 1) + if mtrk_at(b, n - 1) {
            1nat
        } else {
            0nat
        }
    }
}

/// Whether the bytes start with a complete `MThd` header.
pub open spec fn has_header(b: Seq<u8>) -> bool {
    b.len() >= 14 && b[0] == 77 && b[1] == 84 && b[2] == 104 && b[3] == 100
}

/// What the header of a MIDI file declares, and how many track chunks its bytes show.
#[derive(Clone, Copy, Debug, PartialEq, Eq, Structural)]
pub struct MidiHeaderInfo {
    pub is_standard_midi: bool,
    pub header_format: Option<u16>,
    pub declared_tracks: Option<u16>,
    pub ticks_per_quarter: Option<u16>,
    pub detected_tracks: usize,
}

/// The header fields (format, track count, division) of a file starting with `MThd`,
/// and the number of places where `MTrk` occurs.
pub open spec fn header_info(b: Seq<u8>) -> MidiHeaderInfo {
    if has_header(b) {
        MidiHeaderInfo {
            is_standard_midi: true,
            header_format: Some(be16(b[8], b[9])),
            declared_tracks: Some(be16(b[10], b[11])),
            ticks_per_quarter: Some(be16(b[12], b[13])),
            detected_tracks: count_mtrk(b, b.len() as int) as usize,
        }
    } else {
        MidiHeaderInfo {
            is_standard_midi: false,
            header_format: None,
            declared_tracks: None,
            ticks_per_quarter: None,
            detected_tracks: count_mtrk(b, b.len() as int) as usize,
        }
    }
}

fn be16_exec(hi: u8, lo: u8) -> (r: u16)
    ensures
        r == be16(hi, lo),
{
    (hi as u16) * 256 + (lo as u16)
}

/// Reads the header fields and counts the track chunks (see `header_info`).
pub fn inspect_midi_header(bytes: &[u8]) -> (info: MidiHeaderInfo)
    ensures
        info == header_info(bytes@),
{
    let mut count: usize = 0;
    let mut i: usize = 0;
    while i < bytes.len()
        invariant
            i <= bytes.len(),
            count == count_mtrk(bytes@, i as int),
            count <= i,
        decreases bytes.len() - i,
    {
        if bytes.len() - i >= 4 && bytes[i] == 77 && bytes[i + 1] == 84 && bytes[i + 2] == 114 && bytes[i + 3] == 107 {
            count += 1;
        }
        i += 1;
    }
    if bytes.len() >= 14 && bytes[0] == 77 && bytes[1] == 84 && bytes[2] == 104 && bytes[3] == 100 {
        MidiHeaderInfo {
            is_standard_midi: true,
            header_format: Some(be16_exec(bytes[8], bytes[9])),
            declared_tracks: Some(be16_exec(bytes[10], bytes[11])),
            ticks_per_quarter: Some(be16_exec(bytes[12], bytes[13])),
            detected_tracks: count,
        }
    } else {
        MidiHeaderInfo {
            is_standard_midi: false,
            header_format: None,
            declared_tracks: None,
            ticks_per_quarter: None,
            detected_tracks: count,
        }
    }
}

/// A quick look at a MIDI file's header.
pub struct MidiAnalysisReport {
    pub file: String,
    pub size_bytes: u64,
    pub header_format: Option<u16>,
    pub declared_tracks: Option<u16>,
    pub detected_tracks: usize,
    pub ticks_per_quarter: Option<u16>,
    pub key_hint: Option<String>,
    pub is_standard_midi: bool,
}

/// The header summary of one file, for comparisons.
pub struct MidiFileSummary {
    pub file: String,
    pub size_bytes: u64,
    pub header_format: Option<u16>,
    pub declared_tracks: Option<u16>,
    pub detected_tracks: usize,
    pub ticks_per_quarter: Option<u16>,
    pub is_standard_midi: bool,
}

/// The report on a file of `size_bytes` bytes whose content is `bytes`.
pub fn analyze_midi_bytes(file: String, size_bytes: u64, bytes: &[u8], key_hint: Option<String>) -> (rep: MidiAnalysisReport)
    ensures
        rep.file@ == file@,
        rep.size_bytes == size_bytes,
        rep.key_hint == key_hint,
        rep.is_standard_midi == header_info(bytes@).is_standard_midi,
        rep.header_format == header_info(bytes@).header_format,
        rep.declared_tracks == header_info(bytes@).declared_tracks,
        rep.ticks_per_quarter == header_info(bytes@).ticks_per_quarter,
        rep.detected_tracks == header_info(bytes@).detected_tracks,
{
    let info = inspect_midi_header(bytes);
    MidiAnalysisReport {
        file,
        size_bytes,
        header_format: info.header_format,
        declared_tracks: info.declared_tracks,
        detected_tracks: info.detected_tracks,
        ticks_per_quarter: info.ticks_per_quarter,
        key_hint,
        is_standard_midi: info.is_standard_midi,
    }
}

/// The summary of a file of `size_bytes` bytes whose content is `bytes`.
pub fn midi_summary(file: String, size_bytes: u64, bytes: &[u8]) -> (s: MidiFileSummary)
    ensures
        s.file@ == file@,
        s.size_bytes == size_bytes,
        s.is_standard_midi == header_info(bytes@).is_standard_midi,
        s.header_format == header_info(bytes@).header_format,
        s.declared_tracks == header_info(bytes@).declared_tracks,
        s.ticks_per_quarter == header_info(bytes@).ticks_per_quarter,
        s.detected_tracks == header_info(bytes@).detected_tracks,
{
    let info = inspect_midi_header(bytes);
    MidiFileSummary {
        file,
        size_bytes,
        header_format: info.header_format,
        declared_tracks: info.declared_tracks,
        detected_tracks: info.detected_tracks,
        ticks_per_quarter: info.ticks_per_quarter,
        is_standard_midi: info.is_standard_midi,
    }
}

pub open spec fn opt_int(o: Option<u16>) -> Option<int> {
    match o {
        Some(v) => Some(v as int),
        None => None,
    }
}

/// The line naming the declared format and track count, or only the detected chunks.
pub open spec fn format_line(format: Option<u16>, declared: Option<u16>, detected: usize) -> Seq<char> {
    match format {
        Some(f) => "Declared format: "@ + dec_nat(f as nat) + ", tracks: "@ + dbg_opt(opt_int(declared))
            + ", detected chunks: "@ + dec_nat(detected as nat) + ".\n"@,
        None => "Detected track chunks: "@ + dec_nat(detected as nat) + ".\n"@,
    }
}

fn push_format_line(out: &mut String, format: Option<u16>, declared: Option<u16>, detected: usize)
    ensures
        final(out)@ == old(out)@ + format_line(format, declared, detected),
{
    let ghost start = out@;
    match format {
        Some(f) => {
            out.append("Declared format: ");
            push_nat(out, f as u128);
            out.append(", tracks: ");
            push_dbg_opt(
                out,
                match declared {
                    Some(d) => Some(d as i128),
                    None => None,
                },
            );
            out.append(", detected chunks: ");
            push_nat(out, detected as u128);
            out.append(".\n");
        },
        None => {
            out.append("Detected track chunks: ");
            push_nat(out, detected as u128);
            out.append(".\n");
        },
    }
    assert(out@ =~= start + format_line(format, declared, detected));
}

impl MidiAnalysisReport {
    pub open spec fn head_text(&self) -> Seq<char> {
        "MIDI file: "@ + self.file@ + " ("@ + dec_nat(self.size_bytes as nat) + " bytes).\n"@ + (if self.is_standard_midi {
            "Standard MIDI header detected"@
        } else {
            "Unknown/invalid MIDI header"@
        }) + ".\n"@
    }

    pub open spec fn tail_text(&self) -> Seq<char> {
        (match self.ticks_per_quarter {
            Some(t) => "Ticks per quarter note: "@ + dec_nat(t as nat) + ".\n"@,
            None => Seq::empty(),
        }) + (match self.key_hint {
            Some(k) => "Context key hint: "@ + k@ + ".\n"@,
            None => Seq::empty(),
        })
    }

    /// The text rendering of this report.
    pub open spec fn text(&self) -> Seq<char> {
        self.head_text() + format_line(self.header_format, self.declared_tracks, self.detected_tracks)
            + self.tail_text()
    }

    fn push_head(&self, out: &mut String)
        ensures
            final(out)@ == old(out)@ + self.head_text(),
    {
        let ghost start = out@;
        out.append("MIDI file: ");
        out.append(self.file.as_str());
        out.append(" (");
        push_nat(out, self.size_bytes as u128);
        out.append(" bytes).\n");
        if self.is_standard_midi {
            out.append("Standard MIDI header detected");
        } else {
            out.append("Unknown/invalid MIDI header");
        }
        out.append(".\n");
        assert(out@ =~= start + self.head_text());
    }

    fn push_tail(&self, out: &mut String)
        ensures
            final(out)@ == old(out)@ + self.tail_text(),
    {
        let ghost start = out@;
        if let Some(t) = self.ticks_per_quarter {
            out.append("Ticks per quarter note: ");
            push_nat(out, t as u128);
            out.append(".\n");
        }
        if let Some(k) = &self.key_hint {
            out.append("Context key hint: ");
            out.append(k.as_str());
            out.append(".\n");
        }
        assert(out@ =~= start + self.tail_text());
    }

    /// Renders the report as text (see `text`).
    pub fn render_text(&self) -> (out: String)
        ensures
            out@ == self.text(),
    {
        let mut out = String::new();
        self.push_head(&mut out);
        push_format_line(&mut out, self.header_format, self.declared_tracks, self.detected_tracks);
        self.push_tail(&mut out);
        assert(out@ =~= self.text());
        out
    }
}

/// The first line describing one side of a comparison.
pub open spec fn midi_side_head(label: Seq<char>, s: MidiFileSummary) -> Seq<char> {
    label + ": "@ + s.file@ + " ("@ + dec_nat(s.size_bytes as nat) + " bytes, fmt "@ + dbg_opt(opt_int(s.header_format))
        + ", declared "@ + dbg_opt(opt_int(s.declared_tracks)) + ", detected "@ + dec_nat(s.detected_tracks as nat)
        + ").\n"@
}

/// The lines describing one side of a comparison.
pub open spec fn midi_side_text(label: Seq<char>, s: MidiFileSummary) -> Seq<char> {
    midi_side_head(label, s) + (match s.ticks_per_quarter {
        Some(t) => "  TPQ: "@ + dec_nat(t as nat) + ".\n"@,
        None => Seq::empty(),
    }) + "  Standard MIDI header: "@ + (if s.is_standard_midi {
        "yes"@
    } else {
        "no"@
    }) + ".\n"@
}

fn push_side_head(out: &mut String, label: &str, summary: &MidiFileSummary)
    ensures
        final(out)@ == old(out)@ + midi_side_head(label@, *summary),
{
    let ghost start = out@;
    out.append(label);
    out.append(": ");
    out.append(summary.file.as_str());
    out.append(" (");
    push_nat(out, summary.size_bytes as u128);
    out.append(" bytes, fmt ");
    push_dbg_opt(
        out,
        match summary.header_format {
            Some(d) => Some(d as i128),
            None => None,
        },
    );
    let ghost mid = out@;
    out.append(", declared ");
    push_dbg_opt(
        out,
        match summary.declared_tracks {
            Some(d) => Some(d as i128),
            None => None,
        },
    );
    out.append(", detected ");
    push_nat(out, summary.detected_tracks as u128);
    out.append(").\n");
    assert(out@ =~= start + midi_side_head(label@, *summary));
}

/// Appends the lines describing one side of a comparison (see `midi_side_text`).
pub fn render_midi_side(out: &mut String, label: &str, summary: &MidiFileSummary)
    ensures
        final(out)@ == old(out)@ + midi_side_text(label@, *summary),
{
    let ghost start = out@;
    push_side_head(out, label, summary);
    let ghost mid = out@;
    if let Some(t) = summary.ticks_per_quarter {
        out.append("  TPQ: ");
        push_nat(out, t as u128);
        out.append(".\n");
    }
    out.append("  Standard MIDI header: ");
    if summary.is_standard_midi {
        out.append("yes");
    } else {
        out.append("no");
    }
    out.append(".\n");
    assert(out@ =~= start + midi_side_text(label@, *summary));
}

/// A comparison of two MIDI files' headers.
pub struct MidiDiffReport {
    pub left: MidiFileSummary,
    pub right: MidiFileSummary,
    pub size_delta: i64,
    pub track_delta: i32,
    pub commentary: Vec<String>,
}

/// The remarks on two headers: format, resolution and header presence, in that order,
/// each when it differs.
pub open spec fn midi_diff_commentary(l: MidiFileSummary, r: MidiFileSummary) -> Seq<Seq<char>> {
    (if l.header_format != r.header_format {
        seq!["Header format differs"@]
    } else {
        Seq::empty()
    }) + (if l.ticks_per_quarter != r.ticks_per_quarter {
        seq!["Ticks-per-quarter resolution differs"@]
    } else {
        Seq::empty()
    }) + (if l.is_standard_midi != r.is_standard_midi {
        seq!["One file advertises a Standard MIDI header, the other does not"@]
    } else {
        Seq::empty()
    })
}

/// Compares two header summaries: the size and track-count differences (left minus
/// right) and the remarks of `midi_diff_commentary`.
pub fn midi_diff(left: MidiFileSummary, right: MidiFileSummary) -> (rep: MidiDiffReport)
    requires
        left.size_bytes <= i64::MAX,
        right.size_bytes <= i64::MAX,
        left.detected_tracks <= i32::MAX,
        right.detected_tracks <= i32::MAX,
    ensures
        rep.size_delta == left.size_bytes - right.size_bytes,
        rep.track_delta == left.detected_tracks - right.detected_tracks,
        rep.commentary@.map_values(|c: String| c@) == midi_diff_commentary(left, right),
        rep.left == left,
        rep.right == right,
{
    let size_delta = left.size_bytes as i64 - right.size_bytes as i64;
    let track_delta = left.detected_tracks as i32 - right.detected_tracks as i32;
    let mut commentary: Vec<String> = Vec::new();
    if left.header_format != right.header_format {
        commentary.push(String::from_str("Header format differs"));
    }
    let ghost c1 = commentary@.map_values(|c: String| c@);
    if left.ticks_per_quarter != right.ticks_per_quarter {
        commentary.push(String::from_str("Ticks-per-quarter resolution differs"));
    }
    let ghost c2 = commentary@.map_values(|c: String| c@);
    if left.is_standard_midi != right.is_standard_midi {
        commentary.push(String::from_str("One file advertises a Standard MIDI header, the other does not"));
    }
    assert(commentary@.map_values(|c: String| c@) =~= midi_diff_commentary(left, right));
    MidiDiffReport { left, right, size_delta, track_delta, commentary }
}

impl MidiDiffReport {
    /// The text rendering of this report.
    pub open spec fn text(&self) -> Seq<char> {
        "MIDI diff — size Δ "@ + dec_int(self.size_delta as int) + " bytes, track Δ "@ + dec_int(self.track_delta as int)
            + ".\n"@ + midi_side_text("Left"@, self.left) + midi_side_text("Right"@, self.right) + if self.commentary.len() > 0 {
            "\n"@ + concat_map(self.commentary@, |c: String| "- "@ + c@ + "\n"@)
        } else {
            Seq::empty()
        }
    }

    /// Renders the report as text (see `text`).
    pub fn render_text(&self) -> (out: String)
        ensures
            out@ == self.text(),
    {
        let mut out = String::new();
        out.append("MIDI diff — size Δ ");
        push_int(&mut out, self.size_delta as i128);
        out.append(" bytes, track Δ ");
        push_int(&mut out, self.track_delta as i128);
        out.append(".\n");
        render_midi_side(&mut out, "Left", &self.left);
        render_midi_side(&mut out, "Right", &self.right);
        if self.commentary.len() > 0 {
            out.append("\n");
            let ghost base = out@;
            for i in 0..self.commentary.len()
                invariant
                    out@ == base + concat_map(self.commentary@.take(i as int), |c: String| "- "@ + c@ + "\n"@),
            {
                out.append("- ");
                out.append(self.commentary[i].as_str());
                out.append("\n");
                assert(self.commentary@.take(i + 1).drop_last() =~= self.commentary@.take(i as int));
                assert(out@ =~= base + concat_map(self.commentary@.take(i + 1), |c: String| "- "@ + c@ + "\n"@));
            }
            assert(self.commentary@.take(self.commentary.len() as int) =~= self.commentary@);
        }
        out
    }
}

} // verus!
