//! The commands of the toolkit and their arguments, as plain data.

use vstd::prelude::*;
use crate::theory::{ChordVoicing, ScaleKind};

verus! {

#[derive(Debug)]
pub enum ListCommand {
    /// List registered tuning systems and sample frequencies
    Systems(SystemsArgs),
    /// List diatonic chords for a given root/scale/system
    Chords(ChordArgs),
    /// Rotate the selected scale through its modes
    Modes(ModesArgs),
}

#[derive(Debug)]
pub enum GenerateCommand {
    /// Generate a short motif within the selected scale
    Motif(GenerateMotifArgs),
    /// Generate an arpeggio pattern anchored to the scale
    Arpeggio(GenerateArpeggioArgs),
    /// Generate a rhythm cell sized for the density
    Rhythm(GenerateRhythmArgs),
}

#[derive(Debug)]
pub enum MapCommand {
    /// Render a pitch-class map for a scale in a system
    Scale(MapScaleArgs),
}

#[derive(Debug)]
pub enum ProfileCommand {
    /// Profile a melody sequence (pitch indices only)
    Melody(ProfileMelodyArgs),
    /// Profile a MIDI file with timing information
    Midi(ProfileMidiArgs),
}

#[derive(Debug)]
pub enum InterpolateCommand {
    /// Interpolate tempo envelope between anchor points
    Tempo(InterpolateTempoArgs),
    /// Interpolate velocity/expression envelopes
    Velocity(InterpolateVelocityArgs),
}

#[derive(Debug)]
pub enum SearchCommand {
    /// Find scales containing the provided notes
    Scale(SearchScaleArgs),
    /// Find chords containing the provided notes
    Chord(SearchChordArgs),
}

#[derive(Debug)]
pub enum EstimateCommand {
    /// Estimate key from a melody sequence
    Melody(EstimateMelodyArgs),
    /// Estimate tempo, key, and meter from a MIDI file
    Midi(EstimateMidiArgs),
}

#[derive(Debug)]
pub enum ExplainDiffCommand {
    /// Compare two melodies via pitch-class histograms
    Melody(ExplainDiffMelodyArgs),
    /// Compare two Roman-numeral progressions
    Progression(ExplainDiffProgressionArgs),
    /// Compare two MIDI files via header metadata
    Midi(ExplainDiffMidiArgs),
}

#[derive(Debug)]
pub enum ScoreCommand {
    /// Score functional strength and cadence weight
    Progression(ScoreProgressionArgs),
    /// Score melodic tension density and resolution
    Melody(ScoreMelodyArgs),
    /// Score chord color/tension profile
    Chord(ScoreChordArgs),
}

#[derive(Debug)]
pub enum InspectCommand {
    /// Describe a pitch index within the selected tuning system
    Pitch(PitchArgs),
}

#[derive(Debug)]
pub enum ExplainCommand {
    /// Explain a single pitch inside a tuning system
    Pitch(ExplainPitchArgs),
    /// Explain a scale and its degrees
    Scale(ExplainScaleArgs),
    /// Explain a diatonic chord within a scale context
    Chord(ExplainChordArgs),
}

#[derive(Debug)]
pub enum ValidateCommand {
    /// Validate a melody against a scale and interval constraints
    Melody(ValidateMelodyArgs),
    /// Validate a Roman numeral progression for syntax and flow
    Progression(ValidateProgressionArgs),
    /// Validate tuning system registration and sample indices
    Tuning(ValidateTuningArgs),
}

#[derive(Debug)]
pub enum RenderCommand {
    /// Render a staff notation for a melody or note sequence
    Staff(RenderStaffArgs),
    /// Render a piano roll visualization for a note sequence
    PianoRoll(RenderPianoRollArgs),
}

#[derive(Debug)]
pub enum MidiConvertCommand {
    /// Flatten a MIDI file into a CSV note table
    ToCsv(ConvertMidiToCsvArgs),
    /// Rebuild a MIDI file from a CSV note table
    FromCsv(ConvertCsvToMidiArgs),
}

#[derive(Debug)]
pub enum SuggestCommand {
    /// Suggest borrowed chords from parallel modes for reharmonization
    Reharm(ReharmArgs),
}

#[derive(Debug)]
pub enum ExtrapolateCommand {
    /// Predict likely melody continuations using n-gram analysis
    Melody(ExtrapolateMelodyArgs),
    /// Predict likely chord progressions using transition models
    Chords(ExtrapolateChordsArgs),
}

#[derive(Clone, Copy, Debug, PartialEq, Eq, Structural)]
pub enum PatternDensity {
    Sparse,
    Balanced,
    Dense,
}

#[derive(Debug)]
pub enum AnalyzeCommand {
    /// Infer key/scale/mode and note statistics for a melody
    Melody(AnalyzeMelodyArgs),
    /// Break down chord functions and cadences in a progression
    Chords(AnalyzeChordsArgs),
    /// Summarize a MIDI file (size, track count placeholder)
    Midi(AnalyzeMidiArgs),
}

#[derive(Debug)]
pub enum ExposeCommand {
    /// Show registered tuning systems and metadata
    Tunings(SystemsArgs),
    /// Inspect modal rotations including frequency tables
    Modes(ModesArgs),
}

#[derive(Clone, Copy, Debug)]
pub struct SystemsArgs {
    /// Reference pitch index used to sample each system.
    pub reference_index: i32,
}

#[derive(Debug)]
pub struct PitchArgs {
    /// MIDI-like index (defaults to concert A4 = 69).
    pub index: i32,
    /// Pitch system identifier registered with the engine.
    pub system: String,
}

#[derive(Debug)]
pub struct ChordArgs {
    /// Root index used to anchor the scale/chords.
    pub root: i32,
    /// Pitch system identifier registered with the engine.
    pub system: String,
    /// Scale used to derive diatonic chords.
    pub scale: ScaleKind,
    /// Whether to list triads or seventh chords.
    pub voicing: ChordVoicing,
}

#[derive(Debug)]
pub struct ModesArgs {
    /// Root index used to anchor the parent scale.
    pub root: i32,
    /// Pitch system identifier registered with the engine.
    pub system: String,
    /// Scale that will be rotated through its modes.
    pub scale: ScaleKind,
}

#[derive(Debug)]
pub struct ReharmArgs {
    /// Root index used to anchor the parent scale.
    pub root: i32,
    /// Pitch system identifier registered with the engine.
    pub system: String,
    /// Scale whose parallel modes will be evaluated.
    pub scale: ScaleKind,
    /// Whether to list triads or seventh chords for each mode.
    pub voicing: ChordVoicing,
    /// Optional base-scale degree (1-indexed) to match when filtering borrowed chords.
    pub degree: Option<usize>,
}

#[derive(Debug)]
pub struct AnalyzeMelodyArgs {
    /// Comma-separated list of MIDI-like pitch indices (e.g., 60,62,64,65).
    pub notes: Vec<i32>,
    /// Optional context key to bias analysis (e.g., Cmaj, Amin).
    pub key_hint: Option<String>,
    /// Pitch system identifier registered with the engine.
    pub system: String,
}

#[derive(Debug)]
pub struct AnalyzeChordsArgs {
    /// Comma-separated Roman numerals (e.g., I,vi,ii,V) describing the progression.
    pub progression: Vec<String>,
    /// Optional context key to anchor the progression (e.g., Cmaj).
    pub key_hint: Option<String>,
    /// Pitch system identifier registered with the engine.
    pub system: String,
}

#[derive(Debug)]
pub struct ScoreProgressionArgs {
    /// Comma-separated Roman numerals (e.g., I,vi,ii,V) describing the progression.
    pub progression: Vec<String>,
    /// Optional key hint (e.g., Cmaj) surfaced with commentary.
    pub key_hint: Option<String>,
}

#[derive(Debug)]
pub struct ScoreMelodyArgs {
    /// Comma-separated list of MIDI-like pitch indices (e.g., 60,62,64,65).
    pub notes: Vec<i32>,
    /// Optional context key to bias commentary (e.g., Cmaj, Amin).
    pub key_hint: Option<String>,
    /// Pitch system identifier registered with the engine for labeling.
    pub system: String,
}

#[derive(Debug)]
pub struct ScoreChordArgs {
    /// Comma-separated list of MIDI-like pitch indices (root to top).
    pub notes: Vec<i32>,
    /// Pitch system identifier registered with the engine for labeling.
    pub system: String,
}

#[derive(Debug)]
pub struct AnalyzeMidiArgs {
    /// Path to a MIDI file to summarize.
    pub file: String,
    /// Optional context key for downstream reporting.
    pub key_hint: Option<String>,
    /// Pitch system identifier registered with the engine (used for note labels).
    pub system: String,
}

#[derive(Debug)]
pub struct ExplainDiffMelodyArgs {
    /// Left-hand melody as comma-separated MIDI-like indices.
    pub left_notes: Vec<i32>,
    /// Right-hand melody as comma-separated MIDI-like indices.
    pub right_notes: Vec<i32>,
    /// Optional context key surfaced in commentary (e.g., Cmaj).
    pub key_hint: Option<String>,
    /// Pitch system identifier registered with the engine.
    pub system: String,
}

#[derive(Debug)]
pub struct ExplainDiffProgressionArgs {
    /// Left-hand Roman numeral progression.
    pub left: Vec<String>,
    /// Right-hand Roman numeral progression.
    pub right: Vec<String>,
    /// Optional context key associated with both progressions.
    pub key_hint: Option<String>,
}

#[derive(Debug)]
pub struct ExplainDiffMidiArgs {
    /// Left-hand MIDI file path.
    pub left_file: String,
    /// Right-hand MIDI file path.
    pub right_file: String,
}

#[derive(Debug)]
pub struct MapScaleArgs {
    /// Root index anchoring the map (e.g., 60 for middle C).
    pub root: i32,
    /// Pitch system identifier registered with the engine.
    pub system: String,
    /// Scale used to populate the pitch-class map.
    pub scale: ScaleKind,
    /// Number of modal rotations to highlight as modulation candidates.
    pub modulations: usize,
}

#[derive(Clone, Debug)]
pub struct InterpolateCommonArgs {
    /// Comma-separated time:value anchor points (e.g., 0:120,4:140).
    pub points: Vec<String>,
    /// Number of interpolated samples between the anchors.
    pub samples: usize,
    /// Interpolation curve.
    pub curve: InterpolationCurve,
}

#[derive(Debug)]
pub struct SearchScaleArgs {
    /// Notes or pitch indices whose pitch classes must be present.
    pub notes: Vec<i32>,
    /// Pitch system identifier used for labeling.
    pub system: String,
    /// Maximum number of matches to display.
    pub limit: usize,
}

#[derive(Debug)]
pub struct SearchChordArgs {
    /// Notes or pitch indices whose pitch classes must be present.
    pub notes: Vec<i32>,
    /// Pitch system identifier used for labeling.
    pub system: String,
    /// Whether to search triads or seventh chords.
    pub voicing: ChordVoicing,
    /// Maximum number of matches to display.
    pub limit: usize,
}

#[derive(Clone, Copy, Debug, PartialEq, Eq, Structural)]
pub enum InterpolationCurve {
    Linear,
    EaseIn,
    EaseOut,
    EaseInOut,
}

#[derive(Clone, Debug)]
pub struct InterpolateTempoArgs {
    pub common: InterpolateCommonArgs,
    /// Units for value column (BPM or relative multiplier).
    pub unit: TempoUnit,
}

#[derive(Clone, Copy, Debug, PartialEq, Eq, Structural)]
pub enum TempoUnit {
    Bpm,
    Multiplier,
}

#[derive(Clone, Debug)]
pub struct InterpolateVelocityArgs {
    pub common: InterpolateCommonArgs,
    /// Clamp velocity range (default MIDI 0-127).
    pub min_value: i32,
    pub max_value: i32,
}

#[derive(Debug)]
pub struct ExplainPitchArgs {
    /// Abstract pitch index to explain (default A4).
    pub index: i32,
    /// Pitch system identifier registered with the engine.
    pub system: String,
    /// Optional key context (e.g., Cmaj, Amin) used to describe functional role.
    pub key_hint: Option<String>,
}

#[derive(Debug)]
pub struct ExplainScaleArgs {
    /// Root index used to anchor the scale.
    pub root: i32,
    /// Pitch system identifier registered with the engine.
    pub system: String,
    /// Scale to explain.
    pub scale: ScaleKind,
    /// Number of degrees to describe (defaults to one diatonic octave).
    pub degrees: usize,
}

#[derive(Debug)]
pub struct ExplainChordArgs {
    /// Root index used to anchor the parent scale.
    pub root: i32,
    /// Pitch system identifier registered with the engine.
    pub system: String,
    /// Scale providing diatonic context for the chord.
    pub scale: ScaleKind,
    /// Diatonic degree (1-indexed) to explain.
    pub degree: usize,
    /// Whether to analyze a triad or seventh chord at the selected degree.
    pub voicing: ChordVoicing,
}

#[derive(Debug)]
pub struct ConvertPitchArgs {
    /// Pitch index to resolve (defaults to concert A4 = 69).
    pub index: i32,
    /// Pitch system identifier registered with the engine.
    pub system: String,
}

#[derive(Debug)]
pub struct ConvertMidiToCsvArgs {
    /// Path to the MIDI file to flatten.
    pub file: String,
    /// Optional limit on the number of note rows to emit.
    pub max_rows: Option<usize>,
}

#[derive(Debug)]
pub struct ConvertCsvToMidiArgs {
    /// Path to the CSV note table.
    pub csv: String,
    /// Output MIDI file that will be written.
    pub out: String,
    /// Pulses-per-quarter-note resolution of the generated file.
    pub ticks_per_quarter: u16,
}

#[derive(Debug)]
pub struct ConvertTemperamentArgs {
    /// Comma-separated list of pitch indices to remap.
    pub indices: Vec<i32>,
    /// Source pitch system identifier.
    pub from_system: String,
    /// Target pitch system identifier.
    pub to_system: String,
    /// Number of semitone steps (in each direction) to inspect when resolving targets.
    pub search_span: i32,
}

#[derive(Debug)]
pub struct ValidateMelodyArgs {
    /// Comma-separated list of MIDI-like pitch indices (e.g., 60,62,64).
    pub notes: Vec<i32>,
    /// Pitch system identifier registered with the engine.
    pub system: String,
    /// Root index anchoring the validation scale.
    pub root: i32,
    /// Scale used for validation.
    pub scale: ScaleKind,
    /// Maximum allowed melodic interval (in semitones) between adjacent notes.
    pub max_interval: i32,
}

#[derive(Debug)]
pub struct ValidateProgressionArgs {
    /// Comma-separated Roman numerals (e.g., I,vi,ii,V) describing the progression.
    pub progression: Vec<String>,
    /// Optional key hint (e.g., Cmaj) surfaced with diagnostics.
    pub key_hint: Option<String>,
}

#[derive(Debug)]
pub struct ValidateTuningArgs {
    /// Pitch system identifier registered with the engine.
    pub system: String,
    /// Comma-separated pitch indices probed for consistency.
    pub indices: Vec<i32>,
}

#[derive(Debug)]
pub struct RenderStaffArgs {
    /// Comma-separated list of MIDI-like pitch indices (e.g., 60,62,64,65,67).
    pub notes: Vec<i32>,
    /// Pitch system identifier registered with the engine.
    pub system: String,
    /// Whether to use Unicode box-drawing characters for the staff.
    pub unicode: bool,
    /// Optional key context (e.g., Cmaj) for accidental rendering.
    pub key_hint: Option<String>,
}

#[derive(Debug)]
pub struct RenderPianoRollArgs {
    /// Comma-separated list of MIDI-like pitch indices (e.g., 60,62,64).
    pub notes: Vec<i32>,
    /// Pitch system identifier registered with the engine.
    pub system: String,
    /// Width of the piano roll in character columns.
    pub width: usize,
    /// Number of vertical pitch steps to display (centered on note range).
    pub height: usize,
    /// Whether to use Unicode box-drawing characters for the grid.
    pub unicode: bool,
}

#[derive(Clone, Debug)]
pub struct GenerateCommonArgs {
    /// Root index anchoring the generated material.
    pub root: i32,
    /// Pitch system identifier registered with the engine.
    pub system: String,
    /// Scale used to derive pitch material.
    pub scale: ScaleKind,
    /// Density of generated events (sparse → dense).
    pub density: PatternDensity,
}

#[derive(Clone, Debug)]
pub struct GenerateMotifArgs {
    pub common: GenerateCommonArgs,
}

#[derive(Clone, Debug)]
pub struct GenerateArpeggioArgs {
    pub common: GenerateCommonArgs,
}

#[derive(Clone, Debug)]
pub struct GenerateRhythmArgs {
    pub common: GenerateCommonArgs,
}

#[derive(Debug)]
pub struct ExtrapolateMelodyArgs {
    /// Comma-separated list of MIDI-like pitch indices forming the input sequence.
    pub notes: Vec<i32>,
    /// Pitch system identifier registered with the engine.
    pub system: String,
    /// N-gram order (1=bigram, 2=trigram, etc.) for transition model.
    pub order: usize,
    /// Number of predictions to generate.
    pub count: usize,
    /// Optional key context (e.g., Cmaj, Amin) to guide predictions.
    pub key_hint: Option<String>,
}

#[derive(Debug)]
pub struct ExtrapolateChordsArgs {
    /// Comma-separated Roman numerals forming the input progression.
    pub progression: Vec<String>,
    /// N-gram order (1=bigram, 2=trigram, etc.) for transition model.
    pub order: usize,
    /// Number of predictions to generate.
    pub count: usize,
    /// Optional key context for reporting.
    pub key_hint: Option<String>,
}

#[derive(Debug)]
pub struct ProfileMelodyArgs {
    /// Comma-separated list of MIDI-like pitch indices to profile.
    pub notes: Vec<i32>,
    /// Pitch system identifier (for context, not used in profiling).
    pub system: String,
}

#[derive(Debug)]
pub struct ProfileMidiArgs {
    /// Path to MIDI file to profile.
    pub file: String,
    /// Pitch system identifier (for context, not used in profiling).
    pub system: String,
}

#[derive(Debug)]
pub struct EstimateMelodyArgs {
    /// Comma-separated list of MIDI-like pitch indices to analyze.
    pub notes: Vec<i32>,
    /// Pitch system identifier (for context).
    pub system: String,
}

#[derive(Debug)]
pub struct EstimateMidiArgs {
    /// Path to MIDI file to analyze.
    pub file: String,
    /// Pitch system identifier (for context).
    pub system: String,
}

} // verus!
