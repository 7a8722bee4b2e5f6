//! Music theory toolkit: analysis, validation and rendering logic.

pub mod text;
pub mod theory;
pub mod pitch;
pub mod chars;
pub mod roman;
pub mod key;
pub mod analysis;
pub mod validation;
pub mod resolve;
pub mod sort;
pub mod midi;
pub mod csv;
pub mod smf;
pub mod convert;
pub mod midi_header;
pub mod cli;
pub mod output;
pub mod search;
pub mod render;
pub mod order;
pub mod diff;
pub mod scale_map;
pub mod score;
pub mod generate;
pub mod explain;
pub mod interpolate;
pub mod extrapolate;
pub mod onsets;
pub mod reharm;
