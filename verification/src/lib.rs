//! Core of a sample-based synthesis engine for SFZ-style instruments.
//!
//! The crate holds the part of the engine that decides: which regions answer a
//! MIDI message, which voices start, release or are stolen, how the sustain
//! pedal defers releases, how mutually exclusive groups silence each other,
//! and which stage of its envelope each voice is in. All of it works on
//! integers and is stated over mathematical views. The arithmetic on samples
//! is left to the code that renders audio: it reads the voice tables kept
//! here, and reports the voices whose sample has run out.

pub mod engine;
pub mod envelope;
pub mod laws;
pub mod midi;
pub mod note_set;
pub mod range;
pub mod region;
pub mod region_data;
pub mod sample;
pub mod voice;

pub use engine::{Engine, EngineError};
pub use envelope::{AdsrEnvelope, Phase, Stage, StageLengths};
pub use midi::{MidiMessage, PEDAL_PUSHED, SUSTAIN_PEDAL};
pub use note_set::NoteSet;
pub use range::{
    ControlValRange, NoteRange, Opcode, RandomRange, RangeError, VelRange, MIDI_MAX, RANDOM_UNIT,
};
pub use region::{Region, RegionView};
pub use region_data::{RegionData, RegionParams, Trigger, DEFAULT_KEYCENTER, TUNE_MAX};
pub use sample::{frame_count, frame_slots};
pub use voice::{SampleVoice, SampleVoiceView, Voice, POLYPHONY_LIMIT};
