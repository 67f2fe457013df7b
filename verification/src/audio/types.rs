//! Pipeline format and the state shared between the audio engine and the UI.
//!
//! Levels and gains are 32-bit float bit patterns kept in atomics, so the
//! audio threads never block the UI and the UI never takes a lock on the
//! audio path.
use vstd::prelude::*;
use std::sync::Arc;
use std::sync::atomic::{AtomicBool, AtomicU32};

verus! {

/// Sample rate of the internal pipeline, in frames per second.
pub const PIPELINE_SAMPLE_RATE: u32 = 48_000;

/// Channels of the internal pipeline (interleaved stereo).
pub const PIPELINE_CHANNELS: u16 = 2;

/// Bit pattern of the single-precision number one: unity gain.
pub const UNITY_GAIN_BITS: u32 = 0x3F80_0000;

/// The two sources that are mixed.
#[derive(Copy, Clone, Debug, PartialEq, Eq, Hash, Structural)]
pub enum SourceId {
    Mic,
    System,
}

/// Per-source live state shared between the audio engine and the UI: gain,
/// peak and RMS level as float bit patterns, and whether the source runs.
pub struct SourceState {
    pub id: SourceId,
    pub gain_bits: AtomicU32,
    pub peak_bits: AtomicU32,
    pub rms_bits: AtomicU32,
    pub active: AtomicBool,
}

impl SourceState {
    /// A silent, inactive source at unity gain.
    pub fn new(id: SourceId) -> (s: Self)
        ensures
            s.id == id,
    {
        SourceState {
            id,
            gain_bits: AtomicU32::new(UNITY_GAIN_BITS),
            peak_bits: AtomicU32::new(0),
            rms_bits: AtomicU32::new(0),
            active: AtomicBool::new(false),
        }
    }
}

/// Bundle of state the UI polls for live readouts.
#[derive(Clone)]
pub struct EngineState {
    pub mic: Arc<SourceState>,
    pub system: Arc<SourceState>,
    pub master: Arc<SourceState>,
    pub underruns: Arc<AtomicU32>,
    /// Whether voice isolation runs on the microphone before mixing.
    pub mic_voice_processing: Arc<AtomicBool>,
}

impl EngineState {
    /// Fresh state: microphone, system and master meters (the master reuses
    /// the microphone id, which nothing reads), no underruns, voice isolation
    /// on.
    pub fn new() -> (s: Self)
        ensures
            s.mic.id == SourceId::Mic,
            s.system.id == SourceId::System,
            s.master.id == SourceId::Mic,
    {
        EngineState {
            mic: Arc::new(SourceState::new(SourceId::Mic)),
            system: Arc::new(SourceState::new(SourceId::System)),
            master: Arc::new(SourceState::new(SourceId::Mic)),
            underruns: Arc::new(AtomicU32::new(0)),
            mic_voice_processing: Arc::new(AtomicBool::new(true)),
        }
    }
}

impl Default for EngineState {
    fn default() -> (s: Self)
        ensures
            s.mic.id == SourceId::Mic,
            s.system.id == SourceId::System,
            s.master.id == SourceId::Mic,
    {
        EngineState::new()
    }
}

} // verus!
