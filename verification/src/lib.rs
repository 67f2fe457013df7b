//! Verified core of a microphone and application-audio mixer.
pub mod audio;
pub mod ui;
