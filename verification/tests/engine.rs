use music_mic::audio::engine::{
    resolve_selection, ring_capacity, EngineAction, EngineCommand, EngineControl, EngineEvent,
    EngineSelection, StartError,
};
use music_mic::audio::types::{EngineState, SourceId, SourceState, UNITY_GAIN_BITS};
use std::sync::atomic::Ordering;

fn selection(mic: Option<&str>, app: Option<&str>, out: Option<&str>) -> EngineSelection {
    EngineSelection {
        mic_device_name: mic.map(|s| s.to_string()),
        system_app_bundle_id: app.map(|s| s.to_string()),
        output_device_name: out.map(|s| s.to_string()),
    }
}

#[test]
fn selection_needs_mic_then_app() {
    assert_eq!(resolve_selection(&selection(None, None, None)).unwrap_err(), StartError::NoMicrophone);
    assert_eq!(resolve_selection(&selection(Some("Mic"), None, None)).unwrap_err(), StartError::NoSystemApp);
    assert_eq!(StartError::NoMicrophone.message(), "no microphone device selected");
    assert_eq!(StartError::NoSystemApp.message(), "no system audio app selected");
}

#[test]
fn selection_output_defaults_to_blackhole() {
    let t = resolve_selection(&selection(Some("Mic"), Some("com.spotify.client"), None)).unwrap();
    assert_eq!(t.mic_device_name, "Mic");
    assert_eq!(t.app_bundle_id, "com.spotify.client");
    assert_eq!(t.output_device_name, "BlackHole 2ch");
    let t = resolve_selection(&selection(Some("Mic"), Some("a"), Some("Other"))).unwrap();
    assert_eq!(t.output_device_name, "Other");
}

#[test]
fn ring_holds_200_ms_of_stereo() {
    assert_eq!(ring_capacity(), 19_200);
}

#[test]
fn start_then_restart_then_stop() {
    let mut c = EngineControl::new();
    assert!(!c.live());
    match c.handle(EngineEvent::Command(EngineCommand::Start(selection(Some("Mic"), Some("a"), None)))) {
        EngineAction::OpenStreams { close_running, targets } => {
            assert!(!close_running);
            assert_eq!(targets.output_device_name, "BlackHole 2ch");
        }
        other => panic!("unexpected {:?}", other),
    }
    assert!(matches!(c.handle(EngineEvent::StreamsOpened), EngineAction::MarkActive));
    assert!(c.live());
    match c.handle(EngineEvent::Command(EngineCommand::Start(selection(Some("Mic"), Some("a"), None)))) {
        EngineAction::OpenStreams { close_running, .. } => assert!(close_running),
        other => panic!("unexpected {:?}", other),
    }
    assert!(!c.live());
    assert!(matches!(c.handle(EngineEvent::StreamsFailed), EngineAction::ReportOpenFailure));
    assert!(matches!(c.handle(EngineEvent::Command(EngineCommand::Stop)), EngineAction::StopStreams));
    assert!(!c.live());
}

#[test]
fn refused_start_closes_running_streams() {
    let mut c = EngineControl::new();
    c.handle(EngineEvent::StreamsOpened);
    match c.handle(EngineEvent::Command(EngineCommand::Start(selection(Some("Mic"), None, None)))) {
        EngineAction::RefuseStart { close_running, error } => {
            assert!(close_running);
            assert_eq!(error, StartError::NoSystemApp);
        }
        other => panic!("unexpected {:?}", other),
    }
    assert!(!c.live());
}

#[test]
fn gain_idle_and_exit() {
    let mut c = EngineControl::new();
    match c.handle(EngineEvent::Command(EngineCommand::SetGain { source: SourceId::System, gain_bits: 1.5f32.to_bits() })) {
        EngineAction::SetGain { source, gain_bits } => {
            assert_eq!(source, SourceId::System);
            assert_eq!(f32::from_bits(gain_bits), 1.5);
        }
        other => panic!("unexpected {:?}", other),
    }
    assert!(matches!(c.handle(EngineEvent::Idle), EngineAction::Wait));
    assert!(matches!(c.handle(EngineEvent::Command(EngineCommand::Shutdown)), EngineAction::Exit));
    assert!(matches!(c.handle(EngineEvent::Disconnected), EngineAction::Exit));
}

#[test]
fn fresh_state_is_silent_at_unity_gain() {
    let s = SourceState::new(SourceId::System);
    assert_eq!(s.id, SourceId::System);
    assert_eq!(f32::from_bits(s.gain_bits.load(Ordering::Relaxed)), 1.0);
    assert_eq!(UNITY_GAIN_BITS, 1.0f32.to_bits());
    assert_eq!(s.peak_bits.load(Ordering::Relaxed), 0);
    assert!(!s.active.load(Ordering::Relaxed));
    let e = EngineState::new();
    assert_eq!(e.mic.id, SourceId::Mic);
    assert_eq!(e.system.id, SourceId::System);
    assert!(e.mic_voice_processing.load(Ordering::Relaxed));
    assert_eq!(e.underruns.load(Ordering::Relaxed), 0);
    let d = EngineState::default();
    assert_eq!(d.master.id, SourceId::Mic);
}
