//! Decisions of the audio engine's control thread.
//!
//! The control thread waits for commands from the UI and starts, stops and
//! adjusts the audio streams. Waiting, opening devices and logging happen
//! around this module; here each event is turned into the next state and the
//! action to perform.
use vstd::prelude::*;
use crate::audio::types::{SourceId, PIPELINE_SAMPLE_RATE, PIPELINE_CHANNELS};
use crate::audio::devices::BLACKHOLE_DEVICE_NAME;

verus! {

/// Selection of the inputs and of the virtual-microphone output.
#[derive(Clone, Debug, Default)]
pub struct EngineSelection {
    pub mic_device_name: Option<String>,
    pub system_app_bundle_id: Option<String>,
    /// Expected to be the virtual microphone; that device is used when unset.
    pub output_device_name: Option<String>,
}

/// Commands the UI sends to the engine. A gain is carried as the bit pattern
/// of its 32-bit float value.
#[derive(Clone, Debug)]
pub enum EngineCommand {
    Start(EngineSelection),
    Stop,
    SetGain { source: SourceId, gain_bits: u32 },
    Shutdown,
}

/// Why streams were not started for a selection.
#[derive(Clone, Copy, Debug, PartialEq, Eq, Structural)]
pub enum StartError {
    NoMicrophone,
    NoSystemApp,
}

impl StartError {
    /// The message shown for this error.
    pub fn message(&self) -> (r: String)
        ensures
            *self == StartError::NoMicrophone ==> r@ == "no microphone device selected"@,
            *self == StartError::NoSystemApp ==> r@ == "no system audio app selected"@,
    {
        match self {
            StartError::NoMicrophone => "no microphone device selected".to_owned(),
            StartError::NoSystemApp => "no system audio app selected".to_owned(),
        }
    }
}

/// The devices and application to open for a start.
#[derive(Clone, Debug, PartialEq, Eq)]
pub struct StreamTargets {
    pub mic_device_name: String,
    pub app_bundle_id: String,
    pub output_device_name: String,
}

/// The plain value of a set of targets: microphone, application, output.
pub open spec fn targets_view(t: StreamTargets) -> (Seq<char>, Seq<char>, Seq<char>) {
    (t.mic_device_name@, t.app_bundle_id@, t.output_device_name@)
}

/// What a selection resolves to: a microphone and an application are needed;
/// the output defaults to the virtual microphone.
pub open spec fn selection_targets(sel: EngineSelection) -> Result<(Seq<char>, Seq<char>, Seq<char>), StartError> {
    match sel.mic_device_name {
        None => Err(StartError::NoMicrophone),
        Some(mic) => match sel.system_app_bundle_id {
            None => Err(StartError::NoSystemApp),
            Some(app) => Ok((
                mic@,
                app@,
                match sel.output_device_name {
                    Some(out) => out@,
                    None => BLACKHOLE_DEVICE_NAME@,
                },
            )),
        },
    }
}

/// Resolves a selection into the devices and application to open.
pub fn resolve_selection(sel: &EngineSelection) -> (r: Result<StreamTargets, StartError>)
    ensures
        match (selection_targets(*sel), r) {
            (Ok(v), Ok(t)) => targets_view(t) == v,
            (Err(e), Err(f)) => e == f,
            _ => false,
        },
{
    let mic = match &sel.mic_device_name {
        Some(m) => m.clone(),
        None => { return Err(StartError::NoMicrophone); },
    };
    let app = match &sel.system_app_bundle_id {
        Some(a) => a.clone(),
        None => { return Err(StartError::NoSystemApp); },
    };
    let out = match &sel.output_device_name {
        Some(o) => o.clone(),
        None => BLACKHOLE_DEVICE_NAME.to_owned(),
    };
    Ok(StreamTargets { mic_device_name: mic, app_bundle_id: app, output_device_name: out })
}

/// Capacity of each source ring: 200 ms of pipeline audio.
pub fn ring_capacity() -> (r: usize)
    ensures
        r == (PIPELINE_SAMPLE_RATE / 5) * (PIPELINE_CHANNELS as int),
{
    let rate: usize = PIPELINE_SAMPLE_RATE as usize;
    let channels: usize = PIPELINE_CHANNELS as usize;
    assert(rate == 48_000 && channels == 2);
    (rate / 5) * channels
}

/// What the control thread observed.
#[derive(Clone, Debug)]
pub enum EngineEvent {
    /// A command arrived.
    Command(EngineCommand),
    /// No command arrived before the wait timed out.
    Idle,
    /// The command channel was closed.
    Disconnected,
    /// The streams requested by the last start are running.
    StreamsOpened,
    /// Opening the streams requested by the last start failed.
    StreamsFailed,
}

/// What the control thread does next.
#[derive(Clone, Debug)]
pub enum EngineAction {
    /// Leave the control loop.
    Exit,
    /// Nothing to do; wait for the next command.
    Wait,
    /// Close the running streams when `close_running`, then open `targets`.
    OpenStreams { close_running: bool, targets: StreamTargets },
    /// Close the running streams when `close_running`, then report `error`.
    RefuseStart { close_running: bool, error: StartError },
    /// Mark both sources active.
    MarkActive,
    /// Report that opening failed.
    ReportOpenFailure,
    /// Close the streams, mark both sources inactive and zero all meters.
    StopStreams,
    /// Store the gain of one source.
    SetGain { source: SourceId, gain_bits: u32 },
}

/// Whether streams are running after `event`, given whether they ran before.
pub open spec fn live_after(live: bool, event: EngineEvent) -> bool {
    match event {
        EngineEvent::Command(EngineCommand::Start(_)) => false,
        EngineEvent::Command(EngineCommand::Stop) => false,
        EngineEvent::StreamsOpened => true,
        EngineEvent::StreamsFailed => false,
        _ => live,
    }
}

/// The action for `event`, given whether streams ran before.
pub open spec fn action_for(live: bool, event: EngineEvent, action: EngineAction) -> bool {
    match event {
        EngineEvent::Command(EngineCommand::Shutdown) => action is Exit,
        EngineEvent::Disconnected => action is Exit,
        EngineEvent::Idle => action is Wait,
        EngineEvent::Command(EngineCommand::Stop) => action is StopStreams,
        EngineEvent::Command(EngineCommand::SetGain { source, gain_bits }) => action == (EngineAction::SetGain {
            source,
            gain_bits,
        }),
        EngineEvent::StreamsOpened => action is MarkActive,
        EngineEvent::StreamsFailed => action is ReportOpenFailure,
        EngineEvent::Command(EngineCommand::Start(sel)) => match (selection_targets(sel), action) {
            (Ok(v), EngineAction::OpenStreams { close_running, targets }) => close_running == live
                && targets_view(targets) == v,
            (Err(e), EngineAction::RefuseStart { close_running, error }) => close_running == live && error == e,
            _ => false,
        },
    }
}

/// State of the control thread: whether streams are running.
pub struct EngineControl {
    live: bool,
}

impl EngineControl {
    /// Whether streams are running.
    pub closed spec fn is_live(self) -> bool {
        self.live
    }

    /// No streams running.
    pub fn new() -> (c: Self)
        ensures
            !c.is_live(),
    {
        EngineControl { live: false }
    }

    /// Whether streams are running.
    pub fn live(&self) -> (r: bool)
        ensures
            r == self.is_live(),
    {
        self.live
    }

    /// Turns one observed event into the next state and the action to take.
    pub fn handle(&mut self, event: EngineEvent) -> (action: EngineAction)
        ensures
            final(self).is_live() == live_after(old(self).is_live(), event),
            action_for(old(self).is_live(), event, action),
    {
        let was_live = self.live;
        match event {
            EngineEvent::Command(EngineCommand::Shutdown) => EngineAction::Exit,
            EngineEvent::Disconnected => EngineAction::Exit,
            EngineEvent::Idle => EngineAction::Wait,
            EngineEvent::Command(EngineCommand::Stop) => {
                self.live = false;
                EngineAction::StopStreams
            },
            EngineEvent::Command(EngineCommand::SetGain { source, gain_bits }) => EngineAction::SetGain {
                source,
                gain_bits,
            },
            EngineEvent::StreamsOpened => {
                self.live = true;
                EngineAction::MarkActive
            },
            EngineEvent::StreamsFailed => {
                self.live = false;
                EngineAction::ReportOpenFailure
            },
            EngineEvent::Command(EngineCommand::Start(sel)) => {
                self.live = false;
                match resolve_selection(&sel) {
                    Ok(targets) => EngineAction::OpenStreams { close_running: was_live, targets },
                    Err(error) => EngineAction::RefuseStart { close_running: was_live, error },
                }
            },
        }
    }
}

} // verus!

verus! {

/// Only a successful open turns streams on: after any other event streams
/// run only if they ran before.
pub proof fn law_engine_streams_start_only_when_opened(live: bool, event: EngineEvent)
    ensures
        live_after(live, event) ==> live || event is StreamsOpened,
{
}

/// A gain command is carried out on the source it names, with the gain it
/// carries, and leaves the streams as they were.
pub proof fn law_engine_gain_goes_to_named_source(live: bool, source: SourceId, gain_bits: u32, action: EngineAction)
    requires
        action_for(live, EngineEvent::Command(EngineCommand::SetGain { source, gain_bits }), action),
    ensures
        action matches EngineAction::SetGain { source: s, gain_bits: g } && s == source && g == gain_bits,
        live_after(live, EngineEvent::Command(EngineCommand::SetGain { source, gain_bits })) == live,
{
}

/// Each kind of event has its own kind of action: the loop ends only on a
/// shutdown command or a closed channel, waits only when nothing arrived,
/// opens or refuses streams only for a start, stops streams only for a stop,
/// and stores a gain only for a gain command.
pub proof fn law_engine_actions_answer_their_events(live: bool, event: EngineEvent, action: EngineAction)
    requires
        action_for(live, event, action),
    ensures
        action is Exit <==> (event == EngineEvent::Command(EngineCommand::Shutdown) || event is Disconnected),
        action is Wait <==> event is Idle,
        (action is OpenStreams || action is RefuseStart) <==> (event matches EngineEvent::Command(c) && c is Start),
        action is StopStreams <==> event == EngineEvent::Command(EngineCommand::Stop),
        action is SetGain <==> (event matches EngineEvent::Command(c) && c is SetGain),
        action is MarkActive <==> event is StreamsOpened,
        action is ReportOpenFailure <==> event is StreamsFailed,
{
}

/// A start opens exactly the selected microphone and application, and the
/// selected output or, when none is selected, the virtual microphone; it is
/// refused for a missing microphone first, then for a missing application.
pub proof fn law_engine_opens_what_was_selected(sel: EngineSelection)
    ensures
        sel.mic_device_name is None ==> selection_targets(sel) == Err::<(Seq<char>, Seq<char>, Seq<char>), StartError>(
            StartError::NoMicrophone,
        ),
        sel.mic_device_name is Some && sel.system_app_bundle_id is None ==> selection_targets(sel) == Err::<
            (Seq<char>, Seq<char>, Seq<char>),
            StartError,
        >(StartError::NoSystemApp),
        selection_targets(sel) matches Ok(t) ==> {
            &&& sel.mic_device_name matches Some(m) && t.0 == m@
            &&& sel.system_app_bundle_id matches Some(a) && t.1 == a@
            &&& sel.output_device_name matches Some(o) ==> t.2 == o@
            &&& sel.output_device_name is None ==> t.2 == "BlackHole 2ch"@
        },
        (sel.mic_device_name is Some && sel.system_app_bundle_id is Some) ==> selection_targets(sel) is Ok,
{
}

/// A stop leaves no streams running, whatever the state.
pub proof fn law_engine_stop_always_idles(live: bool)
    ensures
        !live_after(live, EngineEvent::Command(EngineCommand::Stop)),
{
}

/// A start first closes whatever is running: the action closes the running
/// streams exactly when streams were running, and no streams run until the
/// new ones are reported open.
pub proof fn law_engine_start_replaces_running_streams(live: bool, sel: EngineSelection, action: EngineAction)
    requires
        action_for(live, EngineEvent::Command(EngineCommand::Start(sel)), action),
    ensures
        !live_after(live, EngineEvent::Command(EngineCommand::Start(sel))),
        match action {
            EngineAction::OpenStreams { close_running, .. } => close_running == live,
            EngineAction::RefuseStart { close_running, .. } => close_running == live,
            _ => false,
        },
{
}

/// Streams are opened only for a selection with both a microphone and an
/// application; without a microphone the start is refused for that reason
/// first.
pub proof fn law_engine_opens_only_complete_selections(live: bool, sel: EngineSelection, action: EngineAction)
    requires
        action_for(live, EngineEvent::Command(EngineCommand::Start(sel)), action),
    ensures
        action is OpenStreams ==> sel.mic_device_name is Some && sel.system_app_bundle_id is Some,
        sel.mic_device_name is None ==> action == (EngineAction::RefuseStart {
            close_running: live,
            error: StartError::NoMicrophone,
        }),
{
}

} // verus!
