//! Decisions behind the main window and the setup wizard: which devices are
//! preselected, when mixing can start, and what a picker choice means.
use vstd::prelude::*;
use crate::audio::devices::{InputDevice, OutputDevice};

verus! {

/// The microphone preselected on launch: the saved one, otherwise the first
/// input device, otherwise none.
pub fn initial_mic_selection(saved: &Option<String>, inputs: &Vec<InputDevice>) -> (r: Option<String>)
    ensures
        match saved {
            Some(s) => r == Some(*s),
            None => if inputs@.len() > 0 { r == Some(inputs@[0].name) } else { r is None },
        },
{
    match saved {
        Some(s) => Some(s.clone()),
        None => {
            if inputs.len() > 0 {
                Some(inputs[0].name.clone())
            } else {
                None
            }
        },
    }
}

/// The output the mix is sent to: the first output device marked as the
/// virtual microphone, if any.
pub fn blackhole_output(outputs: &Vec<OutputDevice>) -> (r: Option<String>)
    ensures
        match r {
            Some(name) => exists|i: int| {
                &&& 0 <= i < outputs@.len()
                &&& #[trigger] outputs@[i].is_blackhole
                &&& name == outputs@[i].name
                &&& forall|j: int| 0 <= j < i ==> !(#[trigger] outputs@[j].is_blackhole)
            },
            None => forall|j: int| 0 <= j < outputs@.len() ==> !(#[trigger] outputs@[j].is_blackhole),
        },
{
    let mut i: usize = 0;
    while i < outputs.len()
        invariant
            i <= outputs@.len(),
            forall|j: int| 0 <= j < i ==> !(#[trigger] outputs@[j].is_blackhole),
        decreases outputs.len() - i,
    {
        if outputs[i].is_blackhole {
            let name = outputs[i].name.clone();
            assert(outputs@[i as int].is_blackhole);
            return Some(name);
        }
        i = i + 1;
    }
    None
}

/// Mixing can start once a microphone, an application and the virtual
/// microphone output are all known.
pub fn can_start(mic: &Option<String>, app: &Option<String>, output: &Option<String>) -> (r: bool)
    ensures
        r == (mic is Some && app is Some && output is Some),
{
    mic.is_some() && app.is_some() && output.is_some()
}

/// A picker's value as a selection: the empty placeholder value means none.
pub fn picker_selection(value: String) -> (r: Option<String>)
    ensures
        value@.len() == 0 ==> r is None,
        value@.len() > 0 ==> r == Some(value),
{
    if value.as_str().is_empty() {
        None
    } else {
        Some(value)
    }
}

/// Voice isolation is on unless it was saved as off.
pub fn voice_isolation_enabled(saved: Option<bool>) -> (r: bool)
    ensures
        r == (match saved {
            Some(b) => b,
            None => true,
        }),
{
    match saved {
        Some(b) => b,
        None => true,
    }
}

/// Setup is complete when the virtual microphone is installed and the screen
/// recording permission is granted.
pub fn setup_complete(blackhole_installed: bool, permission_granted: bool) -> (r: bool)
    ensures
        r == (blackhole_installed && permission_granted),
{
    blackhole_installed && permission_granted
}

} // verus!
