//! Device and application inventory: which inputs and outputs can be used,
//! whether the virtual microphone is present, and which applications can have
//! their audio captured.
use vstd::prelude::*;
use crate::audio::text::{chars_of, lowercased, lowercase, eq_ignore_ascii_case, contains_chars,
    precedes, lemma_precedes_irreflexive, lemma_precedes_transitive,
    equal_ignoring_ascii_case, occurs_in, is_ascii_text, ascii_folded};
use crate::audio::sorting::{stable_order, is_stable_order, law_stable_order_is_unique,
    law_stable_order_lists_every_position, lists_position};

verus! {

/// An application that can be picked as the source of system audio.
#[derive(Clone, Debug, PartialEq, Eq)]
pub struct CapturableApp {
    pub bundle_id: String,
    pub name: String,
    pub pid: i32,
}

/// A window known to the screen-capture service.
#[derive(Clone, Copy, Debug, PartialEq, Eq)]
pub struct WindowInfo {
    /// Whether the window is currently on screen.
    pub on_screen: bool,
    /// Process id of the application that owns the window, when known.
    pub owner_pid: Option<i32>,
}

/// What the screen-capture service reports as shareable: running applications
/// and windows.
#[derive(Clone, Debug)]
pub struct ShareableContent {
    pub applications: Vec<CapturableApp>,
    pub windows: Vec<WindowInfo>,
}

/// Failure reported by the screen-capture service (for instance when the
/// screen-recording permission is missing).
#[derive(Clone, Debug, PartialEq, Eq)]
pub struct CaptureError {
    pub detail: String,
}

/// The plain value of an application entry: bundle id, name, process id.
pub open spec fn app_view(a: CapturableApp) -> (Seq<char>, Seq<char>, i32) {
    (a.bundle_id@, a.name@, a.pid)
}

/// Some on-screen window is owned by process `pid`.
pub open spec fn has_visible_window(windows: Seq<WindowInfo>, pid: i32) -> bool {
    exists|i: int| 0 <= i < windows.len() && #[trigger] windows[i].on_screen && windows[i].owner_pid == Some(pid)
}

/// An application is offered when it has a bundle id and owns an on-screen
/// window.
pub open spec fn is_candidate(windows: Seq<WindowInfo>, a: CapturableApp) -> bool {
    a.bundle_id@.len() > 0 && has_visible_window(windows, a.pid)
}

/// The offered applications, in the order the service reported them.
pub open spec fn candidates(apps: Seq<CapturableApp>, windows: Seq<WindowInfo>) -> Seq<CapturableApp> {
    apps.filter(|a: CapturableApp| is_candidate(windows, a))
}

/// Sort keys of a list of applications: their names in lower case.
pub open spec fn name_keys(apps: Seq<CapturableApp>) -> Seq<Seq<char>> {
    apps.map_values(|a: CapturableApp| lowercase(a.name@))
}

/// The applications at the positions listed in `order`.
pub open spec fn arranged(apps: Seq<CapturableApp>, order: Seq<usize>) -> Seq<(Seq<char>, Seq<char>, i32)> {
    order.map_values(|k: usize| app_view(apps[k as int]))
}

/// Drops every entry whose bundle id equals that of the entry just before it.
pub open spec fn without_repeated_bundles(s: Seq<(Seq<char>, Seq<char>, i32)>) -> Seq<(Seq<char>, Seq<char>, i32)>
    decreases s.len(),
{
    if s.len() == 0 {
        s
    } else {
        let kept = without_repeated_bundles(s.drop_last());
        if s.len() > 1 && s[s.len() - 2].0 == s.last().0 {
            kept
        } else {
            kept.push(s.last())
        }
    }
}

/// `listing` is the picker's list for the given applications and windows:
/// the offered applications, sorted stably by lower-case name, with runs of
/// one bundle id reduced to their first entry.
pub open spec fn is_capturable_listing(
    apps: Seq<CapturableApp>,
    windows: Seq<WindowInfo>,
    listing: Seq<(Seq<char>, Seq<char>, i32)>,
) -> bool {
    let offered = candidates(apps, windows);
    exists|order: Seq<usize>|
        is_stable_order(name_keys(offered), order) && listing == without_repeated_bundles(
            #[trigger] arranged(offered, order),
        )
}

fn copy_app(a: &CapturableApp) -> (r: CapturableApp)
    ensures
        r == *a,
{
    CapturableApp { bundle_id: a.bundle_id.clone(), name: a.name.clone(), pid: a.pid }
}

fn owns_visible_window(windows: &Vec<WindowInfo>, pid: i32) -> (r: bool)
    ensures
        r == has_visible_window(windows@, pid),
{
    let mut i: usize = 0;
    while i < windows.len()
        invariant
            i <= windows.len(),
            forall|j: int| 0 <= j < i ==> !(#[trigger] windows@[j].on_screen && windows@[j].owner_pid == Some(pid)),
        decreases windows.len() - i,
    {
        let w = windows[i];
        if w.on_screen {
            match w.owner_pid {
                Some(owner) => {
                    if owner == pid {
                        return true;
                    }
                },
                None => {},
            }
        }
        i = i + 1;
    }
    false
}

fn offered_apps(apps: &Vec<CapturableApp>, windows: &Vec<WindowInfo>) -> (r: Vec<CapturableApp>)
    ensures
        r@ == candidates(apps@, windows@),
{
    let ghost pred = |a: CapturableApp| is_candidate(windows@, a);
    let mut out: Vec<CapturableApp> = Vec::new();
    let mut i: usize = 0;
    while i < apps.len()
        invariant
            i <= apps.len(),
            pred == (|a: CapturableApp| is_candidate(windows@, a)),
            out@ == apps@.take(i as int).filter(pred),
        decreases apps.len() - i,
    {
        proof {
            assert(apps@.take(i + 1).drop_last() =~= apps@.take(i as int));
            reveal_with_fuel(Seq::<_>::filter, 1);
        }
        let a = &apps[i];
        if !a.bundle_id.as_str().is_empty() && owns_visible_window(windows, a.pid) {
            out.push(copy_app(a));
        }
        i = i + 1;
    }
    assert(apps@.take(apps.len() as int) =~= apps@);
    out
}

/// The picker's list of applications: those with a bundle id that own an
/// on-screen window, sorted stably by lower-case name, without consecutive
/// entries of one bundle id.
pub fn capturable_apps(content: &ShareableContent) -> (r: Vec<CapturableApp>)
    ensures
        is_capturable_listing(content.applications@, content.windows@, r@.map_values(|a: CapturableApp| app_view(a))),
{
    let offered = offered_apps(&content.applications, &content.windows);
    let mut keys: Vec<Vec<char>> = Vec::new();
    let mut i: usize = 0;
    while i < offered.len()
        invariant
            i <= offered.len(),
            keys.len() == i,
            forall|j: int| 0 <= j < i ==> #[trigger] keys@[j]@ == lowercase(offered@[j].name@),
        decreases offered.len() - i,
    {
        let lower = lowercased(offered[i].name.as_str());
        keys.push(chars_of(lower.as_str()));
        i = i + 1;
    }
    assert(keys@.map_values(|k: Vec<char>| k@) =~= name_keys(offered@));
    let order = stable_order(&keys);
    let ghost all = arranged(offered@, order@);
    let mut out: Vec<CapturableApp> = Vec::new();
    let mut k: usize = 0;
    while k < order.len()
        invariant
            k <= order.len(),
            order.len() == offered.len(),
            is_stable_order(name_keys(offered@), order@),
            all == arranged(offered@, order@),
            out@.map_values(|a: CapturableApp| app_view(a)) == without_repeated_bundles(all.take(k as int)),
        decreases order.len() - k,
    {
        let cur = &offered[order[k]];
        proof {
            assert(all.take(k + 1).drop_last() =~= all.take(k as int));
        }
        let repeated = k > 0 && offered[order[k - 1]].bundle_id == cur.bundle_id;
        let ghost before = out@;
        if !repeated {
            out.push(copy_app(cur));
            assert(out@.map_values(|a: CapturableApp| app_view(a)) =~= before.map_values(|a: CapturableApp| app_view(a)).push(app_view(*cur)));
        }
        k = k + 1;
    }
    assert(all.take(order.len() as int) =~= all);
    out
}

} // verus!

verus! {

/// Name of the virtual audio device that the mix is published into.
pub const BLACKHOLE_DEVICE_NAME: &'static str = "BlackHole 2ch";

/// The word looked for, in lower case, in output device names.
pub const BLACKHOLE_WORD: &'static str = "blackhole";

/// An output device name designates the virtual microphone when it equals
/// the expected device name up to ASCII case, or when its lower-case form
/// contains the word "blackhole".
pub open spec fn is_blackhole_name_spec(name: Seq<char>) -> bool {
    equal_ignoring_ascii_case(name, BLACKHOLE_DEVICE_NAME@) || occurs_in(lowercase(name), BLACKHOLE_WORD@)
}

/// Whether an already lower-cased name contains the word "blackhole".
pub fn mentions_blackhole(lowered: &str) -> (r: bool)
    ensures
        r == occurs_in(lowered@, BLACKHOLE_WORD@),
{
    contains_chars(lowered, BLACKHOLE_WORD)
}

/// Whether an output device with this name is the virtual microphone. Every
/// name equal to the expected one up to ASCII case also contains the word
/// once lowered, so this is just whether the lowered name contains it.
pub fn is_blackhole_name(name: &str) -> (r: bool)
    ensures
        r == is_blackhole_name_spec(name@),
        r == occurs_in(lowercase(name@), BLACKHOLE_WORD@),
{
    let lower = lowercased(name);
    if eq_ignore_ascii_case(name, BLACKHOLE_DEVICE_NAME) {
        proof {
            lemma_expected_name_lowers_to_word(name@, lower@);
        }
        return true;
    }
    mentions_blackhole(lower.as_str())
}

proof fn lemma_expected_name_lowers_to_word(name: Seq<char>, lower: Seq<char>)
    requires
        equal_ignoring_ascii_case(name, BLACKHOLE_DEVICE_NAME@),
        is_ascii_text(name) ==> lower.len() == name.len()
            && forall|i: int| 0 <= i < name.len() ==> (#[trigger] lower[i] as int) == ascii_folded(name[i]),
    ensures
        occurs_in(lower, BLACKHOLE_WORD@),
{
    reveal_strlit("BlackHole 2ch");
    reveal_strlit("blackhole");
    let expected = BLACKHOLE_DEVICE_NAME@;
    let word = BLACKHOLE_WORD@;
    assert(expected.len() == 13);
    assert(word.len() == 9);
    assert forall|i: int| 0 <= i < name.len() implies (#[trigger] name[i] as int) < 128 by {
        assert(ascii_folded(name[i]) == ascii_folded(expected[i]));
        assert((expected[i] as int) < 128);
    }
    assert forall|i: int| 0 <= i < 9 implies lower.subrange(0int, 9int)[i] == #[trigger] word[i] by {
        assert(ascii_folded(name[i]) == ascii_folded(expected[i]));
        assert((lower[i] as int) == ascii_folded(name[i]));
        assert(ascii_folded(expected[i]) == (word[i] as int));
    }
    assert(lower.subrange(0int, 0int + word.len()) =~= word);
}

} // verus!

verus! {

/// A microphone the pipeline can open.
#[derive(Clone, Debug, PartialEq, Eq)]
pub struct InputDevice {
    pub name: String,
    pub default_sample_rate: u32,
    pub default_channels: u16,
}

/// An output device; `is_blackhole` marks the virtual microphone.
#[derive(Clone, Debug, PartialEq, Eq)]
pub struct OutputDevice {
    pub name: String,
    pub default_sample_rate: u32,
    pub default_channels: u16,
    pub is_blackhole: bool,
}

/// Default stream format of a device.
#[derive(Clone, Copy, Debug, PartialEq, Eq)]
pub struct StreamFormat {
    pub sample_rate: u32,
    pub channels: u16,
}

/// What the audio host reported about one device: its display name and, when
/// the device has a usable default configuration, that configuration.
#[derive(Clone, Debug, PartialEq, Eq)]
pub struct DeviceProbe {
    pub name: String,
    pub default_format: Option<StreamFormat>,
}

/// Failure to enumerate the audio host's devices.
#[derive(Clone, Debug, PartialEq, Eq)]
pub struct DeviceError {
    pub detail: String,
}

/// The plain value of an input device entry.
pub open spec fn input_view(d: InputDevice) -> (Seq<char>, u32, u16) {
    (d.name@, d.default_sample_rate, d.default_channels)
}

/// The plain value of an output device entry.
pub open spec fn output_view(d: OutputDevice) -> (Seq<char>, u32, u16, bool) {
    (d.name@, d.default_sample_rate, d.default_channels, d.is_blackhole)
}

/// The input devices offered for a list of probes: the probed devices that
/// have a default configuration, in order.
pub open spec fn usable_inputs(probes: Seq<DeviceProbe>) -> Seq<(Seq<char>, u32, u16)>
    decreases probes.len(),
{
    if probes.len() == 0 {
        Seq::empty()
    } else {
        let rest = usable_inputs(probes.drop_last());
        match probes.last().default_format {
            Some(f) => rest.push((probes.last().name@, f.sample_rate, f.channels)),
            None => rest,
        }
    }
}

/// The output devices offered for a list of probes: the probed devices that
/// have a default configuration, in order, each marked by whether its name
/// designates the virtual microphone.
pub open spec fn usable_outputs(probes: Seq<DeviceProbe>) -> Seq<(Seq<char>, u32, u16, bool)>
    decreases probes.len(),
{
    if probes.len() == 0 {
        Seq::empty()
    } else {
        let rest = usable_outputs(probes.drop_last());
        let p = probes.last();
        match p.default_format {
            Some(f) => rest.push((p.name@, f.sample_rate, f.channels, occurs_in(lowercase(p.name@), BLACKHOLE_WORD@))),
            None => rest,
        }
    }
}

/// The input devices that can be opened, from the host's probe results; an
/// enumeration failure is handed back unchanged.
pub fn list_input_devices(probed: Result<Vec<DeviceProbe>, DeviceError>) -> (r: Result<Vec<InputDevice>, DeviceError>)
    ensures
        match (probed, r) {
            (Ok(p), Ok(d)) => d@.map_values(|x: InputDevice| input_view(x)) == usable_inputs(p@),
            (Err(e), Err(f)) => e == f,
            _ => false,
        },
{
    let probes = match probed {
        Ok(p) => p,
        Err(e) => { return Err(e); },
    };
    let mut out: Vec<InputDevice> = Vec::new();
    let mut i: usize = 0;
    while i < probes.len()
        invariant
            i <= probes.len(),
            out@.map_values(|x: InputDevice| input_view(x)) == usable_inputs(probes@.take(i as int)),
        decreases probes.len() - i,
    {
        assert(probes@.take(i + 1).drop_last() =~= probes@.take(i as int));
        let p = &probes[i];
        match p.default_format {
            Some(f) => {
                let ghost before = out@;
                out.push(InputDevice { name: p.name.clone(), default_sample_rate: f.sample_rate, default_channels: f.channels });
                assert(out@.map_values(|x: InputDevice| input_view(x)) =~= before.map_values(|x: InputDevice| input_view(x)).push(input_view(out@.last())));
            },
            None => {},
        }
        i = i + 1;
    }
    assert(probes@.take(probes.len() as int) =~= probes@);
    Ok(out)
}

/// The output devices that can be opened, from the host's probe results,
/// each marked by whether it is the virtual microphone; an enumeration failure
/// is handed back unchanged.
pub fn list_output_devices(probed: Result<Vec<DeviceProbe>, DeviceError>) -> (r: Result<Vec<OutputDevice>, DeviceError>)
    ensures
        match (probed, r) {
            (Ok(p), Ok(d)) => d@.map_values(|x: OutputDevice| output_view(x)) == usable_outputs(p@),
            (Err(e), Err(f)) => e == f,
            _ => false,
        },
{
    let probes = match probed {
        Ok(p) => p,
        Err(e) => { return Err(e); },
    };
    let mut out: Vec<OutputDevice> = Vec::new();
    let mut i: usize = 0;
    while i < probes.len()
        invariant
            i <= probes.len(),
            out@.map_values(|x: OutputDevice| output_view(x)) == usable_outputs(probes@.take(i as int)),
        decreases probes.len() - i,
    {
        assert(probes@.take(i + 1).drop_last() =~= probes@.take(i as int));
        let p = &probes[i];
        match p.default_format {
            Some(f) => {
                let ghost before = out@;
                let is_blackhole = is_blackhole_name(p.name.as_str());
                out.push(OutputDevice {
                    name: p.name.clone(),
                    default_sample_rate: f.sample_rate,
                    default_channels: f.channels,
                    is_blackhole,
                });
                assert(out@.map_values(|x: OutputDevice| output_view(x)) =~= before.map_values(|x: OutputDevice| output_view(x)).push(output_view(out@.last())));
            },
            None => {},
        }
        i = i + 1;
    }
    assert(probes@.take(probes.len() as int) =~= probes@);
    Ok(out)
}

/// Some device of the list is marked as the virtual microphone.
pub open spec fn lists_blackhole(devices: Seq<OutputDevice>) -> bool {
    exists|i: int| 0 <= i < devices.len() && #[trigger] devices[i].is_blackhole
}

/// The virtual microphone is installed when the output devices could be
/// listed and one of them is marked as the virtual microphone.
pub fn is_blackhole_installed(outputs: &Result<Vec<OutputDevice>, DeviceError>) -> (r: bool)
    ensures
        r == (match outputs {
            Ok(d) => lists_blackhole(d@),
            Err(_) => false,
        }),
{
    match outputs {
        Ok(devs) => {
            let mut i: usize = 0;
            while i < devs.len()
                invariant
                    i <= devs.len(),
                    outputs matches Ok(d) && d@ == devs@,
                    forall|j: int| 0 <= j < i ==> !#[trigger] devs@[j].is_blackhole,
                decreases devs.len() - i,
            {
                if devs[i].is_blackhole {
                    assert(devs@[i as int].is_blackhole);
                    return true;
                }
                i = i + 1;
            }
            false
        },
        Err(_) => false,
    }
}

/// The applications whose audio can be captured, from what the screen-capture
/// service reported; a failure of the service is handed back unchanged.
pub fn list_capturable_apps(content: Result<ShareableContent, CaptureError>) -> (r: Result<Vec<CapturableApp>, CaptureError>)
    ensures
        match (content, r) {
            (Ok(c), Ok(apps)) => is_capturable_listing(c.applications@, c.windows@, apps@.map_values(|a: CapturableApp| app_view(a))),
            (Err(e), Err(f)) => e == f,
            _ => false,
        },
{
    match content {
        Ok(c) => Ok(capturable_apps(&c)),
        Err(e) => Err(e),
    }
}

/// Screen-recording permission is granted exactly when the screen-capture
/// service answered the request for shareable content.
pub fn has_screen_recording_permission(probe: &Result<ShareableContent, CaptureError>) -> (r: bool)
    ensures
        r == probe is Ok,
{
    probe.is_ok()
}

} // verus!

verus! {

/// A device name that could be read and equals `name`.
pub open spec fn is_named(entry: Option<String>, name: Seq<char>) -> bool {
    match entry {
        Some(n) => n@ == name,
        None => false,
    }
}

/// Position of the first device whose name could be read and is `name`, if
/// any; a device whose name could not be read matches nothing.
pub fn find_device(names: &Vec<Option<String>>, name: &str) -> (r: Option<usize>)
    ensures
        match r {
            Some(i) => i < names@.len() && is_named(names@[i as int], name@)
                && forall|j: int| 0 <= j < i ==> !is_named(#[trigger] names@[j], name@),
            None => forall|j: int| 0 <= j < names@.len() ==> !is_named(#[trigger] names@[j], name@),
        },
{
    let wanted = name.to_owned();
    let mut i: usize = 0;
    while i < names.len()
        invariant
            i <= names@.len(),
            wanted@ == name@,
            forall|j: int| 0 <= j < i ==> !is_named(#[trigger] names@[j], name@),
        decreases names.len() - i,
    {
        match &names[i] {
            Some(n) => {
                if *n == wanted {
                    return Some(i);
                }
            },
            None => {},
        }
        i = i + 1;
    }
    None
}

/// Position of the first application with bundle id `bundle_id`, if any.
pub fn find_app_by_bundle(apps: &Vec<CapturableApp>, bundle_id: &str) -> (r: Option<usize>)
    ensures
        match r {
            Some(i) => i < apps@.len() && apps@[i as int].bundle_id@ == bundle_id@
                && forall|j: int| 0 <= j < i ==> (#[trigger] apps@[j]).bundle_id@ != bundle_id@,
            None => forall|j: int| 0 <= j < apps@.len() ==> (#[trigger] apps@[j]).bundle_id@ != bundle_id@,
        },
{
    let wanted = bundle_id.to_owned();
    let mut i: usize = 0;
    while i < apps.len()
        invariant
            i <= apps@.len(),
            wanted@ == bundle_id@,
            forall|j: int| 0 <= j < i ==> (#[trigger] apps@[j]).bundle_id@ != bundle_id@,
        decreases apps.len() - i,
    {
        if apps[i].bundle_id == wanted {
            return Some(i);
        }
        i = i + 1;
    }
    None
}

/// In the picker's list no entry repeats the bundle id of the entry before
/// it.
pub proof fn law_listing_has_no_adjacent_repeats(s: Seq<(Seq<char>, Seq<char>, i32)>)
    ensures
        forall|i: int| 0 < i < without_repeated_bundles(s).len() ==>
            (#[trigger] without_repeated_bundles(s)[i]).0 != without_repeated_bundles(s)[i - 1].0,
    decreases s.len(),
{
    if s.len() > 0 {
        law_listing_has_no_adjacent_repeats(s.drop_last());
        lemma_dedup_last(s.drop_last());
    }
}

/// The last kept entry of a deduplicated list is the last entry of the list.
proof fn lemma_dedup_last(s: Seq<(Seq<char>, Seq<char>, i32)>)
    ensures
        s.len() > 0 <==> without_repeated_bundles(s).len() > 0,
        s.len() > 0 ==> without_repeated_bundles(s).last().0 == s.last().0,
    decreases s.len(),
{
    if s.len() > 0 {
        lemma_dedup_last(s.drop_last());
    }
}

/// The expected virtual-microphone name is recognized in any ASCII case.
pub proof fn law_expected_name_is_recognized(name: Seq<char>)
    requires
        equal_ignoring_ascii_case(name, BLACKHOLE_DEVICE_NAME@),
    ensures
        is_blackhole_name_spec(name),
{
}

} // verus!

verus! {

/// Name shown for a device whose description cannot be read.
pub const UNKNOWN_DEVICE_NAME: &'static str = "<unknown>";

/// The name a device is listed and matched by: its description's name, or
/// a placeholder when the description could not be read.
pub fn display_name(description_name: Option<String>) -> (r: String)
    ensures
        r@ == (match description_name {
            Some(n) => n@,
            None => UNKNOWN_DEVICE_NAME@,
        }),
{
    match description_name {
        Some(n) => n,
        None => UNKNOWN_DEVICE_NAME.to_owned(),
    }
}

} // verus!

verus! {

/// The picker's list is determined by the applications and windows: two
/// lists that both meet [`is_capturable_listing`] are equal.
pub proof fn law_listing_is_determined(
    apps: Seq<CapturableApp>,
    windows: Seq<WindowInfo>,
    l1: Seq<(Seq<char>, Seq<char>, i32)>,
    l2: Seq<(Seq<char>, Seq<char>, i32)>,
)
    requires
        is_capturable_listing(apps, windows, l1),
        is_capturable_listing(apps, windows, l2),
    ensures
        l1 == l2,
{
    let offered = candidates(apps, windows);
    let o1 = choose|order: Seq<usize>|
        is_stable_order(name_keys(offered), order) && l1 == without_repeated_bundles(
            #[trigger] arranged(offered, order),
        );
    let o2 = choose|order: Seq<usize>|
        is_stable_order(name_keys(offered), order) && l2 == without_repeated_bundles(
            #[trigger] arranged(offered, order),
        );
    law_stable_order_is_unique(name_keys(offered), o1, o2);
}

} // verus!

verus! {

proof fn lemma_kept_entries_come_from_input(s: Seq<(Seq<char>, Seq<char>, i32)>)
    ensures
        forall|i: int| 0 <= i < without_repeated_bundles(s).len() ==> s.contains(#[trigger] without_repeated_bundles(s)[i]),
    decreases s.len(),
{
    if s.len() > 0 {
        lemma_kept_entries_come_from_input(s.drop_last());
        let d = without_repeated_bundles(s);
        let p = without_repeated_bundles(s.drop_last());
        assert forall|i: int| 0 <= i < d.len() implies s.contains(#[trigger] d[i]) by {
            if i < p.len() {
                assert(d[i] == p[i]);
                let j = choose|j: int| 0 <= j < s.drop_last().len() && s.drop_last()[j] == p[i];
                assert(s[j] == d[i]);
            } else {
                assert(d[i] == s.last());
                assert(s[s.len() - 1] == d[i]);
            }
        }
    }
}

/// Keys are in nondecreasing order along `s`.
pub open spec fn names_nondecreasing(s: Seq<(Seq<char>, Seq<char>, i32)>) -> bool {
    forall|a: int, b: int| 0 <= a < b < s.len() ==> !precedes(lowercase(#[trigger] s[b].1), lowercase(#[trigger] s[a].1))
}

proof fn lemma_dedup_keeps_order(s: Seq<(Seq<char>, Seq<char>, i32)>)
    requires
        names_nondecreasing(s),
    ensures
        names_nondecreasing(without_repeated_bundles(s)),
    decreases s.len(),
{
    if s.len() > 0 {
        let t = s.drop_last();
        assert(names_nondecreasing(t));
        lemma_dedup_keeps_order(t);
        lemma_kept_entries_come_from_input(t);
        let d = without_repeated_bundles(s);
        let p = without_repeated_bundles(t);
        assert forall|a: int, b: int| 0 <= a < b < d.len() implies !precedes(lowercase(#[trigger] d[b].1), lowercase(#[trigger] d[a].1)) by {
            if b < p.len() {
                assert(d[a] == p[a] && d[b] == p[b]);
            } else {
                assert(d[a] == p[a]);
                assert(t.contains(p[a]));
                let j = choose|j: int| 0 <= j < t.len() && t[j] == p[a];
                assert(s[j] == d[a]);
                assert(d[b] == s[s.len() - 1]);
            }
        }
    }
}

/// `entry` is one of the reported applications that is offered.
pub open spec fn is_offered_entry(apps: Seq<CapturableApp>, windows: Seq<WindowInfo>, entry: (Seq<char>, Seq<char>, i32)) -> bool {
    exists|j: int| 0 <= j < apps.len() && is_candidate(windows, apps[j]) && #[trigger] app_view(apps[j]) == entry
}

/// Every entry of the picker's list is an application the service reported,
/// with a bundle id and an on-screen window.
pub proof fn law_listing_entries_are_offered(
    apps: Seq<CapturableApp>,
    windows: Seq<WindowInfo>,
    listing: Seq<(Seq<char>, Seq<char>, i32)>,
)
    requires
        is_capturable_listing(apps, windows, listing),
    ensures
        forall|i: int| 0 <= i < listing.len() ==> is_offered_entry(apps, windows, #[trigger] listing[i]),
{
    let offered = candidates(apps, windows);
    let order = choose|order: Seq<usize>|
        is_stable_order(name_keys(offered), order) && listing == without_repeated_bundles(
            #[trigger] arranged(offered, order),
        );
    let all = arranged(offered, order);
    lemma_kept_entries_come_from_input(all);
    broadcast use vstd::seq_lib::group_filter_ensures;
    assert forall|i: int| 0 <= i < listing.len() implies is_offered_entry(apps, windows, #[trigger] listing[i]) by {
        assert(all.contains(listing[i]));
        let k = choose|k: int| 0 <= k < all.len() && all[k] == listing[i];
        let o = order[k] as int;
        assert(name_keys(offered).len() == offered.len());
        let a = offered[o];
        assert(is_candidate(windows, a));
        assert(offered.contains(a));
        apps.lemma_filter_contains_rev(|x: CapturableApp| is_candidate(windows, x), a);
        assert(apps.contains(a));
        let j = choose|j: int| 0 <= j < apps.len() && apps[j] == a;
        assert(app_view(apps[j]) == listing[i]);
    }
}

/// The picker's list is ordered by lower-case name.
pub proof fn law_listing_is_sorted_by_name(
    apps: Seq<CapturableApp>,
    windows: Seq<WindowInfo>,
    listing: Seq<(Seq<char>, Seq<char>, i32)>,
)
    requires
        is_capturable_listing(apps, windows, listing),
    ensures
        names_nondecreasing(listing),
{
    let offered = candidates(apps, windows);
    let order = choose|order: Seq<usize>|
        is_stable_order(name_keys(offered), order) && listing == without_repeated_bundles(
            #[trigger] arranged(offered, order),
        );
    let all = arranged(offered, order);
    let keys = name_keys(offered);
    assert forall|a: int, b: int| 0 <= a < b < all.len() implies !precedes(lowercase(#[trigger] all[b].1), lowercase(#[trigger] all[a].1)) by {
        let x = keys[order[a] as int];
        let y = keys[order[b] as int];
        assert(lowercase(all[a].1) == x);
        assert(lowercase(all[b].1) == y);
        if precedes(y, x) && precedes(x, y) {
            lemma_precedes_transitive(x, y, x);
            lemma_precedes_irreflexive(x);
        }
        if precedes(y, x) && x == y {
            lemma_precedes_irreflexive(x);
        }
    }
    lemma_dedup_keeps_order(all);
}

} // verus!

verus! {

/// An application is offered exactly when it has a bundle id and some window
/// of the list, wherever it stands, is on screen and owned by its process.
pub proof fn law_offered_when_some_window_is_visible(windows: Seq<WindowInfo>, a: CapturableApp)
    ensures
        is_candidate(windows, a) <==> (a.bundle_id@.len() > 0 && exists|i: int|
            0 <= i < windows.len() && (#[trigger] windows[i]).on_screen && windows[i].owner_pid == Some(a.pid)),
{
}

/// A window that is off screen, or that another process owns, changes
/// nothing about whether an application is offered, whether it is added at
/// the front or at the back of the list; an on-screen window that the
/// application owns makes it offered, wherever it is added.
pub proof fn law_only_visible_owned_windows_matter(windows: Seq<WindowInfo>, w: WindowInfo, a: CapturableApp)
    ensures
        !(w.on_screen && w.owner_pid == Some(a.pid)) ==> is_candidate(windows.push(w), a) == is_candidate(windows, a)
            && is_candidate(seq![w] + windows, a) == is_candidate(windows, a),
        (w.on_screen && w.owner_pid == Some(a.pid) && a.bundle_id@.len() > 0) ==> is_candidate(windows.push(w), a)
            && is_candidate(seq![w] + windows, a),
{
    let back = windows.push(w);
    let front = seq![w] + windows;
    assert(back[windows.len() as int] == w);
    assert(front[0] == w);
    if has_visible_window(windows, a.pid) {
        let i = choose|i: int| 0 <= i < windows.len() && #[trigger] windows[i].on_screen && windows[i].owner_pid == Some(a.pid);
        assert(back[i] == windows[i]);
        assert(front[i + 1] == windows[i]);
    }
    if has_visible_window(back, a.pid) && !(w.on_screen && w.owner_pid == Some(a.pid)) {
        let i = choose|i: int| 0 <= i < back.len() && #[trigger] back[i].on_screen && back[i].owner_pid == Some(a.pid);
        assert(i < windows.len());
        assert(windows[i] == back[i]);
    }
    if has_visible_window(front, a.pid) && !(w.on_screen && w.owner_pid == Some(a.pid)) {
        let i = choose|i: int| 0 <= i < front.len() && #[trigger] front[i].on_screen && front[i].owner_pid == Some(a.pid);
        assert(i > 0);
        assert(windows[i - 1] == front[i]);
    }
}

/// The lower-case form of `name` contains the word "blackhole".
pub open spec fn lowered_contains_blackhole(name: Seq<char>) -> bool {
    exists|k: int|
        0 <= k && k + "blackhole"@.len() <= lowercase(name).len() && #[trigger] lowercase(name).subrange(
            k,
            k + "blackhole"@.len(),
        ) == "blackhole"@
}

/// Each offered output device is marked as the virtual microphone exactly
/// when its lower-case name contains "blackhole".
pub proof fn law_output_flag_follows_name(probes: Seq<DeviceProbe>)
    ensures
        forall|i: int| 0 <= i < usable_outputs(probes).len() ==> ((#[trigger] usable_outputs(probes)[i]).3
            <==> lowered_contains_blackhole(usable_outputs(probes)[i].0)),
    decreases probes.len(),
{
    if probes.len() > 0 {
        let rest = probes.drop_last();
        law_output_flag_follows_name(rest);
        assert(BLACKHOLE_WORD@ == "blackhole"@);
        let u = usable_outputs(probes);
        let r = usable_outputs(rest);
        assert forall|i: int| 0 <= i < u.len() implies ((#[trigger] u[i]).3 <==> lowered_contains_blackhole(u[i].0)) by {
            if i < r.len() {
                assert(u[i] == r[i]);
            } else {
                let n = probes.last().name@;
                assert(u[i].0 == n);
                assert(u[i].3 == occurs_in(lowercase(n), BLACKHOLE_WORD@));
                if u[i].3 {
                    let k = choose|k: int| 0 <= k && k + BLACKHOLE_WORD@.len() <= lowercase(n).len()
                        && #[trigger] lowercase(n).subrange(k, k + BLACKHOLE_WORD@.len()) == BLACKHOLE_WORD@;
                    assert(lowercase(n).subrange(k, k + "blackhole"@.len()) == "blackhole"@);
                }
                if lowered_contains_blackhole(n) {
                    let k = choose|k: int| 0 <= k && k + "blackhole"@.len() <= lowercase(n).len()
                        && #[trigger] lowercase(n).subrange(k, k + "blackhole"@.len()) == "blackhole"@;
                    assert(lowercase(n).subrange(k, k + BLACKHOLE_WORD@.len()) == BLACKHOLE_WORD@);
                }
            }
        }
    }
}

/// `p` has a default format, and an entry with this name, rate and channel
/// count lists it unchanged.
pub open spec fn lists_probe(name: Seq<char>, rate: u32, channels: u16, p: DeviceProbe) -> bool {
    p.default_format matches Some(f) && name == p.name@ && rate == f.sample_rate && channels == f.channels
}

/// Every offered output device is a probed device with a default format,
/// listed with that device's name, rate and channel count.
pub proof fn law_outputs_come_from_probes(probes: Seq<DeviceProbe>)
    ensures
        forall|i: int| #![trigger usable_outputs(probes)[i]] 0 <= i < usable_outputs(probes).len() ==> exists|k: int|
            0 <= k < probes.len() && lists_probe(usable_outputs(probes)[i].0, usable_outputs(probes)[i].1,
                usable_outputs(probes)[i].2, #[trigger] probes[k]),
    decreases probes.len(),
{
    if probes.len() > 0 {
        let rest = probes.drop_last();
        law_outputs_come_from_probes(rest);
        let u = usable_outputs(probes);
        let r = usable_outputs(rest);
        assert forall|i: int| #![trigger u[i]] 0 <= i < u.len() implies exists|k: int|
            0 <= k < probes.len() && lists_probe(u[i].0, u[i].1, u[i].2, #[trigger] probes[k]) by {
            if i < r.len() {
                assert(u[i] == r[i]);
                let k = choose|k: int| 0 <= k < rest.len() && lists_probe(r[i].0, r[i].1, r[i].2, #[trigger] rest[k]);
                assert(probes[k] == rest[k]);
            } else {
                assert(lists_probe(u[i].0, u[i].1, u[i].2, probes[probes.len() - 1]));
            }
        }
    }
}

/// Every probed device with a default format is offered as an output, with
/// its name, rate and channel count.
pub proof fn law_probes_with_format_are_outputs(probes: Seq<DeviceProbe>)
    ensures
        forall|k: int| 0 <= k < probes.len() && (#[trigger] probes[k]).default_format is Some ==> exists|i: int|
            0 <= i < usable_outputs(probes).len() && lists_probe(#[trigger] usable_outputs(probes)[i].0,
                usable_outputs(probes)[i].1, usable_outputs(probes)[i].2, probes[k]),
    decreases probes.len(),
{
    if probes.len() > 0 {
        let rest = probes.drop_last();
        law_probes_with_format_are_outputs(rest);
        let u = usable_outputs(probes);
        let r = usable_outputs(rest);
        assert forall|k: int| 0 <= k < probes.len() && (#[trigger] probes[k]).default_format is Some implies exists|i: int|
            0 <= i < u.len() && lists_probe(#[trigger] u[i].0, u[i].1, u[i].2, probes[k]) by {
            if k < rest.len() {
                assert(rest[k] == probes[k]);
                let i = choose|i: int| 0 <= i < r.len() && lists_probe(#[trigger] r[i].0, r[i].1, r[i].2, rest[k]);
                assert(u[i] == r[i]);
            } else {
                assert(lists_probe(u[r.len() as int].0, u[r.len() as int].1, u[r.len() as int].2, probes[k]));
            }
        }
    }
}

/// Listing two runs of probes one after the other offers the outputs of the
/// first run, then those of the second: the order of the probes is kept.
pub proof fn law_outputs_keep_probe_order(first: Seq<DeviceProbe>, second: Seq<DeviceProbe>)
    ensures
        usable_outputs(first + second) == usable_outputs(first) + usable_outputs(second),
    decreases second.len(),
{
    if second.len() == 0 {
        assert(first + second =~= first);
        assert(usable_outputs(first) + usable_outputs(second) =~= usable_outputs(first));
    } else {
        law_outputs_keep_probe_order(first, second.drop_last());
        assert((first + second).drop_last() =~= first + second.drop_last());
        assert((first + second).last() == second.last());
        let a = usable_outputs(first);
        let b = usable_outputs(second.drop_last());
        match second.last().default_format {
            Some(f) => {
                let e = (second.last().name@, f.sample_rate, f.channels, occurs_in(lowercase(second.last().name@), BLACKHOLE_WORD@));
                assert((a + b).push(e) =~= a + b.push(e));
            },
            None => {},
        }
    }
}

/// Every offered input device is a probed device with a default format,
/// listed with that device's name, rate and channel count.
pub proof fn law_inputs_come_from_probes(probes: Seq<DeviceProbe>)
    ensures
        forall|i: int| #![trigger usable_inputs(probes)[i]] 0 <= i < usable_inputs(probes).len() ==> exists|k: int|
            0 <= k < probes.len() && lists_probe(usable_inputs(probes)[i].0, usable_inputs(probes)[i].1,
                usable_inputs(probes)[i].2, #[trigger] probes[k]),
    decreases probes.len(),
{
    if probes.len() > 0 {
        let rest = probes.drop_last();
        law_inputs_come_from_probes(rest);
        let u = usable_inputs(probes);
        let r = usable_inputs(rest);
        assert forall|i: int| #![trigger u[i]] 0 <= i < u.len() implies exists|k: int|
            0 <= k < probes.len() && lists_probe(u[i].0, u[i].1, u[i].2, #[trigger] probes[k]) by {
            if i < r.len() {
                assert(u[i] == r[i]);
                let k = choose|k: int| 0 <= k < rest.len() && lists_probe(r[i].0, r[i].1, r[i].2, #[trigger] rest[k]);
                assert(probes[k] == rest[k]);
            } else {
                assert(lists_probe(u[i].0, u[i].1, u[i].2, probes[probes.len() - 1]));
            }
        }
    }
}

/// Every probed device with a default format is offered as an input, with
/// its name, rate and channel count unchanged.
pub proof fn law_probes_with_format_are_inputs(probes: Seq<DeviceProbe>)
    ensures
        forall|k: int| 0 <= k < probes.len() && (#[trigger] probes[k]).default_format is Some ==> exists|i: int|
            0 <= i < usable_inputs(probes).len() && lists_probe(#[trigger] usable_inputs(probes)[i].0,
                usable_inputs(probes)[i].1, usable_inputs(probes)[i].2, probes[k]),
    decreases probes.len(),
{
    if probes.len() > 0 {
        let rest = probes.drop_last();
        law_probes_with_format_are_inputs(rest);
        let u = usable_inputs(probes);
        let r = usable_inputs(rest);
        assert forall|k: int| 0 <= k < probes.len() && (#[trigger] probes[k]).default_format is Some implies exists|i: int|
            0 <= i < u.len() && lists_probe(#[trigger] u[i].0, u[i].1, u[i].2, probes[k]) by {
            if k < rest.len() {
                assert(rest[k] == probes[k]);
                let i = choose|i: int| 0 <= i < r.len() && lists_probe(#[trigger] r[i].0, r[i].1, r[i].2, rest[k]);
                assert(u[i] == r[i]);
            } else {
                assert(lists_probe(u[r.len() as int].0, u[r.len() as int].1, u[r.len() as int].2, probes[k]));
            }
        }
    }
}

/// Listing two runs of probes one after the other offers the inputs of the
/// first run, then those of the second: the order of the probes is kept.
pub proof fn law_inputs_keep_probe_order(first: Seq<DeviceProbe>, second: Seq<DeviceProbe>)
    ensures
        usable_inputs(first + second) == usable_inputs(first) + usable_inputs(second),
    decreases second.len(),
{
    if second.len() == 0 {
        assert(first + second =~= first);
        assert(usable_inputs(first) + usable_inputs(second) =~= usable_inputs(first));
    } else {
        law_inputs_keep_probe_order(first, second.drop_last());
        assert((first + second).drop_last() =~= first + second.drop_last());
        assert((first + second).last() == second.last());
        let a = usable_inputs(first);
        let b = usable_inputs(second.drop_last());
        match second.last().default_format {
            Some(f) => {
                let e = (second.last().name@, f.sample_rate, f.channels);
                assert((a + b).push(e) =~= a + b.push(e));
            },
            None => {},
        }
    }
}

} // verus!

verus! {

/// Some entry of `listing` has bundle id `bundle`.
pub open spec fn lists_bundle(listing: Seq<(Seq<char>, Seq<char>, i32)>, bundle: Seq<char>) -> bool {
    exists|i: int| 0 <= i < listing.len() && #[trigger] listing[i].0 == bundle
}

/// Removing repeats keeps the first entry and every bundle id, takes its
/// entries from the list, and leaves a list without adjacent repeats as it
/// is.
pub proof fn law_repeat_removal_keeps_first_and_every_bundle(s: Seq<(Seq<char>, Seq<char>, i32)>)
    ensures
        s.len() > 0 ==> without_repeated_bundles(s).len() > 0 && without_repeated_bundles(s)[0] == s[0],
        forall|k: int| 0 <= k < s.len() ==> lists_bundle(without_repeated_bundles(s), #[trigger] s[k].0),
        forall|i: int| 0 <= i < without_repeated_bundles(s).len() ==> s.contains(#[trigger] without_repeated_bundles(s)[i]),
        (forall|k: int| 1 <= k < s.len() ==> (#[trigger] s[k]).0 != s[k - 1].0) ==> without_repeated_bundles(s) == s,
    decreases s.len(),
{
    lemma_kept_entries_come_from_input(s);
    if s.len() > 0 {
        let t = s.drop_last();
        law_repeat_removal_keeps_first_and_every_bundle(t);
        lemma_dedup_last(t);
        let d = without_repeated_bundles(s);
        let p = without_repeated_bundles(t);
        assert(d.len() >= p.len());
        if t.len() > 0 {
            assert(d[0] == p[0]);
            assert(t[0] == s[0]);
        }
        assert forall|k: int| 0 <= k < s.len() implies lists_bundle(d, #[trigger] s[k].0) by {
            if k < t.len() {
                assert(t[k] == s[k]);
                assert(lists_bundle(p, t[k].0));
                let i = choose|i: int| 0 <= i < p.len() && #[trigger] p[i].0 == t[k].0;
                assert(d[i] == p[i]);
            } else if d.len() > p.len() {
                assert(d[p.len() as int] == s[k]);
            } else {
                assert(p[p.len() - 1].0 == t.last().0);
                assert(d[p.len() - 1] == p[p.len() - 1]);
            }
        }
        if forall|k: int| 1 <= k < s.len() ==> (#[trigger] s[k]).0 != s[k - 1].0 {
            assert forall|k: int| 1 <= k < t.len() implies (#[trigger] t[k]).0 != t[k - 1].0 by {
                assert(t[k] == s[k] && t[k - 1] == s[k - 1]);
            }
            assert(p == t);
            if s.len() > 1 {
                assert(s[s.len() - 1].0 != s[s.len() - 2].0);
            }
            assert(d =~= s);
        }
    }
}

/// Every application with a bundle id that owns an on-screen window, in any
/// position of the window list, has its bundle id in the picker's list.
pub proof fn law_listing_offers_every_visible_app(
    apps: Seq<CapturableApp>,
    windows: Seq<WindowInfo>,
    listing: Seq<(Seq<char>, Seq<char>, i32)>,
)
    requires
        is_capturable_listing(apps, windows, listing),
    ensures
        forall|j: int, w: int|
            0 <= j < apps.len() && (#[trigger] apps[j]).bundle_id@.len() > 0 && 0 <= w < windows.len()
                && (#[trigger] windows[w]).on_screen && windows[w].owner_pid == Some(apps[j].pid)
                ==> lists_bundle(listing, apps[j].bundle_id@),
{
    let offered = candidates(apps, windows);
    let order = choose|order: Seq<usize>|
        is_stable_order(name_keys(offered), order) && listing == without_repeated_bundles(
            #[trigger] arranged(offered, order),
        );
    let all = arranged(offered, order);
    law_stable_order_lists_every_position(name_keys(offered), order);
    law_repeat_removal_keeps_first_and_every_bundle(all);
    broadcast use vstd::seq_lib::group_filter_ensures;
    assert forall|j: int, w: int|
        0 <= j < apps.len() && (#[trigger] apps[j]).bundle_id@.len() > 0 && 0 <= w < windows.len()
            && (#[trigger] windows[w]).on_screen && windows[w].owner_pid == Some(apps[j].pid)
            implies lists_bundle(listing, apps[j].bundle_id@) by {
        let a = apps[j];
        assert(is_candidate(windows, a));
        assert(apps.contains(a));
        assert(offered.contains(a));
        let o = choose|o: int| 0 <= o < offered.len() && offered[o] == a;
        assert(name_keys(offered).len() == offered.len());
        assert(lists_position(order, o));
        let k = choose|k: int| 0 <= k < order.len() && #[trigger] order[k] == o;
        assert(all[k] == app_view(a));
        assert(lists_bundle(listing, all[k].0));
    }
}

} // verus!
