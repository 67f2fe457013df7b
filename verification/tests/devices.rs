use music_mic::audio::devices::{
    capturable_apps, find_app_by_bundle, find_device, has_screen_recording_permission, is_blackhole_installed,
    is_blackhole_name, list_capturable_apps, list_input_devices, list_output_devices,
    mentions_blackhole, CapturableApp, CaptureError, DeviceError, DeviceProbe, InputDevice,
    OutputDevice, ShareableContent, StreamFormat, WindowInfo, BLACKHOLE_DEVICE_NAME,
};

fn app(bundle: &str, name: &str, pid: i32) -> CapturableApp {
    CapturableApp { bundle_id: bundle.to_string(), name: name.to_string(), pid }
}

fn window(pid: i32, on_screen: bool) -> WindowInfo {
    WindowInfo { on_screen, owner_pid: Some(pid) }
}

fn probe(name: &str, format: Option<(u32, u16)>) -> DeviceProbe {
    DeviceProbe {
        name: name.to_string(),
        default_format: format.map(|(sample_rate, channels)| StreamFormat { sample_rate, channels }),
    }
}

#[test]
fn blackhole_exact_name_in_any_ascii_case() {
    assert!(is_blackhole_name(BLACKHOLE_DEVICE_NAME));
    assert!(is_blackhole_name("blackhole 2CH"));
}

#[test]
fn blackhole_word_anywhere_after_lowercasing() {
    assert!(is_blackhole_name("My BLACKHOLE 16ch"));
    assert!(is_blackhole_name("BlackHole 64ch"));
    assert!(!is_blackhole_name("MacBook Pro Speakers"));
    assert!(!is_blackhole_name("Black Hole"));
}

#[test]
fn blackhole_word_through_unicode_lowercasing() {
    // U+212A KELVIN SIGN lowercases to an ASCII 'k'.
    assert!(is_blackhole_name("Blac\u{212A}hole"));
}

#[test]
fn mentions_blackhole_takes_lowered_text() {
    assert!(mentions_blackhole("the blackhole device"));
    assert!(!mentions_blackhole("the BlackHole device"));
}

#[test]
fn input_devices_skip_unconfigured_probes() {
    let probes = vec![probe("USB Mic", Some((44_100, 1))), probe("Broken", None), probe("Built-in", Some((48_000, 2)))];
    let devices = list_input_devices(Ok(probes)).unwrap();
    assert_eq!(
        devices,
        vec![
            InputDevice { name: "USB Mic".to_string(), default_sample_rate: 44_100, default_channels: 1 },
            InputDevice { name: "Built-in".to_string(), default_sample_rate: 48_000, default_channels: 2 },
        ]
    );
}

#[test]
fn input_device_enumeration_error_is_kept() {
    let err = DeviceError { detail: "enumerating cpal input devices".to_string() };
    assert_eq!(list_input_devices(Err(err.clone())), Err(err));
}

#[test]
fn output_devices_are_marked() {
    let probes = vec![probe("Speakers", Some((48_000, 2))), probe("BlackHole 2ch", Some((48_000, 2))), probe("blackhole x", None)];
    let devices = list_output_devices(Ok(probes)).unwrap();
    assert_eq!(devices.len(), 2);
    assert!(!devices[0].is_blackhole);
    assert!(devices[1].is_blackhole);
    assert_eq!(devices[1].name, "BlackHole 2ch");
}

#[test]
fn blackhole_installed_needs_a_marked_output() {
    let speakers = OutputDevice { name: "Speakers".to_string(), default_sample_rate: 48_000, default_channels: 2, is_blackhole: false };
    let mut bh = speakers.clone();
    bh.name = "BlackHole 2ch".to_string();
    bh.is_blackhole = true;
    assert!(!is_blackhole_installed(&Ok(vec![speakers.clone()])));
    assert!(is_blackhole_installed(&Ok(vec![speakers, bh])));
    assert!(!is_blackhole_installed(&Err(DeviceError { detail: "x".to_string() })));
    assert!(!is_blackhole_installed(&Ok(vec![])));
}

#[test]
fn capturable_apps_filter_sort_and_dedup() {
    let content = ShareableContent {
        applications: vec![
            app("com.b", "beta", 2),
            app("", "No Bundle", 3),
            app("com.a", "Alpha", 1),
            app("com.z", "zed", 9),
            app("com.a", "alpha", 4),
            app("com.c", "Gamma", 5),
        ],
        windows: vec![window(1, true), window(2, true), window(3, true), window(9, false), window(4, true)],
    };
    let apps = capturable_apps(&content);
    assert_eq!(apps, vec![app("com.a", "Alpha", 1), app("com.b", "beta", 2)]);
}

#[test]
fn capturable_apps_sort_is_stable_and_case_insensitive() {
    let content = ShareableContent {
        applications: vec![app("com.x2", "Music", 2), app("com.y", "browser", 3), app("com.x1", "music", 1)],
        windows: vec![window(1, true), window(2, true), window(3, true)],
    };
    let apps = capturable_apps(&content);
    assert_eq!(apps, vec![app("com.y", "browser", 3), app("com.x2", "Music", 2), app("com.x1", "music", 1)]);
}

#[test]
fn capturable_apps_ignore_windows_without_owner() {
    let content = ShareableContent {
        applications: vec![app("com.a", "A", 1)],
        windows: vec![WindowInfo { on_screen: true, owner_pid: None }],
    };
    assert!(capturable_apps(&content).is_empty());
}

#[test]
fn list_capturable_apps_passes_service_errors() {
    let err = CaptureError { detail: "not permitted".to_string() };
    assert_eq!(list_capturable_apps(Err(err.clone())), Err(err));
    let empty = ShareableContent { applications: vec![], windows: vec![] };
    assert_eq!(list_capturable_apps(Ok(empty)), Ok(vec![]));
}

#[test]
fn permission_follows_the_service_answer() {
    let empty = ShareableContent { applications: vec![], windows: vec![] };
    assert!(has_screen_recording_permission(&Ok(empty)));
    assert!(!has_screen_recording_permission(&Err(CaptureError { detail: "denied".to_string() })));
}

#[test]
fn find_device_returns_first_match() {
    let names = vec![None, Some("A".to_string()), Some("BlackHole 2ch".to_string()), Some("BlackHole 2ch".to_string())];
    assert_eq!(find_device(&names, "BlackHole 2ch"), Some(2));
    assert_eq!(find_device(&names, "blackhole 2ch"), None);
    assert_eq!(find_device(&names, "<unknown>"), None);
}

#[test]
fn find_app_by_bundle_returns_first_match() {
    let apps = vec![app("com.a", "A", 1), app("com.b", "B", 2), app("com.b", "B2", 3)];
    assert_eq!(find_app_by_bundle(&apps, "com.b"), Some(1));
    assert_eq!(find_app_by_bundle(&apps, "com.c"), None);
}
