use music_mic::audio::devices::{InputDevice, OutputDevice};
use music_mic::audio::mixer::{plan_pull, prepare_scratch, pull_sources, PullPlan};
use music_mic::audio::ring::{pull_into, push_or_drop, sample_ring};
use music_mic::ui::{
    blackhole_output, can_start, initial_mic_selection, picker_selection, setup_complete,
    voice_isolation_enabled,
};

#[test]
fn push_writes_what_fits_in_order() {
    let (mut p, mut c) = sample_ring::<i32>(4);
    assert_eq!(push_or_drop(&mut p, &[]), 0);
    assert_eq!(push_or_drop(&mut p, &[1, 2, 3, 4, 5, 6]), 4);
    assert_eq!(push_or_drop(&mut p, &[7]), 0);
    let mut first = vec![0i32; 1];
    assert!(pull_into(&mut c, &mut first, 1));
    assert_eq!(first, vec![1]);
    assert_eq!(push_or_drop(&mut p, &[8, 9]), 1);
    let mut rest = vec![0i32; 4];
    assert!(pull_into(&mut c, &mut rest, 4));
    assert_eq!(rest, vec![2, 3, 4, 8]);
    assert!(!pull_into(&mut c, &mut rest, 1));
}

#[test]
fn pull_plan_takes_what_is_there() {
    assert_eq!(plan_pull(8, 3, 20), PullPlan { mic_take: 3, system_take: 8, underrun: false });
    assert_eq!(plan_pull(8, 0, 0), PullPlan { mic_take: 0, system_take: 0, underrun: true });
}

#[test]
fn scratch_is_cleared_to_silence() {
    let mut s = vec![1i32, 2, 3];
    prepare_scratch(&mut s, 3, 0);
    assert_eq!(s, vec![0, 0, 0]);
    let mut s = vec![1i32, 2, 3];
    prepare_scratch(&mut s, 5, 0);
    assert_eq!(s, vec![0, 0, 0, 0, 0]);
    let mut s = vec![7i32, 7, 7];
    prepare_scratch(&mut s, 2, 0);
    assert_eq!(s, vec![0, 0]);
}

#[test]
fn sources_are_pulled_and_padded() {
    let (mut mp, mut mc) = sample_ring::<i32>(16);
    let (_sp, mut sc) = sample_ring::<i32>(16);
    push_or_drop(&mut mp, &[5, 6, 7]);
    let mut sm = vec![1i32; 4];
    let mut ss = vec![1i32; 5];
    let plan = pull_sources(&mut mc, &mut sc, &mut sm, &mut ss, 5, 0);
    assert_eq!(plan, PullPlan { mic_take: 3, system_take: 0, underrun: false });
    assert_eq!(sm, vec![5, 6, 7, 0, 0]);
    assert_eq!(ss, vec![0; 5]);
    let plan = pull_sources(&mut mc, &mut sc, &mut sm, &mut ss, 5, 0);
    assert!(plan.underrun);
    let plan = pull_sources(&mut mc, &mut sc, &mut sm, &mut ss, 0, 0);
    assert_eq!(plan, PullPlan { mic_take: 0, system_take: 0, underrun: false });
}

#[test]
fn initial_mic_prefers_saved_then_first() {
    let inputs = vec![InputDevice { name: "USB".to_string(), default_sample_rate: 48_000, default_channels: 1 }];
    assert_eq!(initial_mic_selection(&Some("Saved".to_string()), &inputs), Some("Saved".to_string()));
    assert_eq!(initial_mic_selection(&None, &inputs), Some("USB".to_string()));
    assert_eq!(initial_mic_selection(&None, &vec![]), None);
}

#[test]
fn blackhole_output_is_first_marked() {
    let mk = |n: &str, b: bool| OutputDevice { name: n.to_string(), default_sample_rate: 48_000, default_channels: 2, is_blackhole: b };
    assert_eq!(blackhole_output(&vec![mk("Speakers", false), mk("BH", true), mk("BH2", true)]), Some("BH".to_string()));
    assert_eq!(blackhole_output(&vec![mk("Speakers", false)]), None);
}

#[test]
fn start_button_and_pickers() {
    let s = Some("x".to_string());
    assert!(can_start(&s, &s, &s));
    assert!(!can_start(&s, &None, &s));
    assert_eq!(picker_selection(String::new()), None);
    assert_eq!(picker_selection("Mic".to_string()), Some("Mic".to_string()));
    assert!(voice_isolation_enabled(None));
    assert!(!voice_isolation_enabled(Some(false)));
    assert!(setup_complete(true, true));
    assert!(!setup_complete(true, false));
}

#[test]
fn pulling_nothing_always_succeeds() {
    let (mut p, mut c) = sample_ring::<i32>(4);
    let mut scratch = vec![1i32, 2];
    assert!(pull_into(&mut c, &mut scratch, 0));
    assert_eq!(scratch, vec![1, 2]);
    assert!(!pull_into(&mut c, &mut scratch, 1));
    push_or_drop(&mut p, &[7]);
    assert!(pull_into(&mut c, &mut scratch, 1));
    assert_eq!(scratch, vec![7, 2]);
}

#[test]
fn pushes_keep_order_across_a_wrap() {
    let (mut p, mut c) = sample_ring::<i32>(3);
    assert_eq!(push_or_drop(&mut p, &[1, 2, 3, 4, 5]), 3);
    let mut scratch = vec![0i32; 2];
    assert!(pull_into(&mut c, &mut scratch, 2));
    assert_eq!(scratch, vec![1, 2]);
    assert_eq!(push_or_drop(&mut p, &[6, 7, 8]), 2);
    let mut scratch = vec![0i32; 3];
    assert!(pull_into(&mut c, &mut scratch, 3));
    assert_eq!(scratch, vec![3, 6, 7]);
}

#[test]
fn push_into_a_small_ring_keeps_the_first_that_fit() {
    let (mut p, mut c) = sample_ring::<i32>(3);
    assert_eq!(push_or_drop(&mut p, &[1, 2, 3, 4, 5]), 3);
    let mut out = vec![0i32; 3];
    assert!(pull_into(&mut c, &mut out, 3));
    assert_eq!(out, vec![1, 2, 3]);
    assert!(!pull_into(&mut c, &mut out, 1));
}

#[test]
fn output_pull_takes_the_queued_sample() {
    let (mut mp, mut mc) = sample_ring::<i32>(8);
    let (_sp, mut sc) = sample_ring::<i32>(8);
    assert_eq!(push_or_drop(&mut mp, &[3]), 1);
    let mut sm = vec![9i32; 2];
    let mut ss = vec![9i32; 2];
    let plan = pull_sources(&mut mc, &mut sc, &mut sm, &mut ss, 2, 0);
    assert_eq!(plan, PullPlan { mic_take: 1, system_take: 0, underrun: false });
    assert_eq!(sm, vec![3, 0]);
    assert_eq!(ss, vec![0, 0]);
    let mut probe = vec![0i32; 1];
    assert!(!pull_into(&mut mc, &mut probe, 1));
}
