use music_mic::audio::devices::{display_name, UNKNOWN_DEVICE_NAME};
use music_mic::audio::sorting::stable_order;
use music_mic::audio::text::{chars_of, chars_precede, contains_chars, eq_ignore_ascii_case};
use music_mic::audio::voice::{VoiceQueue, FRAME};

fn v(s: &str) -> Vec<char> {
    s.chars().collect()
}

#[test]
fn code_point_order() {
    assert!(chars_precede(&v("abc"), &v("abd")));
    assert!(chars_precede(&v("ab"), &v("abc")));
    assert!(!chars_precede(&v("abc"), &v("abc")));
    assert!(!chars_precede(&v("b"), &v("abc")));
    assert!(chars_precede(&v("Z"), &v("a")));
    assert!(chars_precede(&v(""), &v("a")));
}

#[test]
fn stable_order_keeps_ties_in_place() {
    let keys = vec![v("b"), v("a"), v("b"), v("a"), v("c")];
    assert_eq!(stable_order(&keys), vec![1, 3, 0, 2, 4]);
    assert_eq!(stable_order(&vec![]), Vec::<usize>::new());
}

#[test]
fn ascii_case_and_substrings() {
    assert!(eq_ignore_ascii_case("BlackHole 2ch", "BLACKHOLE 2CH"));
    assert!(!eq_ignore_ascii_case("BlackHole 2ch", "BlackHole 2c"));
    assert!(!eq_ignore_ascii_case("É", "é"));
    assert!(contains_chars("my blackhole", "blackhole"));
    assert!(contains_chars("abc", ""));
    assert!(!contains_chars("black", "blackhole"));
    assert_eq!(chars_of("añb"), vec!['a', 'ñ', 'b']);
}

#[test]
fn unreadable_descriptions_get_a_placeholder() {
    assert_eq!(display_name(Some("Mic".to_string())), "Mic");
    assert_eq!(display_name(None), UNKNOWN_DEVICE_NAME);
    assert_eq!(UNKNOWN_DEVICE_NAME, "<unknown>");
}

#[test]
fn voice_queue_conserves_frames_and_bounds_backlog() {
    let mut q = VoiceQueue::new();
    let mut total_in = 0usize;
    let mut total_out = 0usize;
    for samples in [2usize, 301, 960, 1, 4000, 17, 958, 0, 1922] {
        let p = q.plan(samples);
        total_in += p.frames;
        total_out += p.emitted;
        assert!(p.emitted <= p.frames);
        assert!(q.carried_frames() + q.queued_frames() <= FRAME);
        assert_eq!(total_in, total_out + q.carried_frames() + q.queued_frames());
        assert_eq!(total_out, total_in.saturating_sub(FRAME));
    }
}
