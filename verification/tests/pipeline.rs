use music_mic::audio::capture::fill_from_capture;
use music_mic::audio::layout::{ensure_capacity, fill_interleaved, fill_mono, fill_planar};
use music_mic::audio::mic::{
    append_to_carries, carry_capacity, interleave_resampled, mic_feed, needs_resampler,
    stereo_from_block, take_block, MicFeed, MicSampleFormat,
};
use music_mic::audio::voice::{VoiceQueue, FRAME, QUEUE_CAP};

#[test]
fn voice_queue_whole_blocks_come_back_at_once() {
    // A warm-up with four blocks of stereo silence followed by two more
    // blocks: after warm-up everything passed in comes back.
    let mut q = VoiceQueue::new();
    let first = q.plan(FRAME * 2 * 4);
    assert_eq!((first.frames, first.blocks, first.emitted), (FRAME * 4, 4, FRAME * 3));
    let second = q.plan(FRAME * 2 * 2);
    assert_eq!(second.samples_out(), FRAME * 2 * 2);
    assert_eq!((q.carried_frames(), q.queued_frames()), (0, FRAME));
}

#[test]
fn voice_queue_settles_with_odd_sizes() {
    let mut q = VoiceQueue::new();
    let outs: Vec<usize> = (0..6).map(|_| q.plan(512).samples_out()).collect();
    assert_eq!(outs, vec![0, 64, 512, 512, 512, 512]);
}

#[test]
fn voice_queue_small_buffers_wait_for_a_block() {
    let mut q = VoiceQueue::new();
    let p = q.plan(200);
    assert_eq!((p.frames, p.blocks, p.emitted), (100, 0, 0));
    assert_eq!(q.carried_frames(), 100);
    let p = q.plan(800);
    // 100 + 400 = 500 frames in: one block denoised, 20 carried, 20 handed back.
    assert_eq!((p.frames, p.blocks, p.emitted), (400, 1, 20));
    assert_eq!((q.carried_frames(), q.queued_frames()), (20, 460));
    q.backlog_is_bounded();
}

#[test]
fn voice_queue_ignores_buffers_without_a_frame_and_resets() {
    let mut q = VoiceQueue::new();
    q.plan(300);
    let p = q.plan(1);
    assert_eq!((p.frames, p.blocks, p.emitted), (0, 0, 0));
    assert_eq!(q.carried_frames(), 150);
    q.reset();
    assert_eq!((q.carried_frames(), q.queued_frames()), (0, 0));
    assert_eq!(QUEUE_CAP, 3840);
}

#[test]
fn mono_fills_both_channels() {
    let mut out = vec![0i32; 8];
    let n = fill_mono(&mut out, &[1, 2, 3], 5);
    assert_eq!(n, 3);
    assert_eq!(out, vec![1, 1, 2, 2, 3, 3, 0, 0]);
}

#[test]
fn interleaved_takes_first_two_channels() {
    let mut out = vec![-1i32; 6];
    let n = fill_interleaved(&mut out, &[1, 2, 3, 4, 5, 6, 7, 8, 9, 10], 3, 10);
    assert_eq!(n, 3);
    assert_eq!(out, vec![1, 2, 4, 5, 7, 8]);
    let mut mono = vec![0i32; 4];
    assert_eq!(fill_interleaved(&mut mono, &[7, 8], 1, 5), 2);
    assert_eq!(mono, vec![7, 7, 8, 8]);
}

#[test]
fn interleaved_with_zero_channels_repeats_the_first_sample() {
    let mut out = vec![0i32; 6];
    assert_eq!(fill_interleaved(&mut out, &[5, 6], 0, 3), 2);
    assert_eq!(out, vec![5, 5, 5, 5, 0, 0]);
    let mut none = vec![1i32; 2];
    assert_eq!(fill_interleaved(&mut none, &[], 0, 3), 0);
    assert_eq!(none, vec![1, 1]);
}

#[test]
fn planar_stops_at_shortest() {
    let mut out = vec![0i32; 6];
    let n = fill_planar(&mut out, &[1, 2, 3], &[10, 20], 3);
    assert_eq!(n, 2);
    assert_eq!(out, vec![1, 10, 2, 20, 0, 0]);
}

#[test]
fn capacity_only_grows() {
    let mut v = vec![1i32, 2];
    ensure_capacity(&mut v, 4, 0);
    assert_eq!(v, vec![1, 2, 0, 0]);
    ensure_capacity(&mut v, 1, 9);
    assert_eq!(v, vec![1, 2, 0, 0]);
}

#[test]
fn capture_single_mono_buffer() {
    let mut scratch: Vec<f32> = Vec::new();
    let data = [0.5f32, -0.5];
    let valid = fill_from_capture(&mut scratch, 2, 1, Some(&data[..]), 1, None, 0.0);
    assert_eq!(valid, 4);
    assert_eq!(scratch, vec![0.5, 0.5, -0.5, -0.5]);
}

#[test]
fn capture_zero_channels_reads_as_mono() {
    let mut scratch = vec![9i32; 2];
    let valid = fill_from_capture(&mut scratch, 2, 1, Some(&[4, 5][..]), 0, None, 0);
    assert_eq!(valid, 4);
    assert_eq!(scratch, vec![4, 4, 5, 5]);
}

#[test]
fn capture_interleaved_and_planar() {
    let mut scratch: Vec<i32> = Vec::new();
    let valid = fill_from_capture(&mut scratch, 3, 1, Some(&[1, 2, 3, 4][..]), 2, None, 0);
    assert_eq!(valid, 4);
    assert_eq!(scratch, vec![1, 2, 3, 4, 0, 0]);
    let mut scratch: Vec<i32> = Vec::new();
    let valid = fill_from_capture(&mut scratch, 2, 2, Some(&[1, 2][..]), 1, Some(&[3, 4][..]), 0);
    assert_eq!(valid, 4);
    assert_eq!(scratch, vec![1, 3, 2, 4]);
}

#[test]
fn capture_missing_buffers_write_nothing() {
    let mut scratch = vec![7i32];
    assert_eq!(fill_from_capture(&mut scratch, 0, 1, Some(&[1][..]), 1, None, 0), 0);
    assert_eq!(scratch, vec![7]);
    assert_eq!(fill_from_capture(&mut scratch, 2, 0, None, 1, None, 0), 0);
    assert_eq!(scratch, vec![7]);
    assert_eq!(fill_from_capture(&mut scratch, 2, 1, None, 1, None, 0), 0);
    assert_eq!(scratch, vec![7, 0, 0, 0]);
    assert_eq!(fill_from_capture(&mut scratch, 2, 2, Some(&[1, 2][..]), 1, None, 0), 0);
    assert_eq!(scratch, vec![7, 0, 0, 0]);
}

#[test]
fn resampler_only_off_pipeline_rate() {
    assert!(!needs_resampler(48_000));
    assert!(needs_resampler(44_100));
    assert_eq!(carry_capacity(Some(1024)), 2048);
    assert_eq!(carry_capacity(None), 0);
}

#[test]
fn block_to_stereo_upmixes_and_downmixes() {
    let mut inter = vec![0i32; 2];
    assert_eq!(stereo_from_block(&mut inter, &[1, 2, 3], 1, 0), 6);
    assert_eq!(inter, vec![1, 1, 2, 2, 3, 3]);
    let mut inter = vec![0i32; 8];
    assert_eq!(stereo_from_block(&mut inter, &[1, 2, 3, 4, 5, 6, 7], 3, 0), 4);
    assert_eq!(inter, vec![1, 2, 4, 5, 0, 0, 0, 0]);
}

#[test]
fn carries_collect_channels_and_blocks_leave_them() {
    let mut l = vec![0i32];
    let mut r = vec![0i32];
    append_to_carries(&mut l, &mut r, &[1, 2, 3, 4, 5], 2);
    assert_eq!(l, vec![0, 1, 3]);
    assert_eq!(r, vec![0, 2, 4]);
    let mut block = vec![9i32; 3];
    take_block(&mut l, &mut block, 2);
    assert_eq!(l, vec![3]);
    assert_eq!(block, vec![0, 1, 9]);
}

#[test]
fn resampled_channels_interleave() {
    let mut inter: Vec<i32> = Vec::new();
    assert_eq!(interleave_resampled(&mut inter, &[1, 2, 3], &[4, 5, 6], 2, 0), 4);
    assert_eq!(inter, vec![1, 4, 2, 5]);
}

#[test]
fn mic_formats_that_are_wired_up() {
    assert_eq!(mic_feed(MicSampleFormat::F32), Some(MicFeed::Float));
    assert_eq!(mic_feed(MicSampleFormat::I16), Some(MicFeed::Integer));
    assert_eq!(mic_feed(MicSampleFormat::U16), Some(MicFeed::Integer));
    assert_eq!(mic_feed(MicSampleFormat::Other), None);
}
