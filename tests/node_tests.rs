use synth::bridge::{frame_value, interleave, StreamStart};
use synth::clock::Clock;
use synth::switch::SequentialSwitch;

#[test]
fn clock_interval_rounds_up() {
    // 60 / 160 * 44100 = 16537.5 samples, rounded up.
    let mut c = Clock::new(160, 44100);
    let block = c.process(16539, 5.0_f32, 0.0_f32);
    let highs: Vec<usize> = (0..block.len()).filter(|&i| block[i] == 5.0).collect();
    assert_eq!(highs, vec![16538]);
}

#[test]
fn clock_pulses_once_per_period() {
    // 60 bpm at 3 samples per second: the counter runs 0, 1, 2, 3.
    let mut c = Clock::new(60, 3);
    let block = c.process(10, 1u8, 0u8);
    assert_eq!(block, vec![0, 0, 0, 1, 0, 0, 0, 1, 0, 0]);
    let next = c.process(4, 1u8, 0u8);
    assert_eq!(next, vec![0, 1, 0, 0]);
}

#[test]
fn clock_tick_reports_the_high_sample() {
    let mut c = Clock::new(60, 1);
    let ticks: Vec<bool> = (0..6).map(|_| c.tick()).collect();
    assert_eq!(ticks, vec![false, true, false, true, false, true]);
}

fn clock_every(k: usize, len: usize) -> Vec<bool> {
    (0..len).map(|i| i % k == k - 1).collect()
}

#[test]
fn switch_cycles_through_three_inputs() {
    let mut s = SequentialSwitch::new(3);
    let clock_slot = vec![vec![0.0_f32; 12]];
    let inputs = vec![clock_slot, vec![vec![1.0; 12]], vec![vec![2.0; 12]], vec![vec![3.0; 12]]];
    // A pulse on every third sample: 2, 5, 8, 11.
    let out = s.process(&clock_every(3, 12), &inputs, 0.0);
    assert_eq!(out, vec![1.0, 1.0, 2.0, 2.0, 2.0, 3.0, 3.0, 3.0, 1.0, 1.0, 1.0, 2.0]);
}

#[test]
fn switch_advance_wraps_to_first_input() {
    let mut s = SequentialSwitch::new(3);
    assert_eq!(s.advance(false), 1);
    assert_eq!(s.advance(true), 2);
    assert_eq!(s.advance(false), 2);
    assert_eq!(s.advance(true), 3);
    assert_eq!(s.advance(false), 3);
    assert_eq!(s.advance(true), 1);
    assert_eq!(s.advance(false), 1);
}

#[test]
fn switch_held_high_clock_advances_once() {
    let mut s = SequentialSwitch::new(3);
    assert_eq!(s.advance(false), 1);
    assert_eq!(s.advance(true), 2);
    assert_eq!(s.advance(true), 2);
    assert_eq!(s.advance(true), 2);
}

#[test]
fn switch_counts_crossings_not_high_samples() {
    let mut s = SequentialSwitch::new(3);
    let inputs = vec![vec![vec![0.0_f32; 6]], vec![vec![1.0; 6]], vec![vec![2.0; 6]], vec![vec![3.0; 6]]];
    // The clock rises at sample 1, stays high for two samples, and rises again at sample 4.
    let clock = vec![false, true, true, false, true, true];
    let out = s.process(&clock, &inputs, 0.0);
    assert_eq!(out, vec![1.0, 2.0, 2.0, 2.0, 3.0, 3.0]);
    // A block that starts high after a high sample does not advance.
    let out = s.process(&vec![true, false, false, false, false, false], &inputs, 0.0);
    assert_eq!(out, vec![3.0; 6]);
}

#[test]
fn switch_without_inputs_is_silent() {
    let mut s = SequentialSwitch::new(0);
    let inputs = vec![vec![vec![9.0_f32; 4]], vec![vec![7.0; 4]]];
    let out = s.process(&vec![true, true, false, true], &inputs, 0.0);
    assert_eq!(out, vec![0.0; 4]);
}

#[test]
fn switch_missing_input_reads_silence() {
    let mut s = SequentialSwitch::new(2);
    // Only the clock slot and the first cycled input are connected.
    let inputs = vec![vec![vec![0.0_f32; 4]], vec![vec![4.0; 4]]];
    let out = s.process(&vec![false, true, false, true], &inputs, -1.0);
    assert_eq!(out, vec![4.0, -1.0, -1.0, 4.0]);
}

#[test]
fn interleave_queues_slot_by_slot_frame_by_frame() {
    let inputs = vec![vec![vec![1, 2, 3], vec![10, 20, 30]], vec![vec![7, 8, 9]]];
    assert_eq!(interleave(&inputs, 3), vec![1, 10, 2, 20, 3, 30, 7, 8, 9]);
    assert_eq!(interleave(&inputs, 1), vec![1, 10, 7]);
    assert_eq!(interleave::<u8>(&vec![], 3), Vec::<u8>::new());
}

#[test]
fn frames_play_queued_samples_while_fed() {
    let pops = vec![Some(0.5_f32), Some(-0.25), Some(1.0)];
    let played: Vec<f32> = pops.iter().map(|&p| frame_value(p, 0.0)).collect();
    assert_eq!(played, vec![0.5, -0.25, 1.0]);
}

#[test]
fn frames_fall_back_to_silence_when_stalled() {
    let pops: Vec<Option<f32>> = vec![Some(0.75), None, None];
    let played: Vec<f32> = pops.iter().map(|&p| frame_value(p, 0.0)).collect();
    assert_eq!(played, vec![0.75, 0.0, 0.0]);
}

#[test]
fn stream_starts_on_first_block_only() {
    let mut s = StreamStart::new();
    assert!(s.on_block());
    assert!(!s.on_block());
    assert!(!s.on_block());
}

#[test]
fn clock_at_zero_sample_rate_is_always_high() {
    let mut c = Clock::new(120, 0);
    assert_eq!(c.process(3, 1u8, 0u8), vec![1, 1, 1]);
}

#[test]
fn clock_with_interval_counts_from_zero() {
    let mut c = Clock::with_interval(2);
    assert_eq!(c.process(7, 'H', '.'), vec!['.', '.', 'H', '.', '.', 'H', '.']);
}

#[test]
fn clock_whole_minute_interval() {
    // 120 beats per minute at 48 kHz: exactly 24000 samples.
    let mut c = Clock::new(120, 48000);
    let block = c.process(48002, true, false);
    let highs: Vec<usize> = (0..block.len()).filter(|&i| block[i]).collect();
    assert_eq!(highs, vec![24000, 48001]);
}
