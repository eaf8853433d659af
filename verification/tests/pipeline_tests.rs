use dsa_learning::audio::pipeline::{
    append_mono_i16, append_mono_i8, append_mono_u16, append_mono_u8, capture_i16, capture_i8, capture_u16,
    capture_u8, i8_to_i16, u16_to_i16, u8_to_i16,
};
use dsa_learning::audio::state::RecordingState;

#[test]
fn mono_input_passes_through() {
    let mut out = Vec::new();
    append_mono_i16(&[1, -2, 3, i16::MAX, i16::MIN], 1, &mut out);
    assert_eq!(out, vec![1, -2, 3, i16::MAX, i16::MIN]);
}

#[test]
fn zero_channels_pass_through() {
    let mut out = vec![7];
    append_mono_i16(&[4, 5], 0, &mut out);
    assert_eq!(out, vec![7, 4, 5]);
}

#[test]
fn stereo_is_averaged() {
    let mut out = Vec::new();
    append_mono_i16(&[100, 200, -100, -200, 32767, -32767, 10, 21], 2, &mut out);
    assert_eq!(out, vec![150, -150, 0, 15]);
}

#[test]
fn mean_rounds_toward_zero() {
    let mut out = Vec::new();
    append_mono_i16(&[-1, -2, 1, 2, -3, 0], 2, &mut out);
    assert_eq!(out, vec![-1, 1, -1]);
}

#[test]
fn trailing_partial_frame_is_dropped() {
    let mut out = Vec::new();
    append_mono_i16(&[10, 20, 30, 40, 50], 2, &mut out);
    assert_eq!(out, vec![15, 35]);
    let mut short = Vec::new();
    append_mono_i16(&[10, 20], 3, &mut short);
    assert!(short.is_empty());
}

#[test]
fn extreme_frames_do_not_overflow() {
    let data = vec![i16::MIN; 6];
    let mut out = Vec::new();
    append_mono_i16(&data, 3, &mut out);
    assert_eq!(out, vec![i16::MIN, i16::MIN]);
    let data = vec![i16::MAX; 8];
    let mut out = Vec::new();
    append_mono_i16(&data, 4, &mut out);
    assert_eq!(out, vec![i16::MAX, i16::MAX]);
}

#[test]
fn unsigned_samples_lose_the_midpoint() {
    assert_eq!(u16_to_i16(0), -32768);
    assert_eq!(u16_to_i16(32768), 0);
    assert_eq!(u16_to_i16(65535), 32767);
    let mut out = Vec::new();
    append_mono_u16(&[0, 32768, 65535, 32769], 1, &mut out);
    assert_eq!(out, vec![-32768, 0, 32767, 1]);
}

#[test]
fn unsigned_stereo_is_averaged_after_unbiasing() {
    let mut out = Vec::new();
    append_mono_u16(&[0, 65535, 32768, 32770, 0, 0], 2, &mut out);
    assert_eq!(out, vec![0, 1, -32768]);
}

#[test]
fn paused_buffers_are_dropped() {
    let mut out = Vec::new();
    capture_i16(Some(RecordingState::Recording), &[1, 2, 3], 1, &mut out);
    capture_i16(Some(RecordingState::Paused), &[4, 5, 6], 1, &mut out);
    capture_i16(Some(RecordingState::Stopped), &[7], 1, &mut out);
    capture_i16(None, &[8], 1, &mut out);
    capture_i16(Some(RecordingState::Recording), &[9, 10], 1, &mut out);
    assert_eq!(out, vec![1, 2, 3, 9, 10]);
    let mut unsigned = Vec::new();
    capture_u16(Some(RecordingState::Paused), &[1, 2], 1, &mut unsigned);
    assert!(unsigned.is_empty());
    capture_u16(Some(RecordingState::Recording), &[32768, 32769], 1, &mut unsigned);
    assert_eq!(unsigned, vec![0, 1]);
}

#[test]
fn narrow_samples_are_shifted_into_the_wider_range() {
    assert_eq!(i8_to_i16(0), 0);
    assert_eq!(i8_to_i16(1), 256);
    assert_eq!(i8_to_i16(-1), -256);
    assert_eq!(i8_to_i16(127), 32512);
    assert_eq!(i8_to_i16(-128), -32768);
    for s in i8::MIN..=i8::MAX {
        assert_eq!(i8_to_i16(s), (s as i16) << 8);
    }
    assert_eq!(u8_to_i16(128), 0);
    assert_eq!(u8_to_i16(0), -32768);
    assert_eq!(u8_to_i16(255), 32512);
    for s in u8::MIN..=u8::MAX {
        assert_eq!(u8_to_i16(s), ((s as i16) - 128) << 8);
    }
}

#[test]
fn narrow_buffers_are_averaged_then_widened() {
    let mut out = Vec::new();
    append_mono_i8(&[1, -2, 127, -128], 1, &mut out);
    assert_eq!(out, vec![256, -512, 32512, -32768]);
    let mut out = Vec::new();
    append_mono_i8(&[10, 20, -1, -2, 127, -127, 5], 2, &mut out);
    assert_eq!(out, vec![15 * 256, -256, 0]);
    let mut out = Vec::new();
    append_mono_u8(&[128, 129, 0, 255], 1, &mut out);
    assert_eq!(out, vec![0, 256, -32768, 32512]);
    let mut out = Vec::new();
    append_mono_u8(&[0, 255, 130, 132, 0, 0], 2, &mut out);
    assert_eq!(out, vec![0, 3 * 256, -32768]);
    let mut out = Vec::new();
    capture_i8(Some(RecordingState::Paused), &[1, 2], 1, &mut out);
    capture_u8(None, &[1, 2], 1, &mut out);
    assert!(out.is_empty());
    capture_i8(Some(RecordingState::Recording), &[1], 1, &mut out);
    capture_u8(Some(RecordingState::Recording), &[129], 1, &mut out);
    assert_eq!(out, vec![256, 256]);
}
