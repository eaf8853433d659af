//! The sample pipeline: what the real-time callback does with a buffer.
//!
//! The output is always single-channel 16-bit PCM. A buffer is persisted
//! only while the shared state is probed as `Recording`; it is dropped
//! while the capture is paused and when the state cell is busy, so that the
//! callback never waits. Input of more than one channel is downmixed by the
//! mean of each frame, before the conversion to the output's bit depth.

use vstd::prelude::*;
use crate::audio::sample::{
    div_toward_zero, downmix, frame_at, frame_count, frame_mean, frame_sum, lemma_div_toward_zero_bounds, mono,
    narrow, pcm, unbiased, unbiased_narrow, widened, U16_MIDPOINT, U8_MIDPOINT, WIDENING,
};
use crate::audio::ieee::{ieee_sample_to_i16, pcm_of_ieee};
use crate::audio::single::{add_single, divide_single, mean, total};
use crate::audio::state::{persists, should_persist, RecordingState};

verus! {

/// What one callback invocation contributes to the output: the mono samples
/// of the buffer while recording, nothing otherwise.
pub open spec fn captured(probe: Option<RecordingState>, samples: Seq<int>, channels: nat) -> Seq<int> {
    if persists(probe) {
        mono(samples, channels)
    } else {
        Seq::empty()
    }
}

/// Converts an unsigned 16-bit sample to signed by removing the midpoint bias.
pub fn u16_to_i16(sample: u16) -> (s: i16)
    ensures
        s as int == sample as int - 32768,
{
    (sample as i32 - U16_MIDPOINT) as i16
}

/// Quotient of a frame sum by the channel count, rounded toward zero.
fn mean_of_sum(sum: i32, channels: usize) -> (m: i16)
    requires
        0 < channels <= 65535,
        -32768 * channels <= sum <= 32767 * channels,
    ensures
        m as int == div_toward_zero(sum as int, channels as int),
{
    proof {
        lemma_div_toward_zero_bounds(sum as int, channels as int, -32768, 32767);
    }
    let m: i32 = sum / (channels as i32);
    m as i16
}

/// Mean of the `channels` signed samples that start at `start`.
fn frame_mean_i16(data: &[i16], start: usize, channels: usize) -> (m: i16)
    requires
        0 < channels <= 65535,
        start + channels <= data.len(),
    ensures
        m as int == frame_mean(pcm(data@).subrange(start as int, start + channels)),
{
    let ghost frame = pcm(data@).subrange(start as int, start + channels);
    let mut sum: i32 = 0;
    let mut c: usize = 0;
    while c < channels
        invariant
            0 < channels <= 65535,
            start + channels <= data.len(),
            c <= channels,
            frame == pcm(data@).subrange(start as int, start + channels),
            sum as int == frame_sum(frame.take(c as int)),
            -32768 * c <= sum <= 32767 * c,
        decreases channels - c,
    {
        proof {
            assert(frame.take(c + 1).drop_last() =~= frame.take(c as int));
            assert(frame.take(c + 1).last() == data@[start + c] as int);
        }
        sum = sum + data[start + c] as i32;
        c = c + 1;
    }
    proof {
        assert(frame.take(channels as int) =~= frame);
    }
    mean_of_sum(sum, channels)
}

/// Mean of the `channels` unsigned samples that start at `start`, each taken
/// less the midpoint bias.
fn frame_mean_u16(data: &[u16], start: usize, channels: usize) -> (m: i16)
    requires
        0 < channels <= 65535,
        start + channels <= data.len(),
    ensures
        m as int == frame_mean(unbiased(data@).subrange(start as int, start + channels)),
{
    let ghost frame = unbiased(data@).subrange(start as int, start + channels);
    let mut sum: i32 = 0;
    let mut c: usize = 0;
    while c < channels
        invariant
            0 < channels <= 65535,
            start + channels <= data.len(),
            c <= channels,
            frame == unbiased(data@).subrange(start as int, start + channels),
            sum as int == frame_sum(frame.take(c as int)),
            -32768 * c <= sum <= 32767 * c,
        decreases channels - c,
    {
        proof {
            assert(frame.take(c + 1).drop_last() =~= frame.take(c as int));
            assert(frame.take(c + 1).last() == data@[start + c] as int - 32768);
        }
        sum = sum + (data[start + c] as i32 - U16_MIDPOINT);
        c = c + 1;
    }
    proof {
        assert(frame.take(channels as int) =~= frame);
    }
    mean_of_sum(sum, channels)
}

/// Appends to `out` the mono samples of a buffer of signed 16-bit input.
///
/// With at most one input channel every sample passes through unchanged.
/// With more, each whole frame contributes the mean of its channels, rounded
/// toward zero; a trailing partial frame contributes nothing.
pub fn append_mono_i16(data: &[i16], channels: u16, out: &mut Vec<i16>)
    ensures
        pcm(final(out)@) == pcm(old(out)@) + mono(pcm(data@), channels as nat),
{
    let ghost before = pcm(out@);
    let ghost input = pcm(data@);
    let n: usize = data.len();
    let ch: usize = channels as usize;
    if ch <= 1 {
        let mut i: usize = 0;
        while i < n
            invariant
                n == data.len(),
                i <= n,
                input == pcm(data@),
                pcm(out@) == before + input.take(i as int),
            decreases n - i,
        {
            let ghost prev = out@;
            out.push(data[i]);
            i = i + 1;
            proof {
                lemma_pcm_push(prev, data[i - 1]);
                assert(input.take(i as int) =~= input.take(i - 1).push(input[i - 1]));
                assert(pcm(out@) =~= before + input.take(i as int));
            }
        }
        proof {
            assert(input.take(n as int) =~= input);
        }
    } else {
        let frames: usize = n / ch;
        let ghost target = downmix(input, ch as nat);
        let mut k: usize = 0;
        proof {
            assert(pcm(out@) =~= before + target.take(0));
        }
        while k < frames
            invariant
                n == data.len(),
                1 < ch <= 65535,
                frames == n / ch,
                k <= frames,
                input == pcm(data@),
                target == downmix(input, ch as nat),
                pcm(out@) == before + target.take(k as int),
            decreases frames - k,
        {
            proof {
                lemma_frame_inside(n as int, ch as int, k as int);
            }
            let m = frame_mean_i16(data, k * ch, ch);
            let ghost prev = out@;
            out.push(m);
            k = k + 1;
            proof {
                lemma_pcm_push(prev, m);
                assert(target[k - 1] == frame_mean(frame_at(input, ch as nat, k - 1)));
                assert(target.take(k as int) =~= target.take(k - 1).push(target[k - 1]));
                assert(pcm(out@) =~= before + target.take(k as int));
            }
        }
        proof {
            assert(target.take(frames as int) =~= target);
        }
    }
}

/// Appends to `out` the mono samples of a buffer of unsigned 16-bit input.
///
/// Each sample is first taken less the midpoint bias; the rest is as for
/// signed input.
pub fn append_mono_u16(data: &[u16], channels: u16, out: &mut Vec<i16>)
    ensures
        pcm(final(out)@) == pcm(old(out)@) + mono(unbiased(data@), channels as nat),
{
    let ghost before = pcm(out@);
    let ghost input = unbiased(data@);
    let n: usize = data.len();
    let ch: usize = channels as usize;
    if ch <= 1 {
        let mut i: usize = 0;
        while i < n
            invariant
                n == data.len(),
                i <= n,
                input == unbiased(data@),
                pcm(out@) == before + input.take(i as int),
            decreases n - i,
        {
            let ghost prev = out@;
            let v = u16_to_i16(data[i]);
            out.push(v);
            i = i + 1;
            proof {
                lemma_pcm_push(prev, v);
                assert(input.take(i as int) =~= input.take(i - 1).push(input[i - 1]));
                assert(pcm(out@) =~= before + input.take(i as int));
            }
        }
        proof {
            assert(input.take(n as int) =~= input);
        }
    } else {
        let frames: usize = n / ch;
        let ghost target = downmix(input, ch as nat);
        let mut k: usize = 0;
        proof {
            assert(pcm(out@) =~= before + target.take(0));
        }
        while k < frames
            invariant
                n == data.len(),
                1 < ch <= 65535,
                frames == n / ch,
                k <= frames,
                input == unbiased(data@),
                target == downmix(input, ch as nat),
                pcm(out@) == before + target.take(k as int),
            decreases frames - k,
        {
            proof {
                lemma_frame_inside(n as int, ch as int, k as int);
            }
            let m = frame_mean_u16(data, k * ch, ch);
            let ghost prev = out@;
            out.push(m);
            k = k + 1;
            proof {
                lemma_pcm_push(prev, m);
                assert(target[k - 1] == frame_mean(frame_at(input, ch as nat, k - 1)));
                assert(target.take(k as int) =~= target.take(k - 1).push(target[k - 1]));
                assert(pcm(out@) =~= before + target.take(k as int));
            }
        }
        proof {
            assert(target.take(frames as int) =~= target);
        }
    }
}

/// Appending a sample appends its value.
proof fn lemma_pcm_push(samples: Seq<i16>, sample: i16)
    ensures
        pcm(samples.push(sample)) == pcm(samples).push(sample as int),
{
    assert(pcm(samples.push(sample)) =~= pcm(samples).push(sample as int));
}

/// The `k`-th whole frame lies inside the buffer.
proof fn lemma_frame_inside(len: int, channels: int, k: int)
    requires
        channels > 0,
        0 <= k < len / channels,
        len >= 0,
    ensures
        0 <= k * channels,
        (k + 1) * channels == k * channels + channels,
        (k + 1) * channels <= len,
{
    assert((k + 1) * channels == k * channels + channels) by (nonlinear_arith);
    assert(0 <= k * channels) by (nonlinear_arith)
        requires
            k >= 0,
            channels > 0,
    ;
    assert((k + 1) * channels <= len) by (nonlinear_arith)
        requires
            channels > 0,
            k + 1 <= len / channels,
            len >= 0,
    ;
}

/// Widens a signed 8-bit sample to 16 bits by a shift to the left.
pub fn i8_to_i16(sample: i8) -> (s: i16)
    ensures
        s as int == sample as int * 256,
{
    (sample as i32 * WIDENING) as i16
}

/// Converts an unsigned 8-bit sample to signed by removing the midpoint
/// bias, and widens it to 16 bits by a shift to the left.
pub fn u8_to_i16(sample: u8) -> (s: i16)
    ensures
        s as int == (sample as int - 128) * 256,
{
    ((sample as i32 - U8_MIDPOINT) * WIDENING) as i16
}

/// The widened mean of a frame sum of 8-bit values.
fn widened_mean_of_sum(sum: i32, channels: usize) -> (m: i16)
    requires
        0 < channels <= 65535,
        -128 * channels <= sum <= 127 * channels,
    ensures
        m as int == div_toward_zero(sum as int, channels as int) * 256,
{
    proof {
        lemma_div_toward_zero_bounds(sum as int, channels as int, -128, 127);
    }
    let mean: i32 = sum / (channels as i32);
    (mean * WIDENING) as i16
}

/// Appends to `out` the mono samples of a buffer of signed 8-bit input,
/// widened to 16 bits.
///
/// With at most one input channel every sample is widened by itself. With
/// more, each whole frame contributes the widened mean of its channels,
/// rounded toward zero; a trailing partial frame contributes nothing.
pub fn append_mono_i8(data: &[i8], channels: u16, out: &mut Vec<i16>)
    ensures
        pcm(final(out)@) == pcm(old(out)@) + widened(mono(narrow(data@), channels as nat)),
{
    let ghost before = pcm(out@);
    let ghost input = narrow(data@);
    let ghost target = widened(mono(input, channels as nat));
    let n: usize = data.len();
    let ch: usize = channels as usize;
    let count: usize = if ch <= 1 {
        n
    } else {
        n / ch
    };
    let mut k: usize = 0;
    proof {
        assert(pcm(out@) =~= before + target.take(0));
    }
    while k < count
        invariant
            n == data.len(),
            ch == channels,
            count == (if ch <= 1 {
                n
            } else {
                n / ch
            }),
            k <= count,
            input == narrow(data@),
            target == widened(mono(input, channels as nat)),
            target.len() == count,
            pcm(out@) == before + target.take(k as int),
        decreases count - k,
    {
        let m = if ch <= 1 {
            i8_to_i16(data[k])
        } else {
            proof {
                lemma_frame_inside(n as int, ch as int, k as int);
            }
            let ghost frame = input.subrange(k * ch, k * ch + ch);
            let mut sum: i32 = 0;
            let mut c: usize = 0;
            while c < ch
                invariant
                    n == data.len(),
                    1 < ch <= 65535,
                    k * ch + ch <= n,
                    c <= ch,
                    input == narrow(data@),
                    frame == input.subrange(k * ch, k * ch + ch),
                    sum as int == frame_sum(frame.take(c as int)),
                    -128 * c <= sum <= 127 * c,
                decreases ch - c,
            {
                proof {
                    assert(frame.take(c + 1).drop_last() =~= frame.take(c as int));
                    assert(frame.take(c + 1).last() == data@[k * ch + c] as int);
                }
                sum = sum + data[k * ch + c] as i32;
                c = c + 1;
            }
            proof {
                assert(frame.take(ch as int) =~= frame);
                assert(frame == frame_at(input, ch as nat, k as int));
            }
            widened_mean_of_sum(sum, ch)
        };
        let ghost prev = out@;
        out.push(m);
        k = k + 1;
        proof {
            lemma_pcm_push(prev, m);
            assert(target[k - 1] == m as int);
            assert(target.take(k as int) =~= target.take(k - 1).push(target[k - 1]));
            assert(pcm(out@) =~= before + target.take(k as int));
        }
    }
    proof {
        assert(target.take(count as int) =~= target);
    }
}

/// Appends to `out` the mono samples of a buffer of unsigned 8-bit input,
/// widened to 16 bits. Each sample is first taken less the midpoint bias;
/// the rest is as for signed input.
pub fn append_mono_u8(data: &[u8], channels: u16, out: &mut Vec<i16>)
    ensures
        pcm(final(out)@) == pcm(old(out)@) + widened(mono(unbiased_narrow(data@), channels as nat)),
{
    let ghost before = pcm(out@);
    let ghost input = unbiased_narrow(data@);
    let ghost target = widened(mono(input, channels as nat));
    let n: usize = data.len();
    let ch: usize = channels as usize;
    let count: usize = if ch <= 1 {
        n
    } else {
        n / ch
    };
    let mut k: usize = 0;
    proof {
        assert(pcm(out@) =~= before + target.take(0));
    }
    while k < count
        invariant
            n == data.len(),
            ch == channels,
            count == (if ch <= 1 {
                n
            } else {
                n / ch
            }),
            k <= count,
            input == unbiased_narrow(data@),
            target == widened(mono(input, channels as nat)),
            target.len() == count,
            pcm(out@) == before + target.take(k as int),
        decreases count - k,
    {
        let m = if ch <= 1 {
            u8_to_i16(data[k])
        } else {
            proof {
                lemma_frame_inside(n as int, ch as int, k as int);
            }
            let ghost frame = input.subrange(k * ch, k * ch + ch);
            let mut sum: i32 = 0;
            let mut c: usize = 0;
            while c < ch
                invariant
                    n == data.len(),
                    1 < ch <= 65535,
                    k * ch + ch <= n,
                    c <= ch,
                    input == unbiased_narrow(data@),
                    frame == input.subrange(k * ch, k * ch + ch),
                    sum as int == frame_sum(frame.take(c as int)),
                    -128 * c <= sum <= 127 * c,
                decreases ch - c,
            {
                proof {
                    assert(frame.take(c + 1).drop_last() =~= frame.take(c as int));
                    assert(frame.take(c + 1).last() == data@[k * ch + c] as int - 128);
                }
                sum = sum + (data[k * ch + c] as i32 - U8_MIDPOINT);
                c = c + 1;
            }
            proof {
                assert(frame.take(ch as int) =~= frame);
                assert(frame == frame_at(input, ch as nat, k as int));
            }
            widened_mean_of_sum(sum, ch)
        };
        let ghost prev = out@;
        out.push(m);
        k = k + 1;
        proof {
            lemma_pcm_push(prev, m);
            assert(target[k - 1] == m as int);
            assert(target.take(k as int) =~= target.take(k - 1).push(target[k - 1]));
            assert(pcm(out@) =~= before + target.take(k as int));
        }
    }
    proof {
        assert(target.take(count as int) =~= target);
    }
}

/// One invocation of the real-time callback on signed 8-bit input.
pub fn capture_i8(probe: Option<RecordingState>, data: &[i8], channels: u16, out: &mut Vec<i16>)
    ensures
        pcm(final(out)@) == pcm(old(out)@) + if persists(probe) {
            widened(mono(narrow(data@), channels as nat))
        } else {
            Seq::<int>::empty()
        },
{
    if should_persist(probe) {
        append_mono_i8(data, channels, out);
    } else {
        proof {
            assert(pcm(out@) =~= pcm(out@) + Seq::<int>::empty());
        }
    }
}

/// One invocation of the real-time callback on unsigned 8-bit input.
pub fn capture_u8(probe: Option<RecordingState>, data: &[u8], channels: u16, out: &mut Vec<i16>)
    ensures
        pcm(final(out)@) == pcm(old(out)@) + if persists(probe) {
            widened(mono(unbiased_narrow(data@), channels as nat))
        } else {
            Seq::<int>::empty()
        },
{
    if should_persist(probe) {
        append_mono_u8(data, channels, out);
    } else {
        proof {
            assert(pcm(out@) =~= pcm(out@) + Seq::<int>::empty());
        }
    }
}

/// The 16-bit values of a buffer of 32-bit IEEE-754 samples, each given by
/// its bit pattern.
pub open spec fn converted(samples: Seq<u32>) -> Seq<int> {
    samples.map_values(|bits: u32| pcm_of_ieee(bits))
}

/// The 16-bit value of the mean of every whole frame of an interleaved
/// buffer of 32-bit IEEE-754 samples. The mean is taken in single
/// precision: the samples of a frame are summed one after the other and
/// the sum is divided by their number.
pub open spec fn downmix_ieee(samples: Seq<u32>, channels: nat) -> Seq<int>
    recommends
        1 < channels < 0x1_0000,
{
    Seq::new(
        frame_count(samples.len(), channels),
        |k: int| pcm_of_ieee(mean(samples.subrange(k * channels, (k + 1) * channels))),
    )
}

/// The mono samples that a buffer of 32-bit IEEE-754 samples contributes
/// to the output: one for each sample of a buffer of at most one channel,
/// else one per whole frame.
pub open spec fn mono_ieee(samples: Seq<u32>, channels: nat) -> Seq<int> {
    if channels <= 1 {
        converted(samples)
    } else {
        downmix_ieee(samples, channels)
    }
}

/// The 16-bit value of the mean of the `channels` samples that start at
/// `start`.
fn frame_mean_ieee(data: &[u32], start: usize, channels: u16) -> (m: i16)
    requires
        0 < channels,
        start + channels <= data.len(),
    ensures
        m as int == pcm_of_ieee(mean(data@.subrange(start as int, start + channels))),
{
    let ghost frame = data@.subrange(start as int, start + channels);
    let count: usize = channels as usize;
    let mut sum: u32 = 0;
    let mut c: usize = 0;
    while c < count
        invariant
            count == channels,
            start + count <= data.len(),
            c <= count,
            frame == data@.subrange(start as int, start + channels),
            sum == total(frame.take(c as int)),
        decreases count - c,
    {
        proof {
            assert(frame.take(c + 1).drop_last() =~= frame.take(c as int));
            assert(frame.take(c + 1).last() == data@[start + c]);
        }
        sum = add_single(sum, data[start + c]);
        c = c + 1;
    }
    proof {
        assert(frame.take(count as int) =~= frame);
    }
    ieee_sample_to_i16(divide_single(sum, channels))
}

/// Appends to `out` the mono samples of a buffer of 32-bit IEEE-754 input,
/// each sample given by its bit pattern.
///
/// Every output sample is limited to full scale, never wrapped. With at
/// most one input channel each sample is converted by itself. With more,
/// each whole frame contributes the converted mean of its channels; a
/// trailing partial frame contributes nothing.
pub fn append_mono_ieee(data: &[u32], channels: u16, out: &mut Vec<i16>)
    ensures
        pcm(final(out)@) == pcm(old(out)@) + mono_ieee(data@, channels as nat),
{
    let ghost before = pcm(out@);
    let n: usize = data.len();
    let ch: usize = channels as usize;
    if ch <= 1 {
        let ghost target = converted(data@);
        let mut i: usize = 0;
        proof {
            assert(pcm(out@) =~= before + target.take(0));
        }
        while i < n
            invariant
                n == data.len(),
                i <= n,
                target == converted(data@),
                pcm(out@) == before + target.take(i as int),
            decreases n - i,
        {
            let ghost prev = out@;
            let v = ieee_sample_to_i16(data[i]);
            out.push(v);
            i = i + 1;
            proof {
                lemma_pcm_push(prev, v);
                assert(target.take(i as int) =~= target.take(i - 1).push(target[i - 1]));
                assert(pcm(out@) =~= before + target.take(i as int));
            }
        }
        proof {
            assert(target.take(i as int) =~= target);
        }
    } else {
        let frames: usize = n / ch;
        let ghost target = downmix_ieee(data@, ch as nat);
        let mut k: usize = 0;
        proof {
            assert(pcm(out@) =~= before + target.take(0));
        }
        while k < frames
            invariant
                n == data.len(),
                1 < ch <= 65535,
                ch == channels,
                frames == n / ch,
                k <= frames,
                target == downmix_ieee(data@, ch as nat),
                pcm(out@) == before + target.take(k as int),
            decreases frames - k,
        {
            proof {
                lemma_frame_inside(n as int, ch as int, k as int);
            }
            let m = frame_mean_ieee(data, k * ch, channels);
            let ghost prev = out@;
            out.push(m);
            k = k + 1;
            proof {
                lemma_pcm_push(prev, m);
                assert(target[k - 1] == pcm_of_ieee(mean(data@.subrange((k - 1) * ch, (k - 1 + 1) * ch))));
                assert(target.take(k as int) =~= target.take(k - 1).push(target[k - 1]));
                assert(pcm(out@) =~= before + target.take(k as int));
            }
        }
        proof {
            assert(target.take(frames as int) =~= target);
        }
    }
}

/// One invocation of the real-time callback on 32-bit IEEE-754 input:
/// appends the buffer's mono samples while recording and drops the buffer
/// otherwise.
pub fn capture_ieee(probe: Option<RecordingState>, data: &[u32], channels: u16, out: &mut Vec<i16>)
    ensures
        pcm(final(out)@) == pcm(old(out)@) + if persists(probe) {
            mono_ieee(data@, channels as nat)
        } else {
            Seq::<int>::empty()
        },
{
    if should_persist(probe) {
        append_mono_ieee(data, channels, out);
    } else {
        proof {
            assert(pcm(out@) =~= pcm(out@) + Seq::<int>::empty());
        }
    }
}

/// One invocation of the real-time callback on signed 16-bit input: appends
/// the buffer's mono samples to `out` while recording and drops the buffer
/// otherwise, so a paused capture keeps the device running without growing
/// the output.
pub fn capture_i16(probe: Option<RecordingState>, data: &[i16], channels: u16, out: &mut Vec<i16>)
    ensures
        pcm(final(out)@) == pcm(old(out)@) + captured(probe, pcm(data@), channels as nat),
{
    if should_persist(probe) {
        append_mono_i16(data, channels, out);
    } else {
        proof {
            assert(pcm(out@) =~= pcm(out@) + Seq::<int>::empty());
        }
    }
}

/// One invocation of the real-time callback on unsigned 16-bit input.
pub fn capture_u16(probe: Option<RecordingState>, data: &[u16], channels: u16, out: &mut Vec<i16>)
    ensures
        pcm(final(out)@) == pcm(old(out)@) + captured(probe, unbiased(data@), channels as nat),
{
    if should_persist(probe) {
        append_mono_u16(data, channels, out);
    } else {
        proof {
            assert(pcm(out@) =~= pcm(out@) + Seq::<int>::empty());
        }
    }
}

} // verus!
