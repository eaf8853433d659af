//! The arithmetic of integer samples: frames, their means, and the range
//! that the means stay in.

use vstd::prelude::*;

verus! {

/// Bias that separates an unsigned 16-bit sample from its signed value.
pub const U16_MIDPOINT: i32 = 32768;

/// The signed values of a buffer of 16-bit PCM samples.
pub open spec fn pcm(samples: Seq<i16>) -> Seq<int> {
    samples.map_values(|s: i16| s as int)
}

/// The signed values of a buffer of unsigned 16-bit samples: each sample
/// less the midpoint bias.
pub open spec fn unbiased(samples: Seq<u16>) -> Seq<int> {
    samples.map_values(|s: u16| s as int - 32768)
}

/// Bias that separates an unsigned 8-bit sample from its signed value.
pub const U8_MIDPOINT: i32 = 128;

/// Factor by which an 8-bit value is widened to 16 bits: a shift to the
/// left by the eight bits that are added.
pub const WIDENING: i32 = 256;

/// The signed values of a buffer of signed 8-bit samples.
pub open spec fn narrow(samples: Seq<i8>) -> Seq<int> {
    samples.map_values(|s: i8| s as int)
}

/// The signed values of a buffer of unsigned 8-bit samples: each sample
/// less the midpoint bias.
pub open spec fn unbiased_narrow(samples: Seq<u8>) -> Seq<int> {
    samples.map_values(|s: u8| s as int - 128)
}

/// Values of 8 bits widened to 16: each shifted to the left by eight bits.
pub open spec fn widened(samples: Seq<int>) -> Seq<int> {
    samples.map_values(|s: int| s * 256)
}

/// Quotient rounded toward zero, for a positive divisor.
pub open spec fn div_toward_zero(a: int, b: int) -> int
    recommends
        b > 0,
{
    if a >= 0 {
        a / b
    } else {
        -((-a) / b)
    }
}

/// Sum of the samples of one frame.
pub open spec fn frame_sum(frame: Seq<int>) -> int
    decreases frame.len(),
{
    if frame.len() == 0 {
        0
    } else {
        frame_sum(frame.drop_last()) + frame.last()
    }
}

/// Arithmetic mean of one frame, rounded toward zero.
pub open spec fn frame_mean(frame: Seq<int>) -> int
    recommends
        frame.len() > 0,
{
    div_toward_zero(frame_sum(frame), frame.len() as int)
}

/// The `k`-th frame of an interleaved buffer.
pub open spec fn frame_at(samples: Seq<int>, channels: nat, k: int) -> Seq<int> {
    samples.subrange(k * channels, (k + 1) * channels)
}

/// Number of whole frames in an interleaved buffer; a trailing partial frame
/// is not counted.
pub open spec fn frame_count(len: nat, channels: nat) -> nat
    recommends
        channels > 0,
{
    len / channels
}

/// Mean of every whole frame of an interleaved multi-channel buffer.
pub open spec fn downmix(samples: Seq<int>, channels: nat) -> Seq<int>
    recommends
        channels > 1,
{
    Seq::new(frame_count(samples.len(), channels), |k: int| frame_mean(frame_at(samples, channels, k)))
}

/// The mono samples that a buffer contributes to the output: the buffer
/// itself for at most one input channel, else one mean per whole frame.
pub open spec fn mono(samples: Seq<int>, channels: nat) -> Seq<int> {
    if channels <= 1 {
        samples
    } else {
        downmix(samples, channels)
    }
}

/// Whether every value fits a signed 16-bit sample.
pub open spec fn all_in_i16(samples: Seq<int>) -> bool {
    forall|i: int| 0 <= i < samples.len() ==> -32768 <= #[trigger] samples[i] <= 32767
}

/// The sum of a frame of 16-bit values is bounded by its length times the
/// 16-bit range.
pub proof fn lemma_frame_sum_bounds(frame: Seq<int>)
    requires
        all_in_i16(frame),
    ensures
        -32768 * frame.len() <= frame_sum(frame) <= 32767 * frame.len(),
    decreases frame.len(),
{
    if frame.len() > 0 {
        let head = frame.drop_last();
        assert forall|i: int| 0 <= i < head.len() implies -32768 <= #[trigger] head[i] <= 32767 by {
            assert(head[i] == frame[i]);
        }
        lemma_frame_sum_bounds(head);
    }
}

/// Dividing toward zero keeps a quotient inside any symmetric-enough bounds
/// that the dividend satisfies per unit of divisor.
pub proof fn lemma_div_toward_zero_bounds(a: int, b: int, lo: int, hi: int)
    requires
        b > 0,
        lo <= 0 <= hi,
        lo * b <= a <= hi * b,
    ensures
        lo <= div_toward_zero(a, b) <= hi,
{
    if a >= 0 {
        assert(a / b <= hi) by (nonlinear_arith)
            requires
                b > 0,
                0 <= a <= hi * b,
        ;
        assert(0 <= a / b) by (nonlinear_arith)
            requires
                b > 0,
                0 <= a,
        ;
    } else {
        assert((-lo) * b == -(lo * b)) by (nonlinear_arith);
        assert((-a) / b <= -lo) by (nonlinear_arith)
            requires
                b > 0,
                0 <= -a <= (-lo) * b,
        ;
        assert(0 <= (-a) / b) by (nonlinear_arith)
            requires
                b > 0,
                0 <= -a,
        ;
    }
}

/// The mean of a non-empty frame of 16-bit values is itself a 16-bit value:
/// averaging never leaves the output range.
pub proof fn lemma_frame_mean_in_range(frame: Seq<int>)
    requires
        frame.len() > 0,
        all_in_i16(frame),
    ensures
        -32768 <= frame_mean(frame) <= 32767,
{
    lemma_frame_sum_bounds(frame);
    lemma_div_toward_zero_bounds(frame_sum(frame), frame.len() as int, -32768, 32767);
}

/// A frame whose samples are all equal has that sample as its mean.
pub proof fn lemma_frame_mean_of_constant(frame: Seq<int>, v: int)
    requires
        frame.len() > 0,
        forall|i: int| 0 <= i < frame.len() ==> frame[i] == v,
    ensures
        frame_sum(frame) == v * frame.len(),
        frame_mean(frame) == v,
    decreases frame.len(),
{
    let n = frame.len() as int;
    if n == 1 {
        assert(frame.drop_last().len() == 0);
        assert(frame_sum(frame.drop_last()) == 0);
    } else {
        lemma_frame_mean_of_constant(frame.drop_last(), v);
        assert(frame_sum(frame) == v * (n - 1) + v);
        assert(v * (n - 1) + v == v * n) by (nonlinear_arith);
    }
    if v >= 0 {
        assert((v * n) / n == v) by (nonlinear_arith)
            requires
                n > 0,
        ;
    } else {
        assert(-(v * n) == (-v) * n) by (nonlinear_arith);
        assert(((-v) * n) / n == -v) by (nonlinear_arith)
            requires
                n > 0,
        ;
        assert(v * n < 0) by (nonlinear_arith)
            requires
                v < 0,
                n > 0,
        ;
    }
}

/// A stereo frame whose channels cancel has mean zero: the downmix is the
/// mean of the channels, not either channel alone.
pub proof fn lemma_opposite_channels_cancel(left: int, right: int)
    requires
        left + right == 0,
    ensures
        frame_mean(seq![left, right]) == 0,
{
    let f = seq![left, right];
    assert(f.drop_last() =~= seq![left]);
    assert(seq![left].drop_last() =~= Seq::<int>::empty());
    assert(frame_sum(Seq::<int>::empty()) == 0);
    assert(frame_sum(seq![left]) == left);
    assert(frame_sum(f) == left + right);
}

} // verus!
