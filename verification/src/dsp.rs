//! Integer stages of the voice chain: the three-point [1 2 1]/4 smoothing
//! that suppresses ADPCM quantisation noise, and the clamp back into 16-bit
//! PCM.
use vstd::prelude::*;

verus! {

/// Weighted average `(a + 2b + c) / 4`, rounded down (an arithmetic shift
/// right by two).
pub open spec fn smooth3(a: i16, b: i16, c: i16) -> int {
    (a + 2 * b + c) / 4
}

/// The smoothed signal: inner samples are replaced by `smooth3` of their
/// neighbourhood; the first and the last sample (and inputs shorter than
/// three samples) are kept.
pub open spec fn spec_smooth(input: Seq<i16>) -> Seq<i32> {
    Seq::new(
        input.len(),
        |i: int|
            if input.len() >= 3 && 1 <= i < input.len() - 1 {
                smooth3(input[i - 1], input[i], input[i + 1]) as i32
            } else {
                input[i] as i32
            },
    )
}

fn floor_quarter(x: i32) -> (q: i32)
    requires
        -131072 <= x <= 131068,
    ensures
        q as int == x as int / 4,
{
    let shifted = (x + 131072) as u32;
    let q = (shifted / 4) as i32 - 32768;
    assert((x + 131072) / 4 - 32768 == x as int / 4) by (nonlinear_arith)
        requires
            -131072 <= x <= 131068,
    ;
    q
}

/// Three-point smoothing of decoded samples.
pub fn smooth(input: &[i16]) -> (filtered: Vec<i32>)
    ensures
        filtered@ == spec_smooth(input@),
{
    let n = input.len();
    let mut filtered: Vec<i32> = Vec::new();
    let mut i: usize = 0;
    while i < n
        invariant
            i <= n == input@.len(),
            filtered@.len() == i,
            forall|k: int| 0 <= k < i ==> #[trigger] filtered@[k] == spec_smooth(input@)[k],
        decreases n - i,
    {
        if n >= 3 && i >= 1 && i < n - 1 {
            let a = input[i - 1] as i32;
            let b = input[i] as i32;
            let c = input[i + 1] as i32;
            filtered.push(floor_quarter(a + 2 * b + c));
        } else {
            filtered.push(input[i] as i32);
        }
        i = i + 1;
    }
    assert(filtered@ =~= spec_smooth(input@));
    filtered
}

pub open spec fn spec_clamp_i16(sample: int) -> int {
    if sample < -32768 {
        -32768
    } else if sample > 32767 {
        32767
    } else {
        sample
    }
}

/// Clamps a sample into the 16-bit PCM range.
pub fn clamp_to_i16(sample: i32) -> (out: i16)
    ensures
        out as int == spec_clamp_i16(sample as int),
{
    if sample < -32768 {
        -32768
    } else if sample > 32767 {
        32767
    } else {
        sample as i16
    }
}

/// Smoothing never leaves the range of its input samples' type.
pub proof fn lemma_smooth_stays_in_range(input: Seq<i16>, i: int)
    requires
        0 <= i < input.len(),
    ensures
        -32768 <= spec_smooth(input)[i] <= 32767,
{
    if input.len() >= 3 && 1 <= i < input.len() - 1 {
        let a = input[i - 1];
        let b = input[i];
        let c = input[i + 1];
        assert(-32768 <= smooth3(a, b, c) <= 32767) by (nonlinear_arith)
            requires
                -32768 <= a <= 32767,
                -32768 <= b <= 32767,
                -32768 <= c <= 32767,
        ;
    }
}

} // verus!
