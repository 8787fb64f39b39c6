//! Delay lengths of the Freeverb-style reverberator: eight comb filters and
//! four all-pass filters per channel, tuned at 44.1 kHz and rescaled to the
//! engine's sample rate, the right channel offset by a fixed spread.

use vstd::prelude::*;
use crate::SAMPLE_RATE;

verus! {

/// The rate at which the tuning table is given.
pub const REFERENCE_RATE: u64 = 44100;

/// Extra slots of every right-channel delay over its left partner.
pub const STEREO_SPREAD: usize = 23;

/// Number of parallel comb pairs.
pub const NUM_COMBS: usize = 8;

/// Number of cascaded all-pass pairs.
pub const NUM_ALLPASSES: usize = 4;

/// Left-channel comb lengths at the reference rate.
pub open spec fn comb_tuning(i: int) -> usize {
    if i == 0 {
        1116
    } else if i == 1 {
        1188
    } else if i == 2 {
        1277
    } else if i == 3 {
        1356
    } else if i == 4 {
        1422
    } else if i == 5 {
        1491
    } else if i == 6 {
        1557
    } else {
        1617
    }
}

/// Left-channel all-pass lengths at the reference rate.
pub open spec fn allpass_tuning(i: int) -> usize {
    if i == 0 {
        225
    } else if i == 1 {
        341
    } else if i == 2 {
        441
    } else {
        556
    }
}

/// A length at the reference rate rescaled to the engine's rate, rounded down.
pub open spec fn scaled_length(length: int) -> int {
    length * SAMPLE_RATE as int / REFERENCE_RATE as int
}

/// The (left, right) delay lengths of a filter pair tuned at `length`.
pub open spec fn pair_lengths(length: int) -> (int, int) {
    (scaled_length(length), scaled_length(length + STEREO_SPREAD as int))
}

/// Rescales a delay length given at 44.1 kHz to the engine's sample rate,
/// rounding down.
pub fn convert_length(length: usize) -> (r: usize)
    requires
        length as int * SAMPLE_RATE as int <= usize::MAX as int,
    ensures
        r as int == scaled_length(length as int),
{
    let scaled: u64 = (length as u64) * SAMPLE_RATE / REFERENCE_RATE;
    assert(scaled as int <= length as int * 48000) by (nonlinear_arith)
        requires
            scaled as int == (length as int) * 48000 / 44100,
            length as int >= 0,
    ;
    scaled as usize
}

fn comb_tuning_at(i: usize) -> (r: usize)
    requires
        i < NUM_COMBS,
    ensures
        r == comb_tuning(i as int),
{
    if i == 0 {
        1116
    } else if i == 1 {
        1188
    } else if i == 2 {
        1277
    } else if i == 3 {
        1356
    } else if i == 4 {
        1422
    } else if i == 5 {
        1491
    } else if i == 6 {
        1557
    } else {
        1617
    }
}

fn allpass_tuning_at(i: usize) -> (r: usize)
    requires
        i < NUM_ALLPASSES,
    ensures
        r == allpass_tuning(i as int),
{
    if i == 0 {
        225
    } else if i == 1 {
        341
    } else if i == 2 {
        441
    } else {
        556
    }
}

/// The (left, right) lengths of the eight comb filters at the engine's rate.
pub fn comb_lengths() -> (r: Vec<(usize, usize)>)
    ensures
        r@.len() == NUM_COMBS,
        forall|i: int|
            0 <= i < NUM_COMBS ==> (r@[i].0 as int, r@[i].1 as int) == pair_lengths(
                comb_tuning(i) as int,
            ),
{
    let mut r: Vec<(usize, usize)> = Vec::new();
    let mut i: usize = 0;
    while i < NUM_COMBS
        invariant
            i <= NUM_COMBS,
            r@.len() == i,
            forall|j: int|
                0 <= j < i ==> (r@[j].0 as int, r@[j].1 as int) == pair_lengths(
                    comb_tuning(j) as int,
                ),
        decreases NUM_COMBS - i,
    {
        let t = comb_tuning_at(i);
        r.push((convert_length(t), convert_length(t + STEREO_SPREAD)));
        i = i + 1;
    }
    r
}

/// The (left, right) lengths of the four all-pass filters at the engine's rate.
pub fn allpass_lengths() -> (r: Vec<(usize, usize)>)
    ensures
        r@.len() == NUM_ALLPASSES,
        forall|i: int|
            0 <= i < NUM_ALLPASSES ==> (r@[i].0 as int, r@[i].1 as int) == pair_lengths(
                allpass_tuning(i) as int,
            ),
{
    let mut r: Vec<(usize, usize)> = Vec::new();
    let mut i: usize = 0;
    while i < NUM_ALLPASSES
        invariant
            i <= NUM_ALLPASSES,
            r@.len() == i,
            forall|j: int|
                0 <= j < i ==> (r@[j].0 as int, r@[j].1 as int) == pair_lengths(
                    allpass_tuning(j) as int,
                ),
        decreases NUM_ALLPASSES - i,
    {
        let t = allpass_tuning_at(i);
        r.push((convert_length(t), convert_length(t + STEREO_SPREAD)));
        i = i + 1;
    }
    r
}

} // verus!
