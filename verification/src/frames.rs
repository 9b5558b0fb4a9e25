//! Interleaved audio buffers: frame `f`, channel `c` sits at index
//! `f * channels + c`. The engine renders one channel, which the device
//! callback spreads over every channel of the device.

use vstd::prelude::*;
use vstd::arithmetic::div_mod::lemma_fundamental_div_mod_converse;

verus! {

/// Whole frames an interleaved buffer of `len` samples holds; a channel
/// count of 0 is read as 1.
pub open spec fn frames_in(len: nat, channels: nat) -> nat {
    if channels == 0 {
        len
    } else {
        len / channels
    }
}

/// How many whole frames an interleaved buffer of `len` samples holds.
pub fn frame_count(len: usize, channels: usize) -> (f: usize)
    ensures
        f == frames_in(len as nat, channels as nat),
        f * (if channels == 0 { 1 } else { channels as int }) <= len,
{
    let ch = if channels == 0 {
        1
    } else {
        channels
    };
    let f = len / ch;
    proof {
        vstd::arithmetic::div_mod::lemma_fundamental_div_mod(len as int, ch as int);
        assert(f * ch == ch * f) by (nonlinear_arith);
    }
    f
}

/// Spread the first `n` samples of `mono` over `channels` interleaved
/// channels of `out`, sample `f` filling frame `f`, and fill the rest of
/// `out` with `silence`.
pub fn fan_out<T: Copy>(mono: &[T], n: usize, channels: usize, silence: T, out: &mut [T])
    requires
        n <= mono@.len(),
        channels >= 1,
        n * channels <= old(out)@.len(),
    ensures
        final(out)@.len() == old(out)@.len(),
        forall|k: int|
            0 <= k < n * channels ==> #[trigger] final(out)@[k] == mono@[k / channels as int],
        forall|k: int| n * channels <= k < old(out)@.len() ==> #[trigger] final(out)@[k] == silence,
{
    let len = out.len();
    let total = n * channels;
    let mut k: usize = 0;
    let mut f: usize = 0;
    let mut c: usize = 0;
    while k < len
        invariant
            len == out@.len(),
            total == n * channels,
            total <= len,
            n <= mono@.len(),
            channels >= 1,
            k <= len,
            k < total ==> k == f * channels + c && c < channels && f < n,
            forall|j: int| 0 <= j < k && j < total ==> #[trigger] out@[j] == mono@[j / channels as int],
            forall|j: int| total <= j < k ==> #[trigger] out@[j] == silence,
        decreases len - k,
    {
        if k < total {
            proof {
                lemma_fundamental_div_mod_converse(k as int, channels as int, f as int, c as int);
            }
            out[k] = mono[f];
            let ghost f0 = f;
            let ghost c0 = c;
            c = c + 1;
            if c == channels {
                c = 0;
                f = f + 1;
            }
            proof {
                if c == 0 {
                    assert(f * channels == f0 * channels + channels) by (nonlinear_arith)
                        requires
                            f == f0 + 1,
                    ;
                }
                assert(k + 1 == f * channels + c);
                if k + 1 < total {
                    assert(f < n) by (nonlinear_arith)
                        requires
                            k + 1 == f * channels + c,
                            k + 1 < n * channels,
                            c >= 0,
                            channels >= 1,
                    ;
                }
            }
        } else {
            out[k] = silence;
        }
        k = k + 1;
    }
}

} // verus!
