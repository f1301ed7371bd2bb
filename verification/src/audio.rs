//! Effects on sound: filters that are run over the samples of a clip while
//! it plays.
use vstd::prelude::*;
use crate::fixed::clamp;
use crate::fixed::ONE;
use crate::fixed::trunc_div;

verus! {

/// A filter over sound samples. The samples come interleaved: left, right,
/// left, right.
pub trait StereoFilter: Send {
    fn filter(&mut self, samples: &mut [i16]);
}

/// Leaves the sound as it is.
pub struct NoEffect {}

impl StereoFilter for NoEffect {
    fn filter(&mut self, samples: &mut [i16])
        ensures
            final(samples)@ == old(samples)@,
    {
    }
}

/// Turns the volume up or down.
pub struct VolumeEffect {
    /// The factor every sample is multiplied by.
    pub vol: i64,
}

/// A sample at volume `vol`: the product, rounded toward zero, as far as
/// a sample can go.
pub open spec fn at_volume(sample: i16, vol: i64) -> i16 {
    clamp(trunc_div(sample * vol, ONE as int), i16::MIN as int, i16::MAX as int) as i16
}

fn scale_sample(sample: i16, vol: i64) -> (r: i16)
    ensures
        r == at_volume(sample, vol),
{
    assert(-0x8000 * 0x8000_0000_0000_0000 <= sample * vol <= 0x8000 * 0x8000_0000_0000_0000)
        by (nonlinear_arith)
        requires
            -0x8000 <= sample <= 0x8000,
            -0x8000_0000_0000_0000 <= vol <= 0x8000_0000_0000_0000,
    ;
    let scaled: i128 = ((sample as i128) * (vol as i128)) / (ONE as i128);
    if scaled < i16::MIN as i128 {
        i16::MIN
    } else if scaled > i16::MAX as i128 {
        i16::MAX
    } else {
        scaled as i16
    }
}

impl StereoFilter for VolumeEffect {
    fn filter(&mut self, samples: &mut [i16])
        ensures
            final(self).vol == old(self).vol,
            final(samples)@.len() == old(samples)@.len(),
            forall|i: int|
                0 <= i < old(samples)@.len() ==> #[trigger] final(samples)@[i] == at_volume(
                    old(samples)@[i],
                    old(self).vol,
                ),
    {
        let n: usize = samples.len();
        let mut i: usize = 0;
        while i < n
            invariant
                i <= n,
                n == samples@.len(),
                n == old(samples)@.len(),
                self.vol == old(self).vol,
                forall|j: int|
                    0 <= j < i ==> #[trigger] samples@[j] == at_volume(old(samples)@[j], self.vol),
                forall|j: int| i <= j < n ==> #[trigger] samples@[j] == old(samples)@[j],
            decreases n - i,
        {
            let s: i16 = samples[i];
            samples[i] = scale_sample(s, self.vol);
            i += 1;
        }
    }
}

} // verus!
