//! The noise-seeded generator: stretches analog noise into full-width values.
use vstd::prelude::*;

verus! {

/// `bits` rotated left by one place: the top bit comes round to the bottom.
pub open spec fn rotated_left_one(bits: usize) -> usize {
    let top = (usize::MAX as int + 1) / 2;
    ((bits as int % top) * 2 + bits as int / top) as usize
}

/// One mixing step: rotate the accumulator, then fold in the low byte of the
/// sample by exclusive or.
pub open spec fn mix(bits: usize, sample: u16) -> usize {
    rotated_left_one(bits) ^ ((sample & 255) as usize)
}

/// The accumulator after mixing in `samples` in order.
pub open spec fn mix_all(bits: usize, samples: Seq<u16>) -> usize
    decreases samples.len(),
{
    if samples.len() == 0 {
        bits
    } else {
        mix(mix_all(bits, samples.drop_last()), samples.last())
    }
}

/// Relies on `usize::rotate_left`: with a shift of one, every bit moves one
/// place up and the top bit becomes the bottom one.
#[verifier::external_body]
fn rotate_left_one(bits: usize) -> (r: usize)
    ensures
        r == rotated_left_one(bits),
{
    bits.rotate_left(1)
}

/// A non-cryptographic generator whose accumulator is re-mixed with samples
/// of a floating analog pin on every draw. A draw takes one sample for each
/// bit of the accumulator (`usize::BITS` samples), read by the caller.
pub struct XOrShiftPrng {
    bits: usize,
}

impl XOrShiftPrng {
    /// The current accumulator.
    pub closed spec fn state(&self) -> usize {
        self.bits
    }

    /// A generator seeded from zero with `samples`.
    pub fn new(samples: &[u16]) -> (r: Self)
        requires
            samples@.len() == usize::BITS,
        ensures
            r.state() == mix_all(0, samples@),
    {
        let mut rng = XOrShiftPrng { bits: 0 };
        rng.shuffle(samples);
        rng
    }

    /// Mixes `samples` into the accumulator, in order.
    fn shuffle(&mut self, samples: &[u16])
        ensures
            final(self).state() == mix_all(old(self).state(), samples@),
    {
        let mut i: usize = 0;
        while i < samples.len()
            invariant
                i <= samples@.len(),
                self.bits == mix_all(old(self).bits, samples@.take(i as int)),
            decreases samples@.len() - i,
        {
            assert(samples@.take(i + 1).drop_last() == samples@.take(i as int));
            self.bits = rotate_left_one(self.bits) ^ ((samples[i] & 255) as usize);
            i = i + 1;
        }
        assert(samples@.take(samples@.len() as int) == samples@);
    }

    /// Draws a number: mixes `samples` into the accumulator and returns it.
    pub fn generate(&mut self, samples: &[u16]) -> (r: usize)
        requires
            samples@.len() == usize::BITS,
        ensures
            r == mix_all(old(self).state(), samples@),
            final(self).state() == r,
    {
        self.shuffle(samples);
        self.bits
    }
}

} // verus!
