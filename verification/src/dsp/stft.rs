//! Frame arithmetic of the short-time Fourier transform.

use crate::profile::is_pow2;
use vstd::prelude::*;

verus! {

/// FFT size and hop of an STFT.
#[derive(Debug, Clone, Copy, PartialEq, Eq, Structural)]
pub struct StftConfig {
    pub fft_size: usize,
    pub hop: usize,
}

/// The number of whole frames that fit a signal.
pub open spec fn num_frames_spec(fft_size: nat, hop: nat, signal_len: nat) -> nat {
    if signal_len < fft_size || hop == 0 {
        0
    } else {
        (1 + (signal_len - fft_size) / (hop as int)) as nat
    }
}

fn power_of_two(n: usize) -> (r: bool)
    ensures
        r == is_pow2(n as nat),
{
    let mut m = n;
    while m > 1 && m % 2 == 0
        invariant
            is_pow2(n as nat) == is_pow2(m as nat),
        decreases m,
    {
        m = m / 2;
    }
    m == 1
}

impl StftConfig {
    /// A configuration whose FFT size is a power of two and whose hop
    /// divides it.
    pub fn new(fft_size: usize, hop: usize) -> (r: Result<StftConfig, String>)
        ensures
            r matches Ok(c) ==> c.fft_size == fft_size && c.hop == hop,
            r is Ok <==> is_pow2(fft_size as nat) && hop != 0 && fft_size % hop == 0,
            r matches Err(e) ==> e@ == (if !is_pow2(fft_size as nat) {
                "fft_size must be power of two"@
            } else {
                "hop must divide fft_size"@
            }),
    {
        if !power_of_two(fft_size) {
            return Err(String::from_str("fft_size must be power of two"));
        }
        if hop == 0 || fft_size % hop != 0 {
            return Err(String::from_str("hop must divide fft_size"));
        }
        Ok(StftConfig { fft_size, hop })
    }

    /// Bins of a one-sided spectrum.
    pub fn spectrum_len(&self) -> (r: usize)
        ensures
            r == self.fft_size / 2 + 1,
    {
        self.fft_size / 2 + 1
    }

    /// Whole frames of a signal of `signal_len` samples.
    pub fn num_frames(&self, signal_len: usize) -> (r: usize)
        requires
            self.hop > 0,
            self.fft_size > 0,
        ensures
            r == num_frames_spec(self.fft_size as nat, self.hop as nat, signal_len as nat),
    {
        if signal_len < self.fft_size {
            return 0;
        }
        1 + (signal_len - self.fft_size) / self.hop
    }
}

} // verus!
