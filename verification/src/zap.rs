//! Counting zaps in the asynchronous firmware.
use vstd::prelude::*;

verus! {

/// How long the contact may bounce after a zap, in milliseconds.
pub const DEBOUNCE_MS: u64 = 100;

/// What comes of a zap: a number is published, then there is a pause.
#[derive(Clone, Copy, Debug, PartialEq, Eq, Structural)]
pub struct ZapRound {
    /// The number that the other tasks are told.
    pub publish: u32,
    /// The pause, in milliseconds.
    pub sleep_ms: u64,
}

/// The number of zaps since boot.
#[derive(Clone, Copy, Debug, PartialEq, Eq, Structural)]
pub struct ZapCounter {
    /// The number of zaps since boot.
    pub count: u32,
}

impl ZapCounter {
    /// No zap has come yet.
    pub fn new() -> (r: ZapCounter)
        ensures
            r.count == 0,
    {
        ZapCounter { count: 0 }
    }

    /// Counts a zap, and says what comes of it: the other tasks are told the number of zaps so
    /// far, and the contact is given time to settle.
    pub fn record(&mut self) -> (r: ZapRound)
        requires
            old(self).count < u32::MAX,
        ensures
            final(self).count == old(self).count + 1,
            r.publish == final(self).count,
            r.sleep_ms == DEBOUNCE_MS,
            r.sleep_ms == 100,
    {
        self.count = self.count + 1;
        ZapRound { publish: self.count, sleep_ms: DEBOUNCE_MS }
    }
}

/// The seed of the network stack, made of two random numbers.
pub fn seed(high: u32, low: u32) -> (r: u64)
    ensures
        r == high * 0x1_0000_0000 + low,
{
    assert((high as u64) << 32u64 | low as u64 == (high as u64) * 0x1_0000_0000 + low as u64)
        by (bit_vector)
        requires
            high <= 0xffff_ffff,
            low <= 0xffff_ffff,
    ;
    (high as u64) << 32 | low as u64
}

} // verus!
