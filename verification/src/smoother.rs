//! The sample clock of the engine's parameter smoothers.
//!
//! A smoother ramps a parameter linearly to a new target over a fixed number
//! of base-rate samples, so block-rate setter calls do not zipper. This
//! clock decides, sample by sample, whether the value holds, takes one more
//! step of the ramp, or arrives: on the last sample of a ramp the value is
//! set to the target itself, so rounding never leaves it short.

use vstd::prelude::*;

verus! {

/// What the smoothed value does on one sample.
#[derive(Clone, Copy, Debug, PartialEq, Eq, Structural)]
pub enum RampTick {
    /// No ramp in flight: the value stays.
    Hold,
    /// The value moves one step toward the target.
    Step,
    /// Last sample of the ramp: the value becomes the target.
    Arrive,
}

/// Samples left of the ramp in flight (0 when none), and the ramp length.
pub struct RampClock {
    samples_remaining: u32,
    ramp_samples: u32,
}

pub struct RampClockView {
    pub samples_remaining: u32,
    pub ramp_samples: u32,
}

impl View for RampClock {
    type V = RampClockView;

    closed spec fn view(&self) -> RampClockView {
        RampClockView { samples_remaining: self.samples_remaining, ramp_samples: self.ramp_samples }
    }
}

/// What a sample does with `remaining` samples of ramp left.
pub open spec fn tick_of(remaining: u32) -> RampTick {
    if remaining == 0 {
        RampTick::Hold
    } else if remaining == 1 {
        RampTick::Arrive
    } else {
        RampTick::Step
    }
}

/// Samples of ramp left after `k` samples, starting from `remaining`.
pub open spec fn remaining_after(remaining: u32, k: nat) -> u32 {
    if k >= remaining { 0 } else { (remaining - k) as u32 }
}

impl RampClock {
    /// A clock with no ramp in flight and ramps of `ramp_samples` samples.
    pub fn new(ramp_samples: u32) -> (c: Self)
        ensures
            c@.samples_remaining == 0,
            c@.ramp_samples == ramp_samples,
    {
        RampClock { samples_remaining: 0, ramp_samples }
    }

    /// Starts a ramp toward a new target. With zero-length ramps the value
    /// jumps to the target at once; returns whether a ramp was started.
    pub fn start(&mut self) -> (ramping: bool)
        ensures
            ramping == (old(self)@.ramp_samples != 0),
            final(self)@.samples_remaining == old(self)@.ramp_samples,
            final(self)@.ramp_samples == old(self)@.ramp_samples,
    {
        if self.ramp_samples == 0 {
            self.samples_remaining = 0;
            return false;
        }
        self.samples_remaining = self.ramp_samples;
        true
    }

    /// Drops any ramp in flight (the value snaps to its target).
    pub fn stop(&mut self)
        ensures
            final(self)@.samples_remaining == 0,
            final(self)@.ramp_samples == old(self)@.ramp_samples,
    {
        self.samples_remaining = 0;
    }

    /// Changes the ramp length. A ramp in flight restarts over the new
    /// length from where the value is; returns whether one was in flight.
    pub fn set_ramp_samples(&mut self, ramp_samples: u32) -> (restarted: bool)
        ensures
            restarted == (old(self)@.samples_remaining > 0),
            final(self)@.ramp_samples == ramp_samples,
            final(self)@.samples_remaining == if restarted { ramp_samples } else { 0 },
    {
        self.ramp_samples = ramp_samples;
        if self.samples_remaining > 0 {
            self.samples_remaining = ramp_samples;
            true
        } else {
            false
        }
    }

    /// Advances the clock by one sample.
    pub fn tick(&mut self) -> (t: RampTick)
        ensures
            t == tick_of(old(self)@.samples_remaining),
            old(self)@.samples_remaining == 0 ==> t == RampTick::Hold && final(self)@.samples_remaining == 0,
            old(self)@.samples_remaining == 1 ==> t == RampTick::Arrive && final(self)@.samples_remaining == 0,
            old(self)@.samples_remaining > 1 ==> t == RampTick::Step
                && final(self)@.samples_remaining == old(self)@.samples_remaining - 1,
            final(self)@.samples_remaining == remaining_after(old(self)@.samples_remaining, 1),
            final(self)@.ramp_samples == old(self)@.ramp_samples,
    {
        if self.samples_remaining > 0 {
            self.samples_remaining = self.samples_remaining - 1;
            if self.samples_remaining == 0 {
                RampTick::Arrive
            } else {
                RampTick::Step
            }
        } else {
            RampTick::Hold
        }
    }

    /// Length of a ramp, in samples.
    pub fn ramp_samples(&self) -> (n: u32)
        ensures
            n == self@.ramp_samples,
    {
        self.ramp_samples
    }

    /// Samples left of the ramp in flight.
    pub fn samples_remaining(&self) -> (n: u32)
        ensures
            n == self@.samples_remaining,
    {
        self.samples_remaining
    }
}

/// A ramp with `r` samples left steps on each of its next `r - 1` samples,
/// arrives on the `r`-th, and holds from then on: sample `k + 1` (counting
/// from one) does `tick_of(remaining_after(r, k))`.
pub proof fn lemma_ramp_arrives_once(r: u32, k: nat)
    ensures
        remaining_after(remaining_after(r, k), 1) == remaining_after(r, k + 1),
        k + 1 < r ==> tick_of(remaining_after(r, k)) == RampTick::Step,
        k + 1 == r ==> tick_of(remaining_after(r, k)) == RampTick::Arrive,
        k >= r ==> tick_of(remaining_after(r, k)) == RampTick::Hold,
{
}

} // verus!
