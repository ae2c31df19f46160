//! The profile of the heightened mode around the market open.
//!
//! Factors are 32-bit floating-point numbers kept as their bit patterns; the
//! only thing asked of one is whether it is greater than zero.
use vstd::prelude::*;

verus! {

/// The pattern of one, the scan multiplier outside the mode.
pub const NORMAL_SCAN_MULTIPLIER: u32 = 0x3f80_0000;

/// The pattern of zero, the confidence floor outside the mode.
pub const NORMAL_MIN_CONFIDENCE: u32 = 0;

/// The pattern of infinity, the largest that stands for a number.
pub const INFINITY_BITS: u32 = 0x7f80_0000;

/// Whether a pattern stands for a number greater than zero: its sign is plus and
/// it is neither zero nor undefined.
pub open spec fn above_zero(bits: u32) -> bool {
    0 < bits <= INFINITY_BITS
}

/// Whether the mode is on, and with which factors.
#[derive(Clone, Copy, Debug, PartialEq, Eq, Structural)]
pub struct WarModeProfile {
    active: bool,
    scan_multiplier_bits: u32,
    min_confidence_bits: u32,
}

impl WarModeProfile {
    /// Whether the mode is on.
    pub closed spec fn on(self) -> bool {
        self.active
    }

    /// The scan multiplier in force.
    pub closed spec fn multiplier(self) -> u32 {
        self.scan_multiplier_bits
    }

    /// The confidence floor in force.
    pub closed spec fn floor(self) -> u32 {
        self.min_confidence_bits
    }

    /// The factor by which detectors grow more sensitive: the multiplier while
    /// the mode is on and it is greater than zero, else one.
    pub open spec fn sensitivity(self) -> u32 {
        if self.on() && above_zero(self.multiplier()) {
            self.multiplier()
        } else {
            NORMAL_SCAN_MULTIPLIER
        }
    }

    /// The profile outside the mode.
    pub open spec fn is_normal(self) -> bool {
        &&& !self.on()
        &&& self.multiplier() == NORMAL_SCAN_MULTIPLIER
        &&& self.floor() == NORMAL_MIN_CONFIDENCE
    }

    pub fn inactive() -> (p: WarModeProfile)
        ensures
            p.is_normal(),
    {
        WarModeProfile {
            active: false,
            scan_multiplier_bits: NORMAL_SCAN_MULTIPLIER,
            min_confidence_bits: NORMAL_MIN_CONFIDENCE,
        }
    }

    /// Turn the mode on.
    pub fn activate(&mut self, scan_multiplier_bits: u32, min_confidence_bits: u32)
        ensures
            final(self).on(),
            final(self).multiplier() == scan_multiplier_bits,
            final(self).floor() == min_confidence_bits,
    {
        self.scan_multiplier_bits = scan_multiplier_bits;
        self.min_confidence_bits = min_confidence_bits;
        self.active = true;
    }

    /// Turn the mode off and forget its factors.
    pub fn deactivate(&mut self)
        ensures
            final(self).is_normal(),
    {
        self.active = false;
        self.scan_multiplier_bits = NORMAL_SCAN_MULTIPLIER;
        self.min_confidence_bits = NORMAL_MIN_CONFIDENCE;
    }

    pub fn is_active(&self) -> (active: bool)
        ensures
            active == self.on(),
    {
        self.active
    }

    pub fn scan_multiplier(&self) -> (bits: u32)
        ensures
            bits == self.multiplier(),
    {
        self.scan_multiplier_bits
    }

    pub fn min_confidence(&self) -> (bits: u32)
        ensures
            bits == self.floor(),
    {
        self.min_confidence_bits
    }

    pub fn sensitivity_factor(&self) -> (bits: u32)
        ensures
            bits == self.sensitivity(),
    {
        if self.active {
            let m: u32 = self.scan_multiplier_bits;
            if m > 0 && m <= INFINITY_BITS {
                m
            } else {
                NORMAL_SCAN_MULTIPLIER
            }
        } else {
            NORMAL_SCAN_MULTIPLIER
        }
    }
}

impl Default for WarModeProfile {
    fn default() -> (p: WarModeProfile)
        ensures
            p.is_normal(),
    {
        WarModeProfile::inactive()
    }
}

/// A detector never divides by a factor of zero or less.
pub proof fn law_sensitivity_is_above_zero(p: WarModeProfile)
    ensures
        above_zero(p.sensitivity()),
{
}

} // verus!
