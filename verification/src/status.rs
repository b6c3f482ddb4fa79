//! Reading the status register: the three bits the driver looks at.

use vstd::prelude::*;

verus! {

/// Bit 0: the last command ended in an error.
pub const STATUS_ERR: u8 = 0x01;

/// Bit 3: the device is ready to hand over or take data.
pub const STATUS_DRQ: u8 = 0x08;

/// Bit 7: the device is busy.
pub const STATUS_BSY: u8 = 0x80;

/// What one look at the status register tells a loop that waits for data.
#[derive(Clone, Copy, Debug, PartialEq, Eq, Structural)]
pub enum Readiness {
    /// The error bit is set, whatever else is.
    Error,
    /// The data-request bit is set and the error bit is not.
    Ready,
    /// Neither bit is set.
    Pending,
}

pub open spec fn has_error(status: u8) -> bool {
    status & STATUS_ERR != 0
}

pub open spec fn has_data_request(status: u8) -> bool {
    status & STATUS_DRQ != 0
}

pub open spec fn is_busy(status: u8) -> bool {
    status & STATUS_BSY != 0
}

/// The error bit is looked at first: where both bits are set the status
/// reads as an error.
pub open spec fn readiness_spec(status: u8) -> Readiness {
    if has_error(status) {
        Readiness::Error
    } else if has_data_request(status) {
        Readiness::Ready
    } else {
        Readiness::Pending
    }
}

/// One value read from the status register.
#[derive(Clone, Copy, Debug, PartialEq, Eq, Structural)]
pub struct Status {
    pub bits: u8,
}

impl Status {
    pub fn new(bits: u8) -> (s: Status)
        ensures
            s.bits == bits,
    {
        Status { bits }
    }

    /// Whether the error bit is set.
    pub fn error(&self) -> (r: bool)
        ensures
            r == has_error(self.bits),
            r == (self.bits % 2 == 1),
    {
        let bits: u8 = self.bits;
        assert((bits & 0x01 != 0) == (bits % 2 == 1)) by (bit_vector);
        bits & STATUS_ERR != 0
    }

    /// Whether the data-request bit is set.
    pub fn data_request(&self) -> (r: bool)
        ensures
            r == has_data_request(self.bits),
            r == ((self.bits / 8) % 2 == 1),
    {
        let bits: u8 = self.bits;
        assert((bits & 0x08 != 0) == ((bits / 8) % 2 == 1)) by (bit_vector);
        bits & STATUS_DRQ != 0
    }

    /// Whether the busy bit is set.
    pub fn busy(&self) -> (r: bool)
        ensures
            r == is_busy(self.bits),
            r == (self.bits >= 0x80),
    {
        let bits: u8 = self.bits;
        assert((bits & 0x80 != 0) == (bits >= 0x80)) by (bit_vector);
        bits & STATUS_BSY != 0
    }

    /// What a loop that waits for data does with this status.
    pub fn readiness(&self) -> (r: Readiness)
        ensures
            r == readiness_spec(self.bits),
    {
        if self.error() {
            Readiness::Error
        } else if self.data_request() {
            Readiness::Ready
        } else {
            Readiness::Pending
        }
    }
}

} // verus!
