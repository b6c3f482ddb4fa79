//! Drive selection and the encoding of a 28-bit logical block address
//! into the bytes written to the device.

use vstd::prelude::*;

verus! {

/// The first address that no longer fits in 28 bits.
pub const LBA_LIMIT: u32 = 0x1000_0000;

/// Which of the two drives of a channel an operation addresses.
#[derive(Clone, Copy, Debug, PartialEq, Eq, Structural)]
pub enum Drive {
    Primary,
    Secondary,
}

/// The drive-select byte used while identifying a drive: no addressing
/// bits are set.
pub open spec fn identify_select_spec(drive: Drive) -> u8 {
    match drive {
        Drive::Primary => 0xA0,
        Drive::Secondary => 0xB0,
    }
}

/// The upper half of the drive-select byte in LBA mode.
pub open spec fn lba_select_base(drive: Drive) -> u8 {
    match drive {
        Drive::Primary => 0xE0,
        Drive::Secondary => 0xF0,
    }
}

/// The drive-select byte of a sector transfer: the drive and addressing
/// mode in the upper half, bits 24 to 27 of the address in the lower half.
pub open spec fn lba_select_spec(drive: Drive, lba: u32) -> u8 {
    lba_select_base(drive) | (((lba >> 24) & 0x0F) as u8)
}

/// Bits 0 to 7 of the address.
pub open spec fn lba_low_spec(lba: u32) -> u8 {
    (lba & 0xFF) as u8
}

/// Bits 8 to 15 of the address.
pub open spec fn lba_mid_spec(lba: u32) -> u8 {
    ((lba >> 8) & 0xFF) as u8
}

/// Bits 16 to 23 of the address.
pub open spec fn lba_high_spec(lba: u32) -> u8 {
    ((lba >> 16) & 0xFF) as u8
}

impl Drive {
    /// The first drive of the channel for `true`, the second for `false`.
    pub fn from_flag(first: bool) -> (d: Drive)
        ensures
            d == (if first { Drive::Primary } else { Drive::Secondary }),
    {
        if first {
            Drive::Primary
        } else {
            Drive::Secondary
        }
    }

    /// The drive-select byte for identification.
    pub fn identify_select(self) -> (r: u8)
        ensures
            r == identify_select_spec(self),
    {
        match self {
            Drive::Primary => 0xA0,
            Drive::Secondary => 0xB0,
        }
    }

    /// The drive-select byte for a transfer at `lba`.
    pub fn lba_select(self, lba: u32) -> (r: u8)
        ensures
            r == lba_select_spec(self, lba),
            r & 0xF0 == lba_select_base(self),
            lba < LBA_LIMIT ==> (r & 0x0F) as int == lba as int / 0x100_0000,
    {
        let base: u8 = match self {
            Drive::Primary => 0xE0,
            Drive::Secondary => 0xF0,
        };
        let top: u32 = (lba >> 24) & 0x0F;
        assert(top <= 0x0F) by (bit_vector)
            requires
                top == (lba >> 24) & 0x0F,
        ;
        let nibble: u8 = top as u8;
        let r: u8 = base | nibble;
        assert(r & 0xF0 == base && (lba < 0x1000_0000u32 ==> (r & 0x0F) as u32 == lba / 0x100_0000))
            by (bit_vector)
            requires
                r == base | nibble,
                nibble as u32 == (lba >> 24) & 0x0F,
                base == 0xE0u8 || base == 0xF0u8,
        ;
        r
    }
}

/// Whether `lba` fits in 28 bits.
pub fn lba_in_range(lba: u32) -> (r: bool)
    ensures
        r == (lba < LBA_LIMIT),
{
    lba < LBA_LIMIT
}

/// The byte for the LBA-low register.
pub fn lba_low(lba: u32) -> (r: u8)
    ensures
        r == lba_low_spec(lba),
        r as int == lba as int % 0x100,
{
    let masked: u32 = lba & 0xFF;
    assert(masked <= 0xFF && masked == lba % 0x100) by (bit_vector)
        requires
            masked == lba & 0xFF,
    ;
    masked as u8
}

/// The byte for the LBA-mid register.
pub fn lba_mid(lba: u32) -> (r: u8)
    ensures
        r == lba_mid_spec(lba),
        r as int == (lba as int / 0x100) % 0x100,
{
    let masked: u32 = (lba >> 8) & 0xFF;
    assert(masked <= 0xFF && masked == (lba / 0x100) % 0x100) by (bit_vector)
        requires
            masked == (lba >> 8) & 0xFF,
    ;
    masked as u8
}

/// The byte for the LBA-high register.
pub fn lba_high(lba: u32) -> (r: u8)
    ensures
        r == lba_high_spec(lba),
        r as int == (lba as int / 0x1_0000) % 0x100,
{
    let masked: u32 = (lba >> 16) & 0xFF;
    assert(masked <= 0xFF && masked == (lba / 0x1_0000) % 0x100) by (bit_vector)
        requires
            masked == (lba >> 16) & 0xFF,
    ;
    masked as u8
}

/// The four bytes written for an address below the limit hold the whole
/// address: putting them back together gives the address again, so no bit
/// of it is lost or spills into the drive and mode bits.
pub proof fn lemma_address_bytes_hold_lba(drive: Drive, lba: u32)
    requires
        lba < LBA_LIMIT,
    ensures
        lba_select_spec(drive, lba) & 0xF0 == lba_select_base(drive),
        (((lba_select_spec(drive, lba) & 0x0F) as u32) << 24) | ((lba_high_spec(lba) as u32) << 16)
            | ((lba_mid_spec(lba) as u32) << 8) | (lba_low_spec(lba) as u32) == lba,
{
    let base = lba_select_base(drive);
    let select = lba_select_spec(drive, lba);
    let high = lba_high_spec(lba);
    let mid = lba_mid_spec(lba);
    let low = lba_low_spec(lba);
    assert(select & 0xF0 == base && ((((select & 0x0F) as u32) << 24) | ((high as u32) << 16) | ((mid as u32)
        << 8) | (low as u32)) == lba) by (bit_vector)
        requires
            lba < 0x1000_0000u32,
            base == 0xE0u8 || base == 0xF0u8,
            select == base | (((lba >> 24) & 0x0F) as u8),
            high == ((lba >> 16) & 0xFF) as u8,
            mid == ((lba >> 8) & 0xFF) as u8,
            low == (lba & 0xFF) as u8,
    ;
}

} // verus!
