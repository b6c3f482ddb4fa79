//! The register set of one ATA channel: names and port addresses.

use vstd::prelude::*;

verus! {

/// Port address of the primary channel's register block.
pub const PRIMARY_IO_BASE: u16 = 0x1F0;

/// Port address of the primary channel's device-control register.
pub const PRIMARY_DEVICE_CONTROL: u16 = 0x3F6;

/// The highest register block address that leaves room for all eight
/// registers of the block.
pub const MAX_IO_BASE: u16 = 0xFFF8;

/// The registers the driver touches, by name.
#[derive(Clone, Copy, Debug, PartialEq, Eq, Structural)]
pub enum Register {
    Data,
    SectorCount,
    LbaLow,
    LbaMid,
    LbaHigh,
    DriveSelect,
    CommandStatus,
    DeviceControl,
}

/// Offset of a register inside the register block. The device-control
/// register lives outside the block and has offset 0 from its own address.
pub open spec fn register_offset(register: Register) -> int {
    match register {
        Register::Data => 0,
        Register::SectorCount => 2,
        Register::LbaLow => 3,
        Register::LbaMid => 4,
        Register::LbaHigh => 5,
        Register::DriveSelect => 6,
        Register::CommandStatus => 7,
        Register::DeviceControl => 0,
    }
}

/// The port addresses of one controller channel.
#[derive(Clone, Copy, Debug, PartialEq, Eq, Structural)]
pub struct Channel {
    io_base: u16,
    device_control: u16,
}

impl Channel {
    pub closed spec fn io_base_spec(self) -> u16 {
        self.io_base
    }

    pub closed spec fn device_control_spec(self) -> u16 {
        self.device_control
    }

    /// Every register of the block has an address that fits in 16 bits.
    /// This holds of every channel.
    pub open spec fn wf(self) -> bool {
        self.io_base_spec() <= MAX_IO_BASE
    }

    #[verifier::type_invariant]
    spec fn valid(self) -> bool {
        self.io_base <= MAX_IO_BASE
    }

    /// The port address of a register on this channel.
    pub open spec fn port_spec(self, register: Register) -> int {
        match register {
            Register::DeviceControl => self.device_control_spec() as int,
            _ => self.io_base_spec() + register_offset(register),
        }
    }

    /// A channel at the given addresses, or `None` where the register block
    /// would run past the end of the port space.
    pub fn new(io_base: u16, device_control: u16) -> (r: Option<Channel>)
        ensures
            r.is_some() <==> io_base <= MAX_IO_BASE,
            r matches Some(c) ==> c.wf() && c.io_base_spec() == io_base
                && c.device_control_spec() == device_control,
    {
        if io_base <= MAX_IO_BASE {
            Some(Channel { io_base, device_control })
        } else {
            None
        }
    }

    /// The conventional primary channel.
    pub fn primary() -> (c: Channel)
        ensures
            c.wf(),
            c.io_base_spec() == PRIMARY_IO_BASE,
            c.device_control_spec() == PRIMARY_DEVICE_CONTROL,
    {
        Channel { io_base: PRIMARY_IO_BASE, device_control: PRIMARY_DEVICE_CONTROL }
    }

    pub fn io_base(&self) -> (r: u16)
        ensures
            r == self.io_base_spec(),
    {
        self.io_base
    }

    pub fn device_control(&self) -> (r: u16)
        ensures
            r == self.device_control_spec(),
    {
        self.device_control
    }

    /// The port address of `register` on this channel.
    pub fn port(&self, register: Register) -> (r: u16)
        ensures
            self.wf(),
            r == self.port_spec(register),
    {
        proof {
            use_type_invariant(self);
        }
        match register {
            Register::Data => self.io_base,
            Register::SectorCount => self.io_base + 2,
            Register::LbaLow => self.io_base + 3,
            Register::LbaMid => self.io_base + 4,
            Register::LbaHigh => self.io_base + 5,
            Register::DriveSelect => self.io_base + 6,
            Register::CommandStatus => self.io_base + 7,
            Register::DeviceControl => self.device_control,
        }
    }
}

} // verus!
