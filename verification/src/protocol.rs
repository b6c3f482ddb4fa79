//! What the protocol is: commands, phases, the register accesses an
//! operation asks for and what each value read back leads to.
//!
//! Everything here is a mathematical description. The executable
//! [`crate::session::Session`] is proved to follow it step by step.

use vstd::prelude::*;
use crate::address::{identify_select_spec, lba_high_spec, lba_low_spec, lba_mid_spec, lba_select_spec, Drive, LBA_LIMIT};
use crate::registers::Register;
use crate::status::{is_busy, readiness_spec, Readiness};
use crate::words::{high_byte, low_byte, words_of};

verus! {

/// Opcode of IDENTIFY DEVICE.
pub const CMD_IDENTIFY: u8 = 0xEC;

/// Opcode of READ SECTORS.
pub const CMD_READ_SECTORS: u8 = 0x20;

/// Opcode of WRITE SECTORS.
pub const CMD_WRITE_SECTORS: u8 = 0x30;

/// Opcode of CACHE FLUSH.
pub const CMD_CACHE_FLUSH: u8 = 0xE7;

/// Device-control value that turns interrupt notification off.
pub const CONTROL_NO_INTERRUPTS: u8 = 0x02;

/// Bytes in a sector.
pub const SECTOR_BYTES: usize = 512;

/// Data words in a sector.
pub const SECTOR_WORDS: usize = 256;

/// Status reads thrown away after a command, to let the status settle.
pub const SETTLE_READS: usize = 4;

/// What an operation does.
#[derive(Clone, Copy, Debug, PartialEq, Eq, Structural)]
pub enum Command {
    Identify,
    Read,
    Write,
}

/// Why an operation did not complete.
#[derive(Clone, Copy, Debug, PartialEq, Eq, Structural)]
pub enum AtaError {
    /// The status read right after IDENTIFY was zero: nothing is attached.
    DeviceAbsent,
    /// The device answered IDENTIFY with a signature in the LBA-mid or
    /// LBA-high register: it is no plain ATA drive.
    UnsupportedDeviceType,
    /// The device set the error bit while the driver waited for it.
    DeviceError,
    /// The address does not fit in 28 bits.
    LbaOutOfRange,
    /// The device kept the driver waiting for more status reads than the
    /// operation was allowed.
    DeviceTimeout,
}

/// Where an operation stands.
#[derive(Clone, Copy, Debug, PartialEq, Eq, Structural)]
pub enum Phase {
    /// Writing the registers that select the drive and issue the command.
    Setup,
    /// Throwing away status reads after the command.
    Settle,
    /// Identification: the first status read, which shows whether a drive
    /// is there.
    Presence,
    /// Identification: reading LBA-mid for a signature.
    SignatureMid,
    /// Identification: reading LBA-high for a signature.
    SignatureHigh,
    /// Reading the status until the device reports data or an error.
    Poll,
    /// Moving the data words.
    Transfer,
    /// Writing: about to issue the cache flush.
    Flush,
    /// Writing: reading the status until the busy bit clears.
    FlushWait,
    /// The operation is done.
    Complete,
    /// The operation was given up.
    Failed(AtaError),
}

/// What the host is to do next.
#[derive(Clone, Copy, Debug, PartialEq, Eq, Structural)]
pub enum Action {
    /// Write `value` to `register`.
    WriteByte { register: Register, value: u8 },
    /// Write `word` to the data register.
    WriteWord { word: u16 },
    /// Read `register` and hand the byte back.
    ReadByte { register: Register },
    /// Read the data register and hand the word back.
    ReadWord,
    /// Nothing: the operation is complete.
    Finish,
    /// Nothing: the operation failed.
    Fail { error: AtaError },
}

/// What the host reports after it performed an action.
#[derive(Clone, Copy, Debug, PartialEq, Eq, Structural)]
pub enum Reply {
    /// The write was made.
    Written,
    /// The byte that was read.
    Byte(u8),
    /// The word that was read.
    Word(u16),
}

/// The state of an operation.
pub struct State {
    pub command: Command,
    pub drive: Drive,
    pub lba: u32,
    pub phase: Phase,
    /// How many steps of the current phase are done.
    pub count: int,
    /// Identification keeps its first status here until the signature is
    /// checked.
    pub first_status: u8,
    /// How many status reads one wait may take, where there is a limit.
    pub poll_limit: Option<u32>,
    /// The sector: what is to be written, or what was read so far.
    pub buffer: Seq<u8>,
}

/// The register writes that select the drive, set the address and issue a
/// transfer command.
pub open spec fn transfer_script(drive: Drive, lba: u32, opcode: u8) -> Seq<(Register, u8)> {
    seq![
        (Register::DriveSelect, lba_select_spec(drive, lba)),
        (Register::SectorCount, 1u8),
        (Register::LbaLow, lba_low_spec(lba)),
        (Register::LbaMid, lba_mid_spec(lba)),
        (Register::LbaHigh, lba_high_spec(lba)),
        (Register::CommandStatus, opcode),
    ]
}

/// The register writes that select the drive, turn interrupts off, clear
/// the address registers and issue IDENTIFY.
pub open spec fn identify_script(drive: Drive) -> Seq<(Register, u8)> {
    seq![
        (Register::DriveSelect, identify_select_spec(drive)),
        (Register::DeviceControl, 0u8),
        (Register::DeviceControl, CONTROL_NO_INTERRUPTS),
        (Register::SectorCount, 0u8),
        (Register::LbaLow, 0u8),
        (Register::LbaMid, 0u8),
        (Register::LbaHigh, 0u8),
        (Register::CommandStatus, CMD_IDENTIFY),
    ]
}

/// The register writes with which an operation begins, in order.
pub open spec fn setup_script(command: Command, drive: Drive, lba: u32) -> Seq<(Register, u8)> {
    match command {
        Command::Identify => identify_script(drive),
        Command::Read => transfer_script(drive, lba, CMD_READ_SECTORS),
        Command::Write => transfer_script(drive, lba, CMD_WRITE_SECTORS),
    }
}

/// The state in which an operation begins.
pub open spec fn start(command: Command, drive: Drive, lba: u32, buffer: Seq<u8>) -> State {
    State { command, drive, lba, phase: Phase::Setup, count: 0, first_status: 0, poll_limit: None, buffer }
}

/// A reply answers an action when it is of the kind the action asks for.
pub open spec fn answers(action: Action, reply: Reply) -> bool {
    match action {
        Action::WriteByte { .. } | Action::WriteWord { .. } => reply is Written,
        Action::ReadByte { .. } => reply is Byte,
        Action::ReadWord => reply is Word,
        Action::Finish | Action::Fail { .. } => false,
    }
}

impl State {
    /// The sector has its size, the address fits, the phase belongs to the
    /// command and the count stays inside the phase.
    pub open spec fn wf(self) -> bool {
        &&& self.buffer.len() == SECTOR_BYTES
        &&& self.lba < LBA_LIMIT
        &&& match self.phase {
            Phase::Setup => 0 <= self.count < setup_script(self.command, self.drive, self.lba).len(),
            Phase::Settle => 0 <= self.count < SETTLE_READS && self.command != Command::Identify,
            Phase::Presence | Phase::SignatureMid | Phase::SignatureHigh => self.count == 0
                && self.command == Command::Identify,
            Phase::Transfer => 0 <= self.count < SECTOR_WORDS,
            Phase::Flush => self.count == 0 && self.command == Command::Write,
            Phase::FlushWait => self.count_in_wait() && self.command == Command::Write,
            Phase::Poll => self.count_in_wait(),
            Phase::Complete | Phase::Failed(_) => self.count == 0,
        }
    }

    /// During a wait the count is that of the status reads that left the
    /// operation waiting, and stays under the limit; without a limit
    /// nothing is counted.
    pub open spec fn count_in_wait(self) -> bool {
        match self.poll_limit {
            None => self.count == 0,
            Some(limit) => self.count == 0 || 0 < self.count < limit,
        }
    }

    /// Whether the operation has ended, well or not.
    pub open spec fn finished(self) -> bool {
        self.phase is Complete || self.phase is Failed
    }

    /// The action the host is to perform in this state.
    pub open spec fn pending(self) -> Action {
        match self.phase {
            Phase::Setup => {
                let entry = setup_script(self.command, self.drive, self.lba)[self.count];
                Action::WriteByte { register: entry.0, value: entry.1 }
            },
            Phase::Settle | Phase::Presence | Phase::Poll | Phase::FlushWait => Action::ReadByte {
                register: Register::CommandStatus,
            },
            Phase::SignatureMid => Action::ReadByte { register: Register::LbaMid },
            Phase::SignatureHigh => Action::ReadByte { register: Register::LbaHigh },
            Phase::Transfer => if self.command == Command::Write {
                Action::WriteWord { word: words_of(self.buffer)[self.count] }
            } else {
                Action::ReadWord
            },
            Phase::Flush => Action::WriteByte { register: Register::CommandStatus, value: CMD_CACHE_FLUSH },
            Phase::Complete => Action::Finish,
            Phase::Failed(error) => Action::Fail { error },
        }
    }

    /// This state in another phase, at the beginning of that phase.
    pub open spec fn enter(self, phase: Phase) -> State {
        State { phase, count: 0, ..self }
    }

    /// This state with a limit on the status reads of each wait. A wait
    /// that is under way begins anew.
    pub open spec fn limited(self, limit: u32) -> State {
        State {
            poll_limit: Some(limit),
            count: if self.phase is Poll || self.phase is FlushWait {
                0
            } else {
                self.count
            },
            ..self
        }
    }

    /// The state after a status read that leaves the operation waiting.
    /// Without a limit nothing changes. With one the read is counted, and
    /// the read that reaches the limit gives the operation up.
    pub open spec fn waited(self) -> State {
        match self.poll_limit {
            None => self,
            Some(limit) => if self.count + 1 >= limit {
                self.enter(Phase::Failed(AtaError::DeviceTimeout))
            } else {
                State { count: self.count + 1, ..self }
            },
        }
    }

    /// What a status means to an operation that waits for data: an error
    /// ends it, a data request starts the transfer, anything else keeps it
    /// waiting.
    pub open spec fn after_status(self, status: u8) -> State {
        match readiness_spec(status) {
            Readiness::Error => self.enter(Phase::Failed(AtaError::DeviceError)),
            Readiness::Ready => self.enter(Phase::Transfer),
            Readiness::Pending => State { phase: Phase::Poll, ..self }.waited(),
        }
    }

    /// The state after one more step of a phase that takes `steps` steps
    /// and is followed by `then`.
    pub open spec fn count_up(self, steps: int, then: Phase) -> State {
        if self.count + 1 < steps {
            State { count: self.count + 1, ..self }
        } else {
            self.enter(then)
        }
    }

    /// The buffer after `word` was stored as the data word at the count.
    pub open spec fn stored(self, word: u16) -> Seq<u8> {
        self.buffer.update(2 * self.count, low_byte(word)).update(2 * self.count + 1, high_byte(word))
    }

    /// The state after the host reported `reply`. A reply that does not
    /// answer the pending action changes nothing.
    pub open spec fn step(self, reply: Reply) -> State {
        if !answers(self.pending(), reply) {
            self
        } else {
            match self.phase {
                Phase::Setup => self.count_up(
                    setup_script(self.command, self.drive, self.lba).len() as int,
                    if self.command == Command::Identify {
                        Phase::Presence
                    } else {
                        Phase::Settle
                    },
                ),
                Phase::Settle => self.count_up(SETTLE_READS as int, Phase::Poll),
                Phase::Presence => if reply->Byte_0 == 0 {
                    self.enter(Phase::Failed(AtaError::DeviceAbsent))
                } else {
                    State { first_status: reply->Byte_0, ..self.enter(Phase::SignatureMid) }
                },
                Phase::SignatureMid => if reply->Byte_0 != 0 {
                    self.enter(Phase::Failed(AtaError::UnsupportedDeviceType))
                } else {
                    self.enter(Phase::SignatureHigh)
                },
                Phase::SignatureHigh => if reply->Byte_0 != 0 {
                    self.enter(Phase::Failed(AtaError::UnsupportedDeviceType))
                } else {
                    self.after_status(self.first_status)
                },
                Phase::Poll => self.after_status(reply->Byte_0),
                Phase::Transfer => if self.command == Command::Write {
                    self.count_up(SECTOR_WORDS as int, Phase::Flush)
                } else {
                    State { buffer: self.stored(reply->Word_0), ..self }.count_up(
                        SECTOR_WORDS as int,
                        Phase::Complete,
                    )
                },
                Phase::Flush => self.enter(Phase::FlushWait),
                Phase::FlushWait => if is_busy(reply->Byte_0) {
                    self.waited()
                } else {
                    self.enter(Phase::Complete)
                },
                Phase::Complete | Phase::Failed(_) => self,
            }
        }
    }
}

/// A step keeps a valid state valid.
pub proof fn lemma_step_keeps_wf(s: State, reply: Reply)
    requires
        s.wf(),
    ensures
        s.step(reply).wf(),
{
}

} // verus!
