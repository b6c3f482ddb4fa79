//! The executable driver: one operation at a time, as a value that names
//! the next register access and takes in what the access returned.
//!
//! A host runs an operation like this: ask [`Session::action`] what to do,
//! do it on the channel's ports, report with [`Session::advance`], and go
//! on until the action is [`Action::Finish`] or [`Action::Fail`].

use vstd::prelude::*;
use crate::address::{lba_high, lba_in_range, lba_low, lba_mid, Drive, LBA_LIMIT};
use crate::protocol::{
    setup_script, start, Action, AtaError, Command, Phase, Reply, State, CMD_CACHE_FLUSH, CMD_IDENTIFY,
    CMD_READ_SECTORS, CMD_WRITE_SECTORS, CONTROL_NO_INTERRUPTS, SECTOR_WORDS, SETTLE_READS,
};
use crate::registers::Register;
use crate::status::{Readiness, Status};
use crate::traces::{asked, lemma_run_push, run};
use crate::words::{pack_word, unpack_word};

verus! {

/// One operation in progress.
#[derive(Clone, Copy, Debug)]
pub struct Session {
    command: Command,
    drive: Drive,
    lba: u32,
    phase: Phase,
    count: usize,
    first_status: u8,
    poll_limit: Option<u32>,
    buffer: [u8; 512],
}

impl View for Session {
    type V = State;

    closed spec fn view(&self) -> State {
        State {
            command: self.command,
            drive: self.drive,
            lba: self.lba,
            phase: self.phase,
            count: self.count as int,
            first_status: self.first_status,
            poll_limit: self.poll_limit,
            buffer: self.buffer@,
        }
    }
}

/// How many register writes begin an operation.
pub fn setup_len(command: Command) -> (n: usize)
    ensures
        forall|drive: Drive, lba: u32| n == #[trigger] setup_script(command, drive, lba).len(),
{
    match command {
        Command::Identify => 8,
        Command::Read => 6,
        Command::Write => 6,
    }
}

/// The register write at place `index` of those that begin an operation.
pub fn setup_write(command: Command, drive: Drive, lba: u32, index: usize) -> (entry: (Register, u8))
    requires
        index < setup_script(command, drive, lba).len(),
    ensures
        entry == setup_script(command, drive, lba)[index as int],
{
    match command {
        Command::Identify => {
            if index == 0 {
                (Register::DriveSelect, drive.identify_select())
            } else if index == 1 {
                (Register::DeviceControl, 0)
            } else if index == 2 {
                (Register::DeviceControl, CONTROL_NO_INTERRUPTS)
            } else if index == 3 {
                (Register::SectorCount, 0)
            } else if index == 4 {
                (Register::LbaLow, 0)
            } else if index == 5 {
                (Register::LbaMid, 0)
            } else if index == 6 {
                (Register::LbaHigh, 0)
            } else {
                (Register::CommandStatus, CMD_IDENTIFY)
            }
        },
        Command::Read => transfer_write(drive, lba, CMD_READ_SECTORS, index),
        Command::Write => transfer_write(drive, lba, CMD_WRITE_SECTORS, index),
    }
}

fn transfer_write(drive: Drive, lba: u32, opcode: u8, index: usize) -> (entry: (Register, u8))
    requires
        index < 6,
    ensures
        entry == crate::protocol::transfer_script(drive, lba, opcode)[index as int],
{
    if index == 0 {
        (Register::DriveSelect, drive.lba_select(lba))
    } else if index == 1 {
        (Register::SectorCount, 1)
    } else if index == 2 {
        (Register::LbaLow, lba_low(lba))
    } else if index == 3 {
        (Register::LbaMid, lba_mid(lba))
    } else if index == 4 {
        (Register::LbaHigh, lba_high(lba))
    } else {
        (Register::CommandStatus, opcode)
    }
}

/// Begins the identification of `drive`.
pub fn init_drive(drive: Drive) -> (s: Session)
    ensures
        s.wf(),
        s@ == start(Command::Identify, drive, 0, Seq::new(512, |i: int| 0u8)),
{
    let s = Session {
        command: Command::Identify,
        drive,
        lba: 0,
        phase: Phase::Setup,
        count: 0,
        first_status: 0,
        poll_limit: None,
        buffer: [0u8;512],
    };
    assert(s@.buffer =~= Seq::new(512, |i: int| 0u8));
    s
}

/// Begins the reading of the sector at `lba`. An address of more than 28
/// bits is refused.
pub fn read_sector(drive: Drive, lba: u32) -> (r: Result<Session, AtaError>)
    ensures
        r is Ok <==> lba < LBA_LIMIT,
        r matches Ok(s) ==> s.wf() && s@ == start(Command::Read, drive, lba, Seq::new(512, |i: int| 0u8)),
        r matches Err(e) ==> e == AtaError::LbaOutOfRange,
{
    if !lba_in_range(lba) {
        return Err(AtaError::LbaOutOfRange);
    }
    let s = Session {
        command: Command::Read,
        drive,
        lba,
        phase: Phase::Setup,
        count: 0,
        first_status: 0,
        poll_limit: None,
        buffer: [0u8;512],
    };
    assert(s@.buffer =~= Seq::new(512, |i: int| 0u8));
    Ok(s)
}

/// Begins the writing of `data` to the sector at `lba`. An address of more
/// than 28 bits is refused.
pub fn write_sector(drive: Drive, lba: u32, data: &[u8; 512]) -> (r: Result<Session, AtaError>)
    ensures
        r is Ok <==> lba < LBA_LIMIT,
        r matches Ok(s) ==> s.wf() && s@ == start(Command::Write, drive, lba, data@),
        r matches Err(e) ==> e == AtaError::LbaOutOfRange,
{
    if !lba_in_range(lba) {
        return Err(AtaError::LbaOutOfRange);
    }
    Ok(
        Session {
            command: Command::Write,
            drive,
            lba,
            phase: Phase::Setup,
            count: 0,
            first_status: 0,
            poll_limit: None,
            buffer: *data,
        },
    )
}

impl Session {
    /// The state is a valid one of the protocol. Every session is: the
    /// functions that make one see to it, and those that change one keep
    /// it so.
    pub open spec fn wf(&self) -> bool {
        self@.wf()
    }

    #[verifier::type_invariant]
    spec fn valid(&self) -> bool {
        self@.wf()
    }

    pub fn command(&self) -> (r: Command)
        ensures
            r == self@.command,
    {
        self.command
    }

    pub fn drive(&self) -> (r: Drive)
        ensures
            r == self@.drive,
    {
        self.drive
    }

    pub fn lba(&self) -> (r: u32)
        ensures
            r == self@.lba,
    {
        self.lba
    }

    pub fn phase(&self) -> (r: Phase)
        ensures
            r == self@.phase,
    {
        self.phase
    }

    /// What the host is to do next.
    pub fn action(&self) -> (a: Action)
        ensures
            self.wf(),
            a == self@.pending(),
    {
        proof {
            use_type_invariant(self);
        }
        match self.phase {
            Phase::Setup => {
                let entry = setup_write(self.command, self.drive, self.lba, self.count);
                Action::WriteByte { register: entry.0, value: entry.1 }
            },
            Phase::Settle | Phase::Presence | Phase::Poll | Phase::FlushWait => Action::ReadByte {
                register: Register::CommandStatus,
            },
            Phase::SignatureMid => Action::ReadByte { register: Register::LbaMid },
            Phase::SignatureHigh => Action::ReadByte { register: Register::LbaHigh },
            Phase::Transfer => match self.command {
                Command::Write => {
                    let low: u8 = self.buffer[2 * self.count];
                    let high: u8 = self.buffer[2 * self.count + 1];
                    Action::WriteWord { word: pack_word(low, high) }
                },
                _ => Action::ReadWord,
            },
            Phase::Flush => Action::WriteByte { register: Register::CommandStatus, value: CMD_CACHE_FLUSH },
            Phase::Complete => Action::Finish,
            Phase::Failed(error) => Action::Fail { error },
        }
    }

    fn enter(&mut self, phase: Phase)
        requires
            old(self)@.enter(phase).wf(),
        ensures
            final(self)@ == old(self)@.enter(phase),
    {
        proof {
            use_type_invariant(&*self);
        }
        self.count = 0;
        self.phase = phase;
    }

    fn count_up(&mut self, steps: usize, then: Phase)
        requires
            old(self).count < steps,
            old(self)@.count_up(steps as int, then).wf(),
        ensures
            final(self)@ == old(self)@.count_up(steps as int, then),
    {
        if self.count + 1 < steps {
            self.count = self.count + 1;
        } else {
            self.enter(then);
        }
    }

    fn waited(&mut self)
        requires
            old(self)@.phase is Poll || old(self)@.phase is FlushWait,
        ensures
            final(self)@ == old(self)@.waited(),
    {
        proof {
            use_type_invariant(&*self);
        }
        match self.poll_limit {
            None => {},
            Some(limit) => {
                if self.count + 1 >= limit as usize {
                    self.enter(Phase::Failed(AtaError::DeviceTimeout));
                } else {
                    self.count = self.count + 1;
                }
            },
        }
    }

    fn after_status(&mut self, status: u8)
        requires
            old(self)@.phase is Poll || old(self)@.phase is SignatureHigh,
        ensures
            final(self)@ == old(self)@.after_status(status),
    {
        proof {
            use_type_invariant(&*self);
        }
        match Status::new(status).readiness() {
            Readiness::Error => self.enter(Phase::Failed(AtaError::DeviceError)),
            Readiness::Ready => self.enter(Phase::Transfer),
            Readiness::Pending => {
                self.phase = Phase::Poll;
                self.waited();
            },
        }
    }

    /// Allows each wait of the operation at most `limit` status reads:
    /// the read that reaches the limit and still finds the device not
    /// ready fails the operation with a timeout. A wait that is under way
    /// begins anew.
    pub fn with_poll_limit(self, limit: u32) -> (s: Session)
        ensures
            s.wf(),
            s@ == self@.limited(limit),
    {
        proof {
            use_type_invariant(&self);
        }
        let count = match self.phase {
            Phase::Poll | Phase::FlushWait => 0,
            _ => self.count,
        };
        Session {
            command: self.command,
            drive: self.drive,
            lba: self.lba,
            phase: self.phase,
            count,
            first_status: self.first_status,
            poll_limit: Some(limit),
            buffer: self.buffer,
        }
    }

    /// The limit on the status reads of one wait, if there is one.
    pub fn poll_limit(&self) -> (r: Option<u32>)
        ensures
            r == self@.poll_limit,
    {
        self.poll_limit
    }

    /// Takes in what the host reports of the action it performed. A reply
    /// that does not answer the pending action is ignored.
    pub fn advance(&mut self, reply: Reply)
        ensures
            final(self).wf(),
            final(self)@ == old(self)@.step(reply),
    {
        proof {
            use_type_invariant(&*self);
        }
        match (self.phase, reply) {
            (Phase::Setup, Reply::Written) => {
                let steps = setup_len(self.command);
                let then = match self.command {
                    Command::Identify => Phase::Presence,
                    _ => Phase::Settle,
                };
                self.count_up(steps, then);
            },
            (Phase::Settle, Reply::Byte(_)) => {
                self.count_up(SETTLE_READS, Phase::Poll);
            },
            (Phase::Presence, Reply::Byte(status)) => {
                if status == 0 {
                    self.enter(Phase::Failed(AtaError::DeviceAbsent));
                } else {
                    self.enter(Phase::SignatureMid);
                    self.first_status = status;
                }
            },
            (Phase::SignatureMid, Reply::Byte(signature)) => {
                if signature != 0 {
                    self.enter(Phase::Failed(AtaError::UnsupportedDeviceType));
                } else {
                    self.enter(Phase::SignatureHigh);
                }
            },
            (Phase::SignatureHigh, Reply::Byte(signature)) => {
                if signature != 0 {
                    self.enter(Phase::Failed(AtaError::UnsupportedDeviceType));
                } else {
                    let status = self.first_status;
                    self.after_status(status);
                }
            },
            (Phase::Poll, Reply::Byte(status)) => {
                self.after_status(status);
            },
            (Phase::Transfer, Reply::Written) => {
                match self.command {
                    Command::Write => self.count_up(SECTOR_WORDS, Phase::Flush),
                    _ => {},
                }
            },
            (Phase::Transfer, Reply::Word(word)) => {
                match self.command {
                    Command::Write => {},
                    _ => {
                        let (low, high) = unpack_word(word);
                        let at: usize = 2 * self.count;
                        self.buffer[at] = low;
                        self.buffer[at + 1] = high;
                        self.count_up(SECTOR_WORDS, Phase::Complete);
                    },
                }
            },
            (Phase::Flush, Reply::Written) => {
                self.enter(Phase::FlushWait);
            },
            (Phase::FlushWait, Reply::Byte(status)) => {
                if Status::new(status).busy() {
                    self.waited();
                } else {
                    self.enter(Phase::Complete);
                }
            },
            _ => {},
        }
    }

    /// Plays a recorded run: takes in `replies` one after the other and
    /// returns the action that was pending before each.
    pub fn replay(&mut self, replies: &[Reply]) -> (trace: Vec<Action>)
        ensures
            final(self).wf(),
            final(self)@ == run(old(self)@, replies@),
            trace@ == asked(old(self)@, replies@),
    {
        proof {
            use_type_invariant(&*self);
        }
        let ghost begin = self@;
        let mut trace: Vec<Action> = Vec::new();
        let mut i: usize = 0;
        assert(replies@.take(0) =~= Seq::<Reply>::empty());
        while i < replies.len()
            invariant
                i <= replies.len(),
                self.wf(),
                self@ == run(begin, replies@.take(i as int)),
                trace@ == asked(begin, replies@.take(i as int)),
            decreases replies.len() - i,
        {
            proof {
                lemma_run_push(begin, replies@.take(i as int), replies@[i as int]);
                assert(replies@.take(i as int).push(replies@[i as int]) =~= replies@.take(i + 1));
            }
            trace.push(self.action());
            self.advance(replies[i]);
            i = i + 1;
        }
        assert(replies@.take(i as int) =~= replies@);
        trace
    }

    /// Whether the operation has ended, well or not.
    pub fn is_finished(&self) -> (r: bool)
        ensures
            r == self@.finished(),
    {
        match self.phase {
            Phase::Complete | Phase::Failed(_) => true,
            _ => false,
        }
    }

    /// How the operation ended: `None` while it is under way.
    pub fn outcome(&self) -> (r: Option<Result<(), AtaError>>)
        ensures
            r == (match self@.phase {
                Phase::Complete => Some(Ok::<(), AtaError>(())),
                Phase::Failed(error) => Some(Err::<(), AtaError>(error)),
                _ => None,
            }),
    {
        match self.phase {
            Phase::Complete => Some(Ok(())),
            Phase::Failed(error) => Some(Err(error)),
            _ => None,
        }
    }

    /// The sector of a completed operation: what was read, the
    /// identification data, or what was written. `None` before that and
    /// after a failure.
    pub fn sector(&self) -> (r: Option<[u8; 512]>)
        ensures
            r is Some <==> self@.phase is Complete,
            r matches Some(bytes) ==> bytes@ == self@.buffer,
    {
        match self.phase {
            Phase::Complete => Some(self.buffer),
            _ => None,
        }
    }
}

} // verus!
