use std::collections::HashMap;
use std::collections::VecDeque;

use ata_pio::address::Drive;
use ata_pio::protocol::{
    Action, AtaError, Command, Phase, Reply, CMD_CACHE_FLUSH, CMD_IDENTIFY, CMD_READ_SECTORS, CMD_WRITE_SECTORS,
};
use ata_pio::registers::Register;
use ata_pio::session::{init_drive, read_sector, setup_len, setup_write, write_sector, Session};

/// A device that plays back what it was given and records what it is told.
struct Playback {
    statuses: VecDeque<u8>,
    idle_status: u8,
    lba_mid: u8,
    lba_high: u8,
    words: VecDeque<u16>,
    byte_writes: Vec<(Register, u8)>,
    word_writes: Vec<u16>,
    status_reads: usize,
    word_reads: usize,
}

impl Playback {
    fn new(statuses: &[u8], idle_status: u8) -> Playback {
        Playback {
            statuses: statuses.iter().copied().collect(),
            idle_status,
            lba_mid: 0,
            lba_high: 0,
            words: VecDeque::new(),
            byte_writes: Vec::new(),
            word_writes: Vec::new(),
            status_reads: 0,
            word_reads: 0,
        }
    }

    fn perform(&mut self, action: Action) -> Reply {
        match action {
            Action::WriteByte { register, value } => {
                self.byte_writes.push((register, value));
                Reply::Written
            }
            Action::WriteWord { word } => {
                self.word_writes.push(word);
                Reply::Written
            }
            Action::ReadByte { register } => match register {
                Register::CommandStatus => {
                    self.status_reads += 1;
                    Reply::Byte(self.statuses.pop_front().unwrap_or(self.idle_status))
                }
                Register::LbaMid => Reply::Byte(self.lba_mid),
                Register::LbaHigh => Reply::Byte(self.lba_high),
                _ => Reply::Byte(0),
            },
            Action::ReadWord => {
                self.word_reads += 1;
                Reply::Word(self.words.pop_front().unwrap_or(0))
            }
            Action::Finish | Action::Fail { .. } => unreachable!(),
        }
    }

    fn issued(&self, opcode: u8) -> bool {
        self.byte_writes.contains(&(Register::CommandStatus, opcode))
    }
}

/// Runs a session against the device for at most `budget` register
/// accesses.
fn run(session: &mut Session, device: &mut Playback, budget: usize) -> Option<Result<(), AtaError>> {
    let mut used = 0;
    while used < budget {
        match session.action() {
            Action::Finish => return Some(Ok(())),
            Action::Fail { error } => return Some(Err(error)),
            action => {
                let reply = device.perform(action);
                session.advance(reply);
            }
        }
        used += 1;
    }
    session.outcome()
}

/// A disk that keeps what is written to it.
struct Disk {
    select: u8,
    lba_low: u8,
    lba_mid: u8,
    lba_high: u8,
    sectors: HashMap<(bool, u32), Vec<u16>>,
    incoming: Vec<u16>,
    outgoing: VecDeque<u16>,
    receiving: bool,
    busy_reads: usize,
    flushes: usize,
}

impl Disk {
    fn new() -> Disk {
        Disk {
            select: 0,
            lba_low: 0,
            lba_mid: 0,
            lba_high: 0,
            sectors: HashMap::new(),
            incoming: Vec::new(),
            outgoing: VecDeque::new(),
            receiving: false,
            busy_reads: 0,
            flushes: 0,
        }
    }

    fn place(&self) -> (bool, u32) {
        let lba = (((self.select & 0x0F) as u32) << 24) | ((self.lba_high as u32) << 16) | ((self.lba_mid as u32) << 8)
            | (self.lba_low as u32);
        (self.select & 0x10 == 0, lba)
    }

    fn perform(&mut self, action: Action) -> Reply {
        match action {
            Action::WriteByte { register, value } => {
                match register {
                    Register::DriveSelect => self.select = value,
                    Register::LbaLow => self.lba_low = value,
                    Register::LbaMid => self.lba_mid = value,
                    Register::LbaHigh => self.lba_high = value,
                    Register::CommandStatus => {
                        if value == CMD_WRITE_SECTORS {
                            self.receiving = true;
                            self.incoming.clear();
                        } else if value == CMD_READ_SECTORS {
                            let stored = self.sectors.get(&self.place()).cloned().unwrap_or(vec![0u16; 256]);
                            self.outgoing = stored.into_iter().collect();
                        } else if value == CMD_CACHE_FLUSH {
                            self.busy_reads = 3;
                            self.flushes += 1;
                        }
                    }
                    _ => {}
                }
                Reply::Written
            }
            Action::WriteWord { word } => {
                assert!(self.receiving);
                self.incoming.push(word);
                if self.incoming.len() == 256 {
                    self.sectors.insert(self.place(), self.incoming.clone());
                    self.receiving = false;
                }
                Reply::Written
            }
            Action::ReadByte { register } => match register {
                Register::CommandStatus => {
                    if self.busy_reads > 0 {
                        self.busy_reads -= 1;
                        Reply::Byte(0x80)
                    } else if self.receiving || !self.outgoing.is_empty() {
                        Reply::Byte(0x58)
                    } else {
                        Reply::Byte(0x50)
                    }
                }
                _ => Reply::Byte(0),
            },
            Action::ReadWord => Reply::Word(self.outgoing.pop_front().unwrap()),
            Action::Finish | Action::Fail { .. } => unreachable!(),
        }
    }
}

fn run_on_disk(session: &mut Session, disk: &mut Disk) -> Result<(), AtaError> {
    let mut used = 0;
    loop {
        assert!(used < 10_000);
        match session.action() {
            Action::Finish => return Ok(()),
            Action::Fail { error } => return Err(error),
            action => {
                let reply = disk.perform(action);
                session.advance(reply);
            }
        }
        used += 1;
    }
}

fn pattern(seed: u8) -> [u8; 512] {
    let mut data = [0u8; 512];
    let mut i = 0;
    while i < 512 {
        data[i] = (i as u8).wrapping_mul(31).wrapping_add(seed) ^ ((i >> 8) as u8);
        i += 1;
    }
    data
}

fn identify_writes(select: u8) -> Vec<(Register, u8)> {
    vec![
        (Register::DriveSelect, select),
        (Register::DeviceControl, 0x00),
        (Register::DeviceControl, 0x02),
        (Register::SectorCount, 0),
        (Register::LbaLow, 0),
        (Register::LbaMid, 0),
        (Register::LbaHigh, 0),
        (Register::CommandStatus, 0xEC),
    ]
}

#[test]
fn opcodes_are_the_standard_ones() {
    assert_eq!(CMD_IDENTIFY, 0xEC);
    assert_eq!(CMD_READ_SECTORS, 0x20);
    assert_eq!(CMD_WRITE_SECTORS, 0x30);
    assert_eq!(CMD_CACHE_FLUSH, 0xE7);
}

#[test]
fn setup_of_identify_is_eight_writes() {
    assert_eq!(setup_len(Command::Identify), 8);
    let expected = identify_writes(0xA0);
    for (index, entry) in expected.iter().enumerate() {
        assert_eq!(setup_write(Command::Identify, Drive::Primary, 0, index), *entry);
    }
    assert_eq!(setup_write(Command::Identify, Drive::Secondary, 0, 0), (Register::DriveSelect, 0xB0));
}

#[test]
fn setup_of_a_transfer_is_six_writes() {
    assert_eq!(setup_len(Command::Read), 6);
    assert_eq!(setup_len(Command::Write), 6);
    let lba = 0x0ABC_DEF1;
    let expected = [
        (Register::DriveSelect, 0xFA),
        (Register::SectorCount, 1),
        (Register::LbaLow, 0xF1),
        (Register::LbaMid, 0xDE),
        (Register::LbaHigh, 0xBC),
        (Register::CommandStatus, 0x20),
    ];
    for (index, entry) in expected.iter().enumerate() {
        assert_eq!(setup_write(Command::Read, Drive::Secondary, lba, index), *entry);
    }
    assert_eq!(setup_write(Command::Write, Drive::Secondary, lba, 5), (Register::CommandStatus, 0x30));
    assert_eq!(setup_write(Command::Write, Drive::Primary, lba, 0), (Register::DriveSelect, 0xEA));
}

#[test]
fn identify_succeeds_and_takes_the_whole_sector() {
    let mut device = Playback::new(&[0x58], 0x50);
    device.words = (0..300u16).map(|i| 0x0100u16.wrapping_mul(i) | (i & 0xFF)).collect();
    let mut session = init_drive(Drive::Primary);
    assert_eq!(session.command(), Command::Identify);
    assert_eq!(session.drive(), Drive::Primary);
    assert_eq!(session.outcome(), None);
    assert!(session.sector().is_none());
    assert_eq!(run(&mut session, &mut device, 10_000), Some(Ok(())));
    assert_eq!(device.byte_writes, identify_writes(0xA0));
    assert_eq!(device.word_reads, 256);
    assert_eq!(device.words.len(), 44);
    assert_eq!(device.status_reads, 1);
    assert!(device.word_writes.is_empty());
    assert!(session.is_finished());
    assert_eq!(session.phase(), Phase::Complete);
    let data = session.sector().unwrap();
    assert_eq!(data[0], 0x00);
    assert_eq!(data[2], 0x01);
    assert_eq!(data[3], 0x01);
    assert_eq!(data[510], 0xFF);
    assert_eq!(data[511], 0xFF);
}

#[test]
fn identify_of_the_second_drive_selects_it() {
    let mut device = Playback::new(&[0x08], 0x50);
    let mut session = init_drive(Drive::Secondary);
    assert_eq!(run(&mut session, &mut device, 10_000), Some(Ok(())));
    assert_eq!(device.byte_writes, identify_writes(0xB0));
}

#[test]
fn identify_polls_until_data_is_requested() {
    let mut device = Playback::new(&[0x80, 0x80, 0xD0, 0x58], 0x50);
    let mut session = init_drive(Drive::Primary);
    assert_eq!(run(&mut session, &mut device, 10_000), Some(Ok(())));
    assert_eq!(device.status_reads, 4);
    assert_eq!(device.word_reads, 256);
}

#[test]
fn identify_without_a_device_reads_nothing() {
    let mut device = Playback::new(&[0x00], 0x58);
    device.words = (0..256u16).collect();
    let mut session = init_drive(Drive::Secondary);
    assert_eq!(run(&mut session, &mut device, 10_000), Some(Err(AtaError::DeviceAbsent)));
    assert_eq!(device.word_reads, 0);
    assert_eq!(device.words.len(), 256);
    assert_eq!(device.status_reads, 1);
    assert_eq!(device.byte_writes, identify_writes(0xB0));
    assert_eq!(session.outcome(), Some(Err(AtaError::DeviceAbsent)));
    assert_eq!(session.action(), Action::Fail { error: AtaError::DeviceAbsent });
    assert!(session.sector().is_none());
}

#[test]
fn identify_refuses_a_signature_in_lba_mid() {
    let mut device = Playback::new(&[0x58], 0x58);
    device.lba_mid = 0x14;
    device.lba_high = 0xEB;
    let mut session = init_drive(Drive::Primary);
    assert_eq!(run(&mut session, &mut device, 10_000), Some(Err(AtaError::UnsupportedDeviceType)));
    assert_eq!(device.word_reads, 0);
}

#[test]
fn identify_refuses_a_signature_in_lba_high() {
    let mut device = Playback::new(&[0x58], 0x58);
    device.lba_high = 0xEB;
    let mut session = init_drive(Drive::Primary);
    assert_eq!(run(&mut session, &mut device, 10_000), Some(Err(AtaError::UnsupportedDeviceType)));
    assert_eq!(device.word_reads, 0);
    assert_eq!(device.status_reads, 1);
}

#[test]
fn identify_fails_on_the_error_bit_of_the_first_status() {
    let mut device = Playback::new(&[0x51], 0x58);
    let mut session = init_drive(Drive::Primary);
    assert_eq!(run(&mut session, &mut device, 10_000), Some(Err(AtaError::DeviceError)));
    assert_eq!(device.status_reads, 1);
    assert_eq!(device.word_reads, 0);
}

#[test]
fn identify_fails_on_an_error_bit_seen_later() {
    let mut device = Playback::new(&[0x80, 0x80, 0x09], 0x58);
    let mut session = init_drive(Drive::Primary);
    assert_eq!(run(&mut session, &mut device, 10_000), Some(Err(AtaError::DeviceError)));
    assert_eq!(device.status_reads, 3);
    assert_eq!(device.word_reads, 0);
}

#[test]
fn read_issues_its_writes_settles_and_takes_the_sector() {
    let mut device = Playback::new(&[0x01, 0x00, 0xFF, 0x09, 0x80, 0x58], 0x50);
    device.words = (0..256u16).map(|i| 0xA000 | i).collect();
    let mut session = read_sector(Drive::Primary, 0x0123_4567).unwrap();
    assert_eq!(session.lba(), 0x0123_4567);
    assert_eq!(run(&mut session, &mut device, 10_000), Some(Ok(())));
    assert_eq!(
        device.byte_writes,
        vec![
            (Register::DriveSelect, 0xE1),
            (Register::SectorCount, 1),
            (Register::LbaLow, 0x67),
            (Register::LbaMid, 0x45),
            (Register::LbaHigh, 0x23),
            (Register::CommandStatus, 0x20),
        ]
    );
    assert_eq!(device.status_reads, 6);
    assert_eq!(device.word_reads, 256);
    let data = session.sector().unwrap();
    for i in 0..256usize {
        assert_eq!(data[2 * i], i as u8);
        assert_eq!(data[2 * i + 1], 0xA0);
    }
}

#[test]
fn read_fails_on_the_error_bit() {
    let mut device = Playback::new(&[0, 0, 0, 0, 0x80, 0x01], 0x58);
    device.words = (0..256u16).collect();
    let mut session = read_sector(Drive::Secondary, 7).unwrap();
    assert_eq!(run(&mut session, &mut device, 10_000), Some(Err(AtaError::DeviceError)));
    assert_eq!(device.word_reads, 0);
    assert!(session.sector().is_none());
}

#[test]
fn read_takes_error_over_data_request() {
    let mut device = Playback::new(&[0, 0, 0, 0, 0x09], 0x58);
    let mut session = read_sector(Drive::Primary, 7).unwrap();
    assert_eq!(run(&mut session, &mut device, 10_000), Some(Err(AtaError::DeviceError)));
    assert_eq!(device.status_reads, 5);
}

#[test]
fn read_keeps_waiting_without_a_timeout() {
    let mut device = Playback::new(&[], 0x80);
    let mut session = read_sector(Drive::Primary, 7).unwrap();
    assert_eq!(run(&mut session, &mut device, 5_000), None);
    assert_eq!(session.phase(), Phase::Poll);
    assert_eq!(device.status_reads, 5_000 - 6);
}

#[test]
fn addresses_of_more_than_28_bits_are_refused() {
    assert!(matches!(read_sector(Drive::Primary, 0x1000_0000), Err(AtaError::LbaOutOfRange)));
    assert!(matches!(read_sector(Drive::Secondary, u32::MAX), Err(AtaError::LbaOutOfRange)));
    assert!(matches!(write_sector(Drive::Primary, 0x1000_0000, &[0u8; 512]), Err(AtaError::LbaOutOfRange)));
    assert!(read_sector(Drive::Primary, 0x0FFF_FFFF).is_ok());
    assert!(write_sector(Drive::Secondary, 0x0FFF_FFFF, &[0u8; 512]).is_ok());
    assert!(read_sector(Drive::Primary, 0).is_ok());
}

#[test]
fn write_sends_the_sector_and_flushes() {
    let data = pattern(5);
    let mut device = Playback::new(&[0, 0, 0, 0, 0x58, 0x80, 0x88, 0x50], 0x50);
    let mut session = write_sector(Drive::Secondary, 0x0F00_0102, &data).unwrap();
    assert_eq!(run(&mut session, &mut device, 10_000), Some(Ok(())));
    assert_eq!(
        device.byte_writes,
        vec![
            (Register::DriveSelect, 0xFF),
            (Register::SectorCount, 1),
            (Register::LbaLow, 0x02),
            (Register::LbaMid, 0x01),
            (Register::LbaHigh, 0x00),
            (Register::CommandStatus, 0x30),
            (Register::CommandStatus, 0xE7),
        ]
    );
    assert_eq!(device.word_writes.len(), 256);
    for i in 0..256usize {
        assert_eq!(device.word_writes[i], (data[2 * i] as u16) | ((data[2 * i + 1] as u16) << 8));
    }
    assert_eq!(device.status_reads, 8);
    assert_eq!(device.word_reads, 0);
}

#[test]
fn write_with_an_error_on_the_first_poll_issues_no_flush() {
    let mut device = Playback::new(&[0, 0, 0, 0, 0x01], 0x58);
    let mut session = write_sector(Drive::Primary, 9, &pattern(1)).unwrap();
    assert_eq!(run(&mut session, &mut device, 10_000), Some(Err(AtaError::DeviceError)));
    assert!(device.issued(CMD_WRITE_SECTORS));
    assert!(!device.issued(CMD_CACHE_FLUSH));
    assert!(device.word_writes.is_empty());
    assert_eq!(device.byte_writes.len(), 6);
    assert_eq!(device.status_reads, 5);
}

#[test]
fn flush_waits_on_the_busy_bit_alone() {
    let mut statuses = vec![0, 0, 0, 0, 0x58];
    statuses.extend(std::iter::repeat(0x88).take(100));
    let mut device = Playback::new(&statuses, 0x88);
    let mut session = write_sector(Drive::Primary, 9, &pattern(2)).unwrap();
    assert_eq!(run(&mut session, &mut device, 6 + 5 + 256 + 1 + 500), None);
    assert_eq!(session.phase(), Phase::FlushWait);
    assert_eq!(session.action(), Action::ReadByte { register: Register::CommandStatus });
    assert!(device.issued(CMD_CACHE_FLUSH));
    assert_eq!(device.status_reads, 5 + 500);
    session.advance(Reply::Byte(0xFF));
    assert_eq!(session.outcome(), None);
    session.advance(Reply::Byte(0x7F));
    assert_eq!(session.outcome(), Some(Ok(())));
}

#[test]
fn flush_does_not_look_at_the_error_bit() {
    let mut device = Playback::new(&[0, 0, 0, 0, 0x08, 0x81, 0x01], 0x50);
    let mut session = write_sector(Drive::Primary, 9, &pattern(2)).unwrap();
    assert_eq!(run(&mut session, &mut device, 10_000), Some(Ok(())));
    assert_eq!(device.status_reads, 7);
}

#[test]
fn write_is_not_complete_before_the_flush_ends() {
    let mut device = Playback::new(&[0, 0, 0, 0, 0x58], 0x80);
    let mut session = write_sector(Drive::Primary, 9, &pattern(3)).unwrap();
    assert_eq!(run(&mut session, &mut device, 6 + 5 + 256), None);
    assert_eq!(session.phase(), Phase::Flush);
    assert_eq!(session.action(), Action::WriteByte { register: Register::CommandStatus, value: 0xE7 });
    assert!(!session.is_finished());
    session.advance(Reply::Written);
    assert_eq!(session.phase(), Phase::FlushWait);
    assert!(!session.is_finished());
    session.advance(Reply::Byte(0x00));
    assert!(session.is_finished());
    assert_eq!(session.action(), Action::Finish);
}

#[test]
fn written_sector_reads_back_byte_for_byte() {
    let mut disk = Disk::new();
    let first = pattern(17);
    let second = pattern(200);
    let mut write = write_sector(Drive::Primary, 0x0ABC_DEF1, &first).unwrap();
    assert_eq!(run_on_disk(&mut write, &mut disk), Ok(()));
    let mut write = write_sector(Drive::Secondary, 0x0ABC_DEF1, &second).unwrap();
    assert_eq!(run_on_disk(&mut write, &mut disk), Ok(()));
    assert_eq!(disk.flushes, 2);

    let mut read = read_sector(Drive::Primary, 0x0ABC_DEF1).unwrap();
    assert_eq!(run_on_disk(&mut read, &mut disk), Ok(()));
    assert_eq!(read.sector().unwrap(), first);
    let mut read = read_sector(Drive::Secondary, 0x0ABC_DEF1).unwrap();
    assert_eq!(run_on_disk(&mut read, &mut disk), Ok(()));
    assert_eq!(read.sector().unwrap(), second);
    let mut read = read_sector(Drive::Primary, 0x0ABC_DEF0).unwrap();
    assert_eq!(run_on_disk(&mut read, &mut disk), Ok(()));
    assert_eq!(read.sector().unwrap(), [0u8; 512]);
}

#[test]
fn sector_of_ones_at_block_four_reads_back() {
    let mut disk = Disk::new();
    let drive = Drive::from_flag(false);
    let lba = 4;
    let mut write = write_sector(drive, lba, &[1u8; 512]).unwrap();
    assert_eq!(run_on_disk(&mut write, &mut disk), Ok(()));
    assert_eq!(disk.sectors.get(&(false, 4)).unwrap(), &vec![0x0101u16; 256]);
    let mut read = read_sector(drive, lba).unwrap();
    assert_eq!(run_on_disk(&mut read, &mut disk), Ok(()));
    assert_eq!(read.sector().unwrap(), [1u8; 512]);
}

#[test]
fn a_reply_of_the_wrong_kind_is_ignored() {
    let mut session = read_sector(Drive::Primary, 1).unwrap();
    let before = session.action();
    session.advance(Reply::Byte(0x58));
    assert_eq!(session.action(), before);
    session.advance(Reply::Word(0x1234));
    assert_eq!(session.action(), before);
    session.advance(Reply::Written);
    assert_eq!(session.action(), Action::WriteByte { register: Register::SectorCount, value: 1 });
}

#[test]
fn an_ended_operation_takes_no_more_replies() {
    let mut session = init_drive(Drive::Primary);
    let trace = session.replay(&[Reply::Written; 8]);
    assert_eq!(trace.len(), 8);
    session.advance(Reply::Byte(0));
    assert_eq!(session.outcome(), Some(Err(AtaError::DeviceAbsent)));
    let later = session.replay(&[Reply::Byte(0x58), Reply::Written, Reply::Word(7), Reply::Byte(0)]);
    assert_eq!(later, vec![Action::Fail { error: AtaError::DeviceAbsent }; 4]);
    assert_eq!(session.outcome(), Some(Err(AtaError::DeviceAbsent)));
}

#[test]
fn replay_returns_what_was_asked_before_each_reply() {
    let mut session = init_drive(Drive::Secondary);
    let mut replies = vec![Reply::Written; 8];
    replies.extend([Reply::Byte(0x50), Reply::Byte(0), Reply::Byte(0), Reply::Byte(0x58), Reply::Word(0xBEEF)]);
    let trace = session.replay(&replies);
    let mut expected: Vec<Action> =
        identify_writes(0xB0).into_iter().map(|(register, value)| Action::WriteByte { register, value }).collect();
    expected.extend([
        Action::ReadByte { register: Register::CommandStatus },
        Action::ReadByte { register: Register::LbaMid },
        Action::ReadByte { register: Register::LbaHigh },
        Action::ReadByte { register: Register::CommandStatus },
        Action::ReadWord,
    ]);
    assert_eq!(trace, expected);
    assert_eq!(session.phase(), Phase::Transfer);
    assert_eq!(session.action(), Action::ReadWord);
    assert!(session.replay(&[]).is_empty());
}

#[test]
fn a_limited_wait_for_data_times_out() {
    let mut device = Playback::new(&[], 0x80);
    device.words = (0..256u16).collect();
    let mut session = read_sector(Drive::Primary, 7).unwrap().with_poll_limit(10);
    assert_eq!(session.poll_limit(), Some(10));
    assert_eq!(run(&mut session, &mut device, 10_000), Some(Err(AtaError::DeviceTimeout)));
    assert_eq!(device.status_reads, 4 + 10);
    assert_eq!(device.word_reads, 0);
}

#[test]
fn a_limited_wait_ends_well_on_its_last_read() {
    let statuses = [0, 0, 0, 0, 0x80, 0x80, 0x58];
    let mut device = Playback::new(&statuses, 0x80);
    let mut session = read_sector(Drive::Primary, 7).unwrap().with_poll_limit(3);
    assert_eq!(run(&mut session, &mut device, 10_000), Some(Ok(())));
    assert_eq!(device.word_reads, 256);

    let mut device = Playback::new(&statuses, 0x80);
    let mut session = read_sector(Drive::Primary, 7).unwrap().with_poll_limit(2);
    assert_eq!(run(&mut session, &mut device, 10_000), Some(Err(AtaError::DeviceTimeout)));
    assert_eq!(device.status_reads, 6);
}

#[test]
fn a_limited_flush_wait_times_out() {
    let mut device = Playback::new(&[0, 0, 0, 0, 0x58], 0x88);
    let mut session = write_sector(Drive::Primary, 9, &pattern(4)).unwrap().with_poll_limit(5);
    assert_eq!(run(&mut session, &mut device, 10_000), Some(Err(AtaError::DeviceTimeout)));
    assert!(device.issued(CMD_CACHE_FLUSH));
    assert_eq!(device.word_writes.len(), 256);
    assert_eq!(device.status_reads, 5 + 5);
    assert!(session.sector().is_none());
}

#[test]
fn each_wait_has_the_whole_limit() {
    let mut device = Playback::new(&[0, 0, 0, 0, 0x80, 0x80, 0x58, 0x80, 0x80, 0x50], 0x80);
    let mut session = write_sector(Drive::Primary, 9, &pattern(4)).unwrap().with_poll_limit(3);
    assert_eq!(run(&mut session, &mut device, 10_000), Some(Ok(())));
    assert_eq!(device.status_reads, 10);
}

#[test]
fn a_limited_identification_counts_its_first_status() {
    let mut device = Playback::new(&[0x50, 0x50, 0x58], 0x50);
    let mut session = init_drive(Drive::Primary).with_poll_limit(3);
    assert_eq!(run(&mut session, &mut device, 10_000), Some(Ok(())));

    let mut device = Playback::new(&[0x50, 0x50, 0x58], 0x50);
    let mut session = init_drive(Drive::Primary).with_poll_limit(2);
    assert_eq!(run(&mut session, &mut device, 10_000), Some(Err(AtaError::DeviceTimeout)));
    assert_eq!(device.status_reads, 2);
    assert_eq!(device.word_reads, 0);
}

#[test]
fn a_limit_of_zero_gives_up_at_the_first_wait() {
    let mut device = Playback::new(&[0, 0, 0, 0, 0x80], 0x58);
    let mut session = read_sector(Drive::Primary, 7).unwrap().with_poll_limit(0);
    assert_eq!(run(&mut session, &mut device, 10_000), Some(Err(AtaError::DeviceTimeout)));
    assert_eq!(device.status_reads, 5);

    let mut device = Playback::new(&[0, 0, 0, 0, 0x58], 0x58);
    let mut session = read_sector(Drive::Primary, 7).unwrap().with_poll_limit(0);
    assert_eq!(run(&mut session, &mut device, 10_000), Some(Ok(())));
}

#[test]
fn a_new_limit_begins_the_wait_anew() {
    let mut session = read_sector(Drive::Primary, 7).unwrap().with_poll_limit(3);
    session.replay(&[Reply::Written; 6]);
    session.replay(&[Reply::Byte(0); 4]);
    assert_eq!(session.phase(), Phase::Poll);
    session.replay(&[Reply::Byte(0x80); 2]);
    assert_eq!(session.outcome(), None);
    let mut session = session.with_poll_limit(3);
    session.replay(&[Reply::Byte(0x80); 2]);
    assert_eq!(session.outcome(), None);
    session.advance(Reply::Byte(0x80));
    assert_eq!(session.outcome(), Some(Err(AtaError::DeviceTimeout)));
}
