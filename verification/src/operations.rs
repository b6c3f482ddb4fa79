//! The three operations from beginning to end: what a host that follows a
//! willing device is asked to do, in order, and what comes of it.

use vstd::prelude::*;
use crate::address::{Drive, LBA_LIMIT};
use crate::protocol::{
    identify_script, start, transfer_script, Action, Command, Phase, Reply, State, CMD_CACHE_FLUSH,
    CMD_READ_SECTORS, CMD_WRITE_SECTORS, SECTOR_BYTES, SECTOR_WORDS, SETTLE_READS,
};
use crate::registers::Register;
use crate::status::{has_data_request, has_error, is_busy};
use crate::traces::{
    asked, bytes_read, lemma_flush_waits_while_busy, lemma_run_append, lemma_run_push,
    lemma_settle_discards, lemma_setup_follows_script, lemma_transfer_drains_sector, lemma_transfer_sends_words,
    run, words_read, writes_made,
};
use crate::words::{bytes_of, words_of};

verus! {

/// The register writes of a script, as actions.
pub open spec fn script_writes(script: Seq<(Register, u8)>) -> Seq<Action> {
    Seq::new(script.len(), |i: int| Action::WriteByte { register: script[i].0, value: script[i].1 })
}

/// `n` reads of the status register.
pub open spec fn status_reads(n: nat) -> Seq<Action> {
    Seq::new(n, |i: int| Action::ReadByte { register: Register::CommandStatus })
}

/// `n` reads of the data register.
pub open spec fn word_reads(n: nat) -> Seq<Action> {
    Seq::new(n, |i: int| Action::ReadWord)
}

/// Writes of `words` to the data register, in order.
pub open spec fn word_writes(words: Seq<u16>) -> Seq<Action> {
    Seq::new(words.len(), |i: int| Action::WriteWord { word: words[i] })
}

/// The device offers or takes data and reports no error.
pub open spec fn offers_data(status: u8) -> bool {
    has_data_request(status) && !has_error(status)
}

/// A run over one reply is one step, and asks for the pending action.
pub proof fn lemma_run_one(s: State, reply: Reply)
    ensures
        run(s, seq![reply]) == s.step(reply),
        asked(s, seq![reply]) == seq![s.pending()],
{
    let none = Seq::<Reply>::empty();
    lemma_run_push(s, none, reply);
    assert(none.push(reply) =~= seq![reply]);
    assert(Seq::<Action>::empty().push(s.pending()) =~= seq![s.pending()]);
}

/// Reading a sector from a device that offers data: the host writes the
/// drive-select, sector-count and address registers and the command, reads
/// the status four times to no effect and once more to find the data
/// offered, and reads 256 data words. The operation is then complete and
/// its sector holds the bytes of those words, low byte first.
pub proof fn lemma_read_returns_sector(
    drive: Drive,
    lba: u32,
    buffer: Seq<u8>,
    settle: Seq<u8>,
    status: u8,
    words: Seq<u16>,
)
    requires
        lba < LBA_LIMIT,
        buffer.len() == SECTOR_BYTES,
        settle.len() == SETTLE_READS,
        offers_data(status),
        words.len() == SECTOR_WORDS,
    ensures
        ({
            let s = start(Command::Read, drive, lba, buffer);
            let replies = writes_made(6) + bytes_read(settle) + seq![Reply::Byte(status)] + words_read(words);
            &&& run(s, replies).phase == Phase::Complete
            &&& run(s, replies).buffer == bytes_of(words)
            &&& asked(s, replies) == script_writes(transfer_script(drive, lba, CMD_READ_SECTORS)) + status_reads(5)
                + word_reads(256)
        }),
{
    let s0 = start(Command::Read, drive, lba, buffer);
    let a = writes_made(6);
    let b = bytes_read(settle);
    let c = seq![Reply::Byte(status)];
    let d = words_read(words);
    let s1 = s0.enter(Phase::Settle);
    let s2 = s1.enter(Phase::Poll);
    let s3 = s2.enter(Phase::Transfer);
    lemma_setup_follows_script(s0);
    lemma_settle_discards(s1, settle);
    lemma_run_one(s2, Reply::Byte(status));
    lemma_transfer_drains_sector(s3, words);
    lemma_run_append(s0, a, b);
    lemma_run_append(s0, a + b, c);
    lemma_run_append(s0, a + b + c, d);
    assert(asked(s0, a) =~= script_writes(transfer_script(drive, lba, CMD_READ_SECTORS)));
    assert(asked(s1, b) + asked(s2, c) =~= status_reads(5));
    assert(asked(s3, d) =~= word_reads(256));
    assert(asked(s0, a) + asked(s1, b) + asked(s2, c) + asked(s3, d) =~= asked(s0, a) + (asked(s1, b) + asked(
        s2,
        c,
    )) + asked(s3, d));
}

/// Writing a sector to a device that takes data: the host writes the
/// drive-select, sector-count and address registers and the command, reads
/// the status four times to no effect and once more to find the device
/// ready, writes the 256 words of the sector, low byte first, issues the
/// cache flush and reads the status until the busy bit is clear. Only
/// then is the operation complete.
pub proof fn lemma_write_sends_sector_and_flushes(
    drive: Drive,
    lba: u32,
    data: Seq<u8>,
    settle: Seq<u8>,
    status: u8,
    busy: Seq<u8>,
    idle: u8,
)
    requires
        lba < LBA_LIMIT,
        data.len() == SECTOR_BYTES,
        settle.len() == SETTLE_READS,
        offers_data(status),
        forall|i: int| 0 <= i < busy.len() ==> is_busy(#[trigger] busy[i]),
        !is_busy(idle),
    ensures
        ({
            let s = start(Command::Write, drive, lba, data);
            let before = writes_made(6) + bytes_read(settle) + seq![Reply::Byte(status)] + writes_made(256)
                + seq![Reply::Written] + bytes_read(busy);
            let replies = before + seq![Reply::Byte(idle)];
            &&& run(s, before).phase == Phase::FlushWait
            &&& run(s, replies).phase == Phase::Complete
            &&& run(s, replies).buffer == data
            &&& asked(s, replies) == script_writes(transfer_script(drive, lba, CMD_WRITE_SECTORS)) + status_reads(
                5,
            ) + word_writes(words_of(data)) + seq![
                Action::WriteByte { register: Register::CommandStatus, value: CMD_CACHE_FLUSH },
            ] + status_reads(busy.len() + 1)
        }),
{
    let s0 = start(Command::Write, drive, lba, data);
    let a = writes_made(6);
    let b = bytes_read(settle);
    let c = seq![Reply::Byte(status)];
    let d = writes_made(256);
    let e = seq![Reply::Written];
    let f = bytes_read(busy);
    let g = seq![Reply::Byte(idle)];
    let s1 = s0.enter(Phase::Settle);
    let s2 = s1.enter(Phase::Poll);
    let s3 = s2.enter(Phase::Transfer);
    let s4 = s3.enter(Phase::Flush);
    let s5 = s4.enter(Phase::FlushWait);
    let flush = Action::WriteByte { register: Register::CommandStatus, value: CMD_CACHE_FLUSH };
    lemma_setup_follows_script(s0);
    lemma_settle_discards(s1, settle);
    lemma_run_one(s2, Reply::Byte(status));
    lemma_transfer_sends_words(s3);
    lemma_run_one(s4, Reply::Written);
    lemma_flush_waits_while_busy(s5, busy);
    lemma_run_one(s5, Reply::Byte(idle));
    lemma_run_append(s0, a, b);
    lemma_run_append(s0, a + b, c);
    lemma_run_append(s0, a + b + c, d);
    lemma_run_append(s0, a + b + c + d, e);
    lemma_run_append(s0, a + b + c + d + e, f);
    lemma_run_append(s0, a + b + c + d + e + f, g);
    assert(asked(s0, a) =~= script_writes(transfer_script(drive, lba, CMD_WRITE_SECTORS)));
    assert(asked(s1, b) + asked(s2, c) =~= status_reads(5));
    assert(asked(s3, d) =~= word_writes(words_of(data)));
    assert(asked(s4, e) =~= seq![flush]);
    assert(asked(s5, f) + asked(s5, g) =~= status_reads(busy.len() + 1));
    assert(asked(s0, a) + asked(s1, b) + asked(s2, c) + asked(s3, d) + asked(s4, e) + asked(s5, f) + asked(s5, g)
        =~= asked(s0, a) + (asked(s1, b) + asked(s2, c)) + asked(s3, d) + asked(s4, e) + (asked(s5, f) + asked(
        s5,
        g,
    )));
}

/// Identifying a drive that answers at once: the host writes the
/// drive-select register, clears the device-control register and sets it
/// to turn interrupts off, clears the sector-count and address registers
/// and issues the command; it reads the status, then LBA-mid and LBA-high,
/// and, the status being one that offers data and the other two zero,
/// reads 256 data words. The operation is then complete and its sector
/// holds the bytes of those words.
pub proof fn lemma_identify_drains_sector(drive: Drive, buffer: Seq<u8>, status: u8, words: Seq<u16>)
    requires
        buffer.len() == SECTOR_BYTES,
        offers_data(status),
        words.len() == SECTOR_WORDS,
    ensures
        ({
            let s = start(Command::Identify, drive, 0, buffer);
            let replies = writes_made(8) + seq![Reply::Byte(status), Reply::Byte(0), Reply::Byte(0)] + words_read(
                words,
            );
            &&& run(s, replies).phase == Phase::Complete
            &&& run(s, replies).buffer == bytes_of(words)
            &&& asked(s, replies) == script_writes(identify_script(drive)) + seq![
                Action::ReadByte { register: Register::CommandStatus },
                Action::ReadByte { register: Register::LbaMid },
                Action::ReadByte { register: Register::LbaHigh },
            ] + word_reads(256)
        }),
{
    let s0 = start(Command::Identify, drive, 0, buffer);
    let a = writes_made(8);
    let b = seq![Reply::Byte(status)];
    let c = seq![Reply::Byte(0)];
    let d = words_read(words);
    let s1 = s0.enter(Phase::Presence);
    let s2 = s1.step(Reply::Byte(status));
    let s3 = s2.step(Reply::Byte(0));
    let s4 = s3.step(Reply::Byte(0));
    assert(status != 0) by (bit_vector)
        requires
            status & 0x08 != 0,
    ;
    assert(s2.phase == Phase::SignatureMid);
    assert(s3.phase == Phase::SignatureHigh);
    assert(s4.phase == Phase::Transfer && s4.count == 0);
    lemma_setup_follows_script(s0);
    lemma_run_one(s1, Reply::Byte(status));
    lemma_run_one(s2, Reply::Byte(0));
    lemma_run_one(s3, Reply::Byte(0));
    lemma_transfer_drains_sector(s4, words);
    assert(seq![Reply::Byte(status), Reply::Byte(0), Reply::Byte(0)] =~= b + c + c);
    lemma_run_append(s0, a, b);
    lemma_run_append(s0, a + b, c);
    lemma_run_append(s0, a + b + c, c);
    lemma_run_append(s0, a + b + c + c, d);
    assert(a + (b + c + c) =~= a + b + c + c);
    assert(asked(s0, a) =~= script_writes(identify_script(drive)));
    assert(asked(s1, b) + asked(s2, c) + asked(s3, c) =~= seq![
        Action::ReadByte { register: Register::CommandStatus },
        Action::ReadByte { register: Register::LbaMid },
        Action::ReadByte { register: Register::LbaHigh },
    ]);
    assert(asked(s4, d) =~= word_reads(256));
    assert(asked(s0, a) + asked(s1, b) + asked(s2, c) + asked(s3, c) + asked(s4, d) =~= asked(s0, a) + (asked(
        s1,
        b,
    ) + asked(s2, c) + asked(s3, c)) + asked(s4, d));
}

} // verus!
