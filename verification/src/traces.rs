//! Whole runs of an operation: what the host is asked to do over a
//! sequence of replies, and what holds of every such run.

use vstd::prelude::*;
use crate::address::{lba_select_base, Drive};
use crate::protocol::{
    lemma_step_keeps_wf, setup_script, start, Action, AtaError, Command, Phase, Reply, State, CMD_CACHE_FLUSH,
    SECTOR_BYTES, SECTOR_WORDS, SETTLE_READS,
};
use crate::registers::Register;
use crate::status::{has_data_request, has_error, is_busy};
use crate::words::{bytes_of, lemma_bytes_of_words_of, words_of};

verus! {

/// The state after the host reported `replies`, one after the other.
pub open spec fn run(s: State, replies: Seq<Reply>) -> State
    decreases replies.len(),
{
    if replies.len() == 0 {
        s
    } else {
        run(s.step(replies[0]), replies.skip(1))
    }
}

/// The actions the host was asked for over `replies`: the one pending
/// before each reply.
pub open spec fn asked(s: State, replies: Seq<Reply>) -> Seq<Action>
    decreases replies.len(),
{
    if replies.len() == 0 {
        Seq::<Action>::empty()
    } else {
        seq![s.pending()] + asked(s.step(replies[0]), replies.skip(1))
    }
}

/// `n` reports of a write made.
pub open spec fn writes_made(n: nat) -> Seq<Reply> {
    Seq::new(n, |i: int| Reply::Written)
}

/// The replies of a host that read `bytes`, one a read.
pub open spec fn bytes_read(bytes: Seq<u8>) -> Seq<Reply> {
    Seq::new(bytes.len(), |i: int| Reply::Byte(bytes[i]))
}

/// The replies of a host that read `words`, one a read.
pub open spec fn words_read(words: Seq<u16>) -> Seq<Reply> {
    Seq::new(words.len(), |i: int| Reply::Word(words[i]))
}

/// `buffer` with the bytes of `words` laid over it from data word `at` on.
pub open spec fn overlaid(buffer: Seq<u8>, at: int, words: Seq<u16>) -> Seq<u8> {
    Seq::new(
        buffer.len(),
        |i: int|
            if 2 * at <= i < 2 * (at + words.len()) {
                bytes_of(words)[i - 2 * at]
            } else {
                buffer[i]
            },
    )
}

/// The state of a reading operation that took in `words` during its
/// transfer.
pub open spec fn drained(s: State, words: Seq<u16>) -> State {
    let buffer = overlaid(s.buffer, s.count, words);
    if s.count + words.len() < SECTOR_WORDS {
        State { buffer, count: s.count + words.len(), ..s }
    } else {
        State { buffer, ..s }.enter(Phase::Complete)
    }
}

/// One action is asked for each reply, the first of them the one that is
/// pending at the start.
pub proof fn lemma_asked_unfold(s: State, replies: Seq<Reply>, i: int)
    requires
        0 <= i < replies.len(),
    ensures
        asked(s, replies).len() == replies.len(),
        asked(s, replies)[i] == (if i == 0 {
            s.pending()
        } else {
            asked(s.step(replies[0]), replies.skip(1))[i - 1]
        }),
    decreases replies.len(),
{
    lemma_asked_len(s.step(replies[0]), replies.skip(1));
}

/// One action is asked for each reply.
pub proof fn lemma_asked_len(s: State, replies: Seq<Reply>)
    ensures
        asked(s, replies).len() == replies.len(),
    decreases replies.len(),
{
    if replies.len() > 0 {
        lemma_asked_len(s.step(replies[0]), replies.skip(1));
    }
}

/// A run over two sequences of replies, one after the other, is the run
/// over the first followed by the run over the second.
pub proof fn lemma_run_append(s: State, first: Seq<Reply>, second: Seq<Reply>)
    ensures
        run(s, first + second) == run(run(s, first), second),
        asked(s, first + second) == asked(s, first) + asked(run(s, first), second),
    decreases first.len(),
{
    if first.len() == 0 {
        assert(first + second =~= second);
        assert(asked(s, first) + asked(s, second) =~= asked(s, second));
    } else {
        let next = s.step(first[0]);
        assert((first + second).skip(1) =~= first.skip(1) + second);
        lemma_run_append(next, first.skip(1), second);
        assert(seq![s.pending()] + (asked(next, first.skip(1)) + asked(run(next, first.skip(1)), second)) =~= (
        seq![s.pending()] + asked(next, first.skip(1))) + asked(run(next, first.skip(1)), second));
    }
}

/// One more reply at the end of a run is one more step, and one more
/// action asked for: the one pending after the run so far.
pub proof fn lemma_run_push(s: State, replies: Seq<Reply>, reply: Reply)
    ensures
        run(s, replies.push(reply)) == run(s, replies).step(reply),
        asked(s, replies.push(reply)) == asked(s, replies).push(run(s, replies).pending()),
{
    let last = seq![reply];
    let reached = run(s, replies);
    assert(replies.push(reply) =~= replies + last);
    lemma_run_append(s, replies, last);
    assert(last.skip(1).len() == 0);
    assert(run(reached.step(reply), last.skip(1)) == reached.step(reply));
    assert(asked(reached.step(reply), last.skip(1)) =~= Seq::<Action>::empty());
    assert(asked(reached, last) =~= seq![reached.pending()]);
    assert(asked(s, replies) + seq![reached.pending()] =~= asked(s, replies).push(reached.pending()));
}

/// A run keeps a valid state valid.
pub proof fn lemma_run_keeps_wf(s: State, replies: Seq<Reply>)
    requires
        s.wf(),
    ensures
        run(s, replies).wf(),
    decreases replies.len(),
{
    if replies.len() > 0 {
        lemma_step_keeps_wf(s, replies[0]);
        lemma_run_keeps_wf(s.step(replies[0]), replies.skip(1));
    }
}

/// An operation that has ended stays as it is whatever the host reports,
/// and asks for no register access any more.
pub proof fn lemma_finished_is_final(s: State, replies: Seq<Reply>)
    requires
        s.finished(),
    ensures
        run(s, replies) == s,
        asked(s, replies).len() == replies.len(),
        forall|i: int| 0 <= i < replies.len() ==> asked(s, replies)[i] == s.pending(),
        s.pending() is Finish || s.pending() is Fail,
    decreases replies.len(),
{
    if replies.len() > 0 {
        lemma_finished_is_final(s, replies.skip(1));
        assert forall|i: int| 0 <= i < replies.len() implies asked(s, replies)[i] == s.pending() by {
            lemma_asked_unfold(s, replies, i);
        }
    }
}

/// An operation begins with exactly the register writes of its script, in
/// order, and then goes on to wait for the device: from a state in which
/// `s.count` of them are made, the rest follow.
pub proof fn lemma_setup_follows_script(s: State)
    requires
        s.wf(),
        s.phase == Phase::Setup,
    ensures
        ({
            let script = setup_script(s.command, s.drive, s.lba);
            let left = (script.len() - s.count) as nat;
            let trace = asked(s, writes_made(left));
            &&& trace.len() == left
            &&& forall|i: int|
                0 <= i < left ==> trace[i] == (Action::WriteByte {
                    register: script[s.count + i].0,
                    value: script[s.count + i].1,
                })
            &&& run(s, writes_made(left)) == s.enter(
                if s.command == Command::Identify {
                    Phase::Presence
                } else {
                    Phase::Settle
                },
            )
        }),
    decreases setup_script(s.command, s.drive, s.lba).len() - s.count,
{
    let script = setup_script(s.command, s.drive, s.lba);
    let left = (script.len() - s.count) as nat;
    let replies = writes_made(left);
    let next = s.step(replies[0]);
    assert(replies.skip(1) =~= writes_made((left - 1) as nat));
    lemma_asked_len(s, replies);
    if s.count + 1 < script.len() {
        lemma_setup_follows_script(next);
    } else {
        assert(run(next, replies.skip(1)) == next);
    }
    assert forall|i: int| 0 <= i < left implies asked(s, replies)[i] == (Action::WriteByte {
        register: script[s.count + i].0,
        value: script[s.count + i].1,
    }) by {
        lemma_asked_unfold(s, replies, i);
    }
}

/// A sector transfer begins by writing the drive-select register with the
/// drive's LBA-mode bits and bits 24 to 27 of the address.
pub proof fn lemma_transfer_selects_drive(command: Command, drive: Drive, lba: u32, buffer: Seq<u8>)
    requires
        command != Command::Identify,
    ensures
        start(command, drive, lba, buffer).pending() == (Action::WriteByte {
            register: Register::DriveSelect,
            value: lba_select_base(drive) | (((lba >> 24) & 0x0F) as u8),
        }),
        lba_select_base(drive) == (if drive == Drive::Primary {
            0xE0u8
        } else {
            0xF0u8
        }),
{
}

/// After a transfer command the status is read four times and each value
/// is thrown away, whatever it is; only then does the operation look at
/// the status.
pub proof fn lemma_settle_discards(s: State, statuses: Seq<u8>)
    requires
        s.wf(),
        s.phase == Phase::Settle,
        s.count + statuses.len() == SETTLE_READS,
    ensures
        run(s, bytes_read(statuses)) == s.enter(Phase::Poll),
        asked(s, bytes_read(statuses)).len() == statuses.len(),
        forall|i: int|
            0 <= i < statuses.len() ==> asked(s, bytes_read(statuses))[i] == (Action::ReadByte {
                register: Register::CommandStatus,
            }),
    decreases statuses.len(),
{
    let replies = bytes_read(statuses);
    let next = s.step(replies[0]);
    lemma_asked_len(s, replies);
    assert(replies.skip(1) =~= bytes_read(statuses.skip(1)));
    if s.count + 1 < SETTLE_READS {
        lemma_settle_discards(next, statuses.skip(1));
    } else {
        assert(run(next, replies.skip(1)) == next);
    }
    assert forall|i: int| 0 <= i < statuses.len() implies asked(s, replies)[i] == (Action::ReadByte {
        register: Register::CommandStatus,
    }) by {
        lemma_asked_unfold(s, replies, i);
    }
}

/// While the status shows neither an error nor a data request, an
/// operation that waits for data without a limit keeps reading the status.
pub proof fn lemma_poll_waits_while_pending(s: State, statuses: Seq<u8>)
    requires
        s.wf(),
        s.phase == Phase::Poll,
        s.poll_limit is None,
        forall|i: int|
            0 <= i < statuses.len() ==> !has_error(#[trigger] statuses[i]) && !has_data_request(statuses[i]),
    ensures
        run(s, bytes_read(statuses)) == s,
        asked(s, bytes_read(statuses)).len() == statuses.len(),
        forall|i: int|
            0 <= i < statuses.len() ==> asked(s, bytes_read(statuses))[i] == (Action::ReadByte {
                register: Register::CommandStatus,
            }),
    decreases statuses.len(),
{
    let replies = bytes_read(statuses);
    lemma_asked_len(s, replies);
    if statuses.len() > 0 {
        assert(!has_error(statuses[0]) && !has_data_request(statuses[0]));
        assert(replies.skip(1) =~= bytes_read(statuses.skip(1)));
        assert forall|i: int| 0 <= i < statuses.skip(1).len() implies !has_error(
            #[trigger] statuses.skip(1)[i],
        ) && !has_data_request(statuses.skip(1)[i]) by {
            assert(statuses.skip(1)[i] == statuses[i + 1]);
        }
        assert(s.step(replies[0]) == s);
        lemma_poll_waits_while_pending(s, statuses.skip(1));
        assert forall|i: int| 0 <= i < statuses.len() implies asked(s, replies)[i] == (Action::ReadByte {
            register: Register::CommandStatus,
        }) by {
            lemma_asked_unfold(s, replies, i);
        }
    }
}

/// A status with the data-request bit set and the error bit clear starts
/// the transfer at its first word.
pub proof fn lemma_data_request_starts_transfer(s: State, status: u8)
    requires
        s.wf(),
        s.phase == Phase::Poll,
        has_data_request(status),
        !has_error(status),
    ensures
        s.step(Reply::Byte(status)) == s.enter(Phase::Transfer),
{
}

/// A write is complete only through the wait after its cache flush: the
/// one step that completes it is a status with the busy bit clear, read
/// during that wait.
pub proof fn lemma_write_completes_after_flush(s: State, reply: Reply)
    requires
        s.wf(),
        s.command == Command::Write,
        !(s.phase is Complete),
        s.step(reply).phase is Complete,
    ensures
        s.phase == Phase::FlushWait,
        reply is Byte,
        !is_busy(reply->Byte_0),
{
}

/// Where the first status after IDENTIFY reads zero, identification fails
/// for want of a device: the buffer is untouched and no register is read
/// or written from then on.
pub proof fn lemma_absent_device_ends_identification(s: State, later: Seq<Reply>)
    requires
        s.wf(),
        s.phase == Phase::Presence,
    ensures
        s.step(Reply::Byte(0)).phase == Phase::Failed(AtaError::DeviceAbsent),
        s.step(Reply::Byte(0)).buffer == s.buffer,
        run(s.step(Reply::Byte(0)), later) == s.step(Reply::Byte(0)),
        forall|i: int|
            0 <= i < later.len() ==> asked(s.step(Reply::Byte(0)), later)[i] == (Action::Fail {
                error: AtaError::DeviceAbsent,
            }),
{
    lemma_finished_is_final(s.step(Reply::Byte(0)), later);
}

/// Where a status with the error bit set is read while an operation waits
/// for data, the operation fails with a device error, whatever the other
/// bits say, and nothing is asked for from then on: a write issues no
/// cache flush.
pub proof fn lemma_error_status_ends_operation(s: State, status: u8, later: Seq<Reply>)
    requires
        s.wf(),
        s.phase == Phase::Poll,
        has_error(status),
    ensures
        s.step(Reply::Byte(status)).phase == Phase::Failed(AtaError::DeviceError),
        run(s.step(Reply::Byte(status)), later) == s.step(Reply::Byte(status)),
        forall|i: int|
            0 <= i < later.len() ==> asked(s.step(Reply::Byte(status)), later)[i] == (Action::Fail {
                error: AtaError::DeviceError,
            }),
        forall|i: int|
            0 <= i < later.len() ==> asked(s.step(Reply::Byte(status)), later)[i] != (Action::WriteByte {
                register: Register::CommandStatus,
                value: CMD_CACHE_FLUSH,
            }),
{
    lemma_finished_is_final(s.step(Reply::Byte(status)), later);
}

/// The wait after a cache flush looks at the busy bit alone: as long as
/// every status read has it set, an operation without a limit keeps
/// reading the status, whatever the other bits say.
pub proof fn lemma_flush_waits_while_busy(s: State, statuses: Seq<u8>)
    requires
        s.wf(),
        s.phase == Phase::FlushWait,
        s.poll_limit is None,
        forall|i: int| 0 <= i < statuses.len() ==> is_busy(#[trigger] statuses[i]),
    ensures
        run(s, bytes_read(statuses)) == s,
        asked(s, bytes_read(statuses)).len() == statuses.len(),
        forall|i: int|
            0 <= i < statuses.len() ==> asked(s, bytes_read(statuses))[i] == (Action::ReadByte {
                register: Register::CommandStatus,
            }),
    decreases statuses.len(),
{
    let replies = bytes_read(statuses);
    lemma_asked_len(s, replies);
    if statuses.len() > 0 {
        assert(is_busy(statuses[0]));
        assert(replies.skip(1) =~= bytes_read(statuses.skip(1)));
        assert forall|i: int| 0 <= i < statuses.skip(1).len() implies is_busy(
            #[trigger] statuses.skip(1)[i],
        ) by {
            assert(statuses.skip(1)[i] == statuses[i + 1]);
        }
        lemma_flush_waits_while_busy(s, statuses.skip(1));
        assert forall|i: int| 0 <= i < statuses.len() implies asked(s, replies)[i] == (Action::ReadByte {
            register: Register::CommandStatus,
        }) by {
            lemma_asked_unfold(s, replies, i);
        }
    }
}

/// Whether a status read during the wait of `phase` leaves the operation
/// waiting: before a transfer neither the error nor the data-request bit
/// is set, after a cache flush the busy bit is set.
pub open spec fn keeps_waiting(phase: Phase, status: u8) -> bool {
    match phase {
        Phase::Poll => !has_error(status) && !has_data_request(status),
        Phase::FlushWait => is_busy(status),
        _ => false,
    }
}

/// With a limit, a wait takes no more status reads than the limit allows:
/// reads that leave the operation waiting are counted, and the one that
/// reaches the limit fails the operation with a timeout.
pub proof fn lemma_wait_times_out(s: State, statuses: Seq<u8>)
    requires
        s.wf(),
        s.phase is Poll || s.phase is FlushWait,
        s.poll_limit is Some,
        forall|i: int| 0 <= i < statuses.len() ==> keeps_waiting(s.phase, #[trigger] statuses[i]),
    ensures
        s.count + statuses.len() < s.poll_limit->0 ==> run(s, bytes_read(statuses)) == (State {
            count: s.count + statuses.len(),
            ..s
        }),
        statuses.len() > 0 && s.count + statuses.len() >= s.poll_limit->0 ==> run(s, bytes_read(statuses))
            == s.enter(Phase::Failed(AtaError::DeviceTimeout)),
    decreases statuses.len(),
{
    let replies = bytes_read(statuses);
    if statuses.len() > 0 {
        let next = s.step(replies[0]);
        let rest = statuses.skip(1);
        assert(keeps_waiting(s.phase, statuses[0]));
        assert(State { phase: Phase::Poll, ..s } == s || s.phase is FlushWait);
        assert(next == s.waited());
        assert(replies.skip(1) =~= bytes_read(rest));
        if s.count + 1 >= s.poll_limit->0 {
            lemma_finished_is_final(next, replies.skip(1));
        } else {
            assert forall|i: int| 0 <= i < rest.len() implies keeps_waiting(next.phase, #[trigger] rest[i]) by {
                assert(rest[i] == statuses[i + 1]);
            }
            lemma_wait_times_out(next, rest);
        }
    }
}

/// The wait after a cache flush ends well with the first status whose
/// busy bit is clear, whatever its other bits say, and with no other.
pub proof fn lemma_flush_ends_when_idle(s: State, status: u8)
    requires
        s.wf(),
        s.phase == Phase::FlushWait,
    ensures
        s.step(Reply::Byte(status)).phase is Complete <==> !is_busy(status),
        is_busy(status) ==> s.step(Reply::Byte(status)) == s.waited(),
{
}

/// A reading operation in its transfer asks for one data word a reply and
/// stores each, low byte first, at the next two places of the buffer.
pub proof fn lemma_transfer_stores_words(s: State, words: Seq<u16>)
    requires
        s.wf(),
        s.phase == Phase::Transfer,
        s.command != Command::Write,
        s.count + words.len() <= SECTOR_WORDS,
    ensures
        run(s, words_read(words)) == drained(s, words),
        asked(s, words_read(words)).len() == words.len(),
        forall|i: int| 0 <= i < words.len() ==> asked(s, words_read(words))[i] == Action::ReadWord,
    decreases words.len(),
{
    let replies = words_read(words);
    lemma_asked_len(s, replies);
    if words.len() == 0 {
        assert(drained(s, words).buffer =~= s.buffer);
    } else {
        let next = s.step(replies[0]);
        let rest = words.skip(1);
        assert(replies.skip(1) =~= words_read(rest));
        if s.count + 1 < SECTOR_WORDS {
            lemma_transfer_stores_words(next, rest);
            assert(drained(next, rest).buffer =~= drained(s, words).buffer) by {
                assert forall|i: int| 0 <= i < SECTOR_BYTES implies drained(next, rest).buffer[i] == drained(
                    s,
                    words,
                ).buffer[i] by {
                    if 2 * s.count + 2 <= i < 2 * (s.count + words.len()) {
                        let j = i - 2 * s.count - 2;
                        assert(rest[j / 2] == words[j / 2 + 1]);
                        assert((j + 2) / 2 == j / 2 + 1);
                        assert((j + 2) % 2 == j % 2);
                    }
                }
            }
        } else {
            assert(rest.len() == 0);
            assert(run(next, replies.skip(1)) == next);
            assert(next.buffer =~= drained(s, words).buffer);
        }
        assert forall|i: int| 0 <= i < words.len() implies asked(s, replies)[i] == Action::ReadWord by {
            lemma_asked_unfold(s, replies, i);
        }
    }
}

/// Once the device has offered data, identification and reading take
/// exactly one sector of data words: each of the 256 replies is asked for
/// as a word read, the buffer then holds the bytes of those words, and the
/// operation is complete and asks for no further word.
pub proof fn lemma_transfer_drains_sector(s: State, words: Seq<u16>)
    requires
        s.wf(),
        s.phase == Phase::Transfer,
        s.command != Command::Write,
        s.count == 0,
        words.len() == SECTOR_WORDS,
    ensures
        run(s, words_read(words)).phase == Phase::Complete,
        run(s, words_read(words)).pending() == Action::Finish,
        run(s, words_read(words)).buffer == bytes_of(words),
        asked(s, words_read(words)).len() == SECTOR_WORDS,
        forall|i: int| 0 <= i < SECTOR_WORDS ==> asked(s, words_read(words))[i] == Action::ReadWord,
        forall|k: int|
            0 <= k < SECTOR_WORDS ==> (#[trigger] run(s, words_read(words.take(k)))).pending()
                == Action::ReadWord,
{
    lemma_transfer_stores_words(s, words);
    assert(drained(s, words).buffer =~= bytes_of(words));
    assert forall|k: int| 0 <= k < SECTOR_WORDS implies (#[trigger] run(
        s,
        words_read(words.take(k)),
    )).pending() == Action::ReadWord by {
        lemma_transfer_stores_words(s, words.take(k));
    }
}

/// A writing operation in its transfer hands out the words of its buffer
/// in order, two bytes a word with the low byte first, and then issues the
/// cache flush.
pub proof fn lemma_transfer_sends_words(s: State)
    requires
        s.wf(),
        s.phase == Phase::Transfer,
        s.command == Command::Write,
    ensures
        ({
            let left = (SECTOR_WORDS - s.count) as nat;
            let trace = asked(s, writes_made(left));
            &&& trace.len() == left
            &&& forall|i: int|
                0 <= i < left ==> trace[i] == (Action::WriteWord { word: words_of(s.buffer)[s.count + i] })
            &&& run(s, writes_made(left)) == s.enter(Phase::Flush)
            &&& s.enter(Phase::Flush).pending() == (Action::WriteByte {
                register: Register::CommandStatus,
                value: CMD_CACHE_FLUSH,
            })
        }),
    decreases SECTOR_WORDS - s.count,
{
    let left = (SECTOR_WORDS - s.count) as nat;
    let replies = writes_made(left);
    let next = s.step(replies[0]);
    assert(replies.skip(1) =~= writes_made((left - 1) as nat));
    lemma_asked_len(s, replies);
    if s.count + 1 < SECTOR_WORDS {
        lemma_transfer_sends_words(next);
    } else {
        assert(run(next, replies.skip(1)) == next);
    }
    assert forall|i: int| 0 <= i < left implies asked(s, replies)[i] == (Action::WriteWord {
        word: words_of(s.buffer)[s.count + i],
    }) by {
        lemma_asked_unfold(s, replies, i);
    }
}

/// What a write hands to the data register, read back word for word by a
/// read, is the sector that was written, byte for byte.
pub proof fn lemma_written_sector_reads_back(writer: State, reader: State)
    requires
        writer.wf(),
        writer.phase == Phase::Transfer,
        writer.command == Command::Write,
        writer.count == 0,
        reader.wf(),
        reader.phase == Phase::Transfer,
        reader.command == Command::Read,
        reader.count == 0,
    ensures
        ({
            let sent = Seq::new(
                SECTOR_WORDS as nat,
                |i: int| asked(writer, writes_made(SECTOR_WORDS as nat))[i]->word,
            );
            &&& forall|i: int|
                0 <= i < SECTOR_WORDS ==> asked(writer, writes_made(SECTOR_WORDS as nat))[i] is WriteWord
            &&& run(reader, words_read(sent)).phase == Phase::Complete
            &&& run(reader, words_read(sent)).buffer == writer.buffer
        }),
{
    let sent = Seq::new(SECTOR_WORDS as nat, |i: int| asked(writer, writes_made(SECTOR_WORDS as nat))[i]->word);
    lemma_transfer_sends_words(writer);
    assert(sent =~= words_of(writer.buffer));
    lemma_transfer_drains_sector(reader, sent);
    lemma_bytes_of_words_of(writer.buffer);
}

} // verus!
