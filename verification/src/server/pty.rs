//! What the terminal side of the daemon decides: which program the shell is,
//! how far reading and writing the terminal got, which signals exist.
use nix::sys::signal::Signal;
use vstd::prelude::*;
use crate::client::STDIN_BUFFER_LEN;
use crate::protocol::MAX_PAYLOAD;
use crate::server::backlog::DEFAULT_LIMIT;
use crate::text::{split_words, texts, white_space, words};
use crate::text_laws::{
    all_white, law_solid_text_is_one_word, law_white_space_parts_words, no_white,
};

verus! {

/// The terminal type that a shell is told when the environment names none.
pub const DEFAULT_TERM: &'static str = "xterm-256color";

/// The bytes that one read from the terminal may give.
pub const READ_BUFFER_LEN: usize = 8192;

/// The program and the arguments of a shell command.
pub open spec fn argv_text(command: Seq<char>, env_shell: Option<Seq<char>>) -> Seq<Seq<char>> {
    if words(command).len() > 0 {
        words(command)
    } else {
        match env_shell {
            Some(shell) => seq![shell],
            None => seq!["/bin/sh"@],
        }
    }
}

/// Splits a shell command into program and arguments. The program stands
/// first and is its own first argument. A command without a word stands for
/// the shell that the environment names, or `/bin/sh`.
pub fn shell_argv(command: &str, env_shell: Option<String>) -> (argv: Vec<String>)
    ensures
        argv@.len() > 0,
        texts(argv@) == argv_text(
            command@,
            match env_shell {
                Some(shell) => Some(shell@),
                None => None,
            },
        ),
{
    let mut parts = split_words(command);
    assert(parts@.len() == texts(parts@).len());
    if parts.len() == 0 {
        let shell = match env_shell {
            Some(shell) => shell,
            None => "/bin/sh".to_owned(),
        };
        parts.push(shell);
        assert(texts(parts@) =~= seq![shell@]);
    }
    parts
}

/// The terminal type to set, if the environment does not name one.
pub fn term_to_set(is_set: bool) -> (term: Option<&'static str>)
    ensures
        match term {
            Some(name) => !is_set && name@ == DEFAULT_TERM@,
            None => is_set,
        },
{
    if is_set {
        None
    } else {
        Some(DEFAULT_TERM)
    }
}

/// What one attempt to read or write gave.
#[derive(Debug, Clone, Copy, PartialEq, Eq, Structural)]
pub enum IoOutcome {
    /// This many bytes were read or written.
    Moved(usize),
    /// Nothing could be read or written yet.
    WouldBlock,
    /// The attempt failed for good.
    Failed,
}

/// What reading the terminal does next.
pub enum ReadStep {
    /// These bytes were read.
    Done(Vec<u8>),
    /// Wait and try again with this buffer.
    Retry(Vec<u8>),
    /// Return the error.
    Fail,
}

/// Handles an attempt to read into a buffer: what was read is the front of
/// the buffer.
pub fn after_read(buffer: Vec<u8>, outcome: IoOutcome) -> (step: ReadStep)
    ensures
        match outcome {
            IoOutcome::Moved(count) => step matches ReadStep::Done(data) && data@ == (if count
                <= buffer@.len() {
                buffer@.take(count as int)
            } else {
                buffer@
            }),
            IoOutcome::WouldBlock => step == ReadStep::Retry(buffer),
            IoOutcome::Failed => step is Fail,
        },
{
    match outcome {
        IoOutcome::Moved(count) => {
            let mut data = buffer;
            data.truncate(count);
            ReadStep::Done(data)
        },
        IoOutcome::WouldBlock => ReadStep::Retry(buffer),
        IoOutcome::Failed => ReadStep::Fail,
    }
}

/// What writing to the terminal does next.
#[derive(Debug, Clone, Copy, PartialEq, Eq, Structural)]
pub enum WriteStep {
    /// Write the bytes from this position on.
    WriteFrom(usize),
    /// Everything was written.
    Done,
    /// Return the error.
    Fail,
}

/// The position after an attempt to write from `offset` on.
pub open spec fn offset_after(offset: nat, len: nat, outcome: IoOutcome) -> nat {
    match outcome {
        IoOutcome::Moved(count) => if offset + count < len {
            offset + count as nat
        } else {
            len
        },
        _ => offset,
    }
}

/// What there is to do at a position.
pub open spec fn write_step(offset: nat, len: nat) -> WriteStep {
    if offset < len {
        WriteStep::WriteFrom(offset as usize)
    } else {
        WriteStep::Done
    }
}

/// How far writing some bytes to the terminal got.
#[derive(Debug)]
pub struct WriteProgress {
    offset: usize,
    len: usize,
}

impl WriteProgress {
    /// The bytes written so far.
    pub closed spec fn written(&self) -> nat {
        self.offset as nat
    }

    /// The bytes to write in all.
    pub closed spec fn size(&self) -> nat {
        self.len as nat
    }

    /// No more is written than there is.
    pub closed spec fn wf(&self) -> bool {
        self.offset <= self.len
    }

    /// Starts writing `len` bytes.
    pub fn new(len: usize) -> (progress: Self)
        ensures
            progress.wf(),
            progress.written() == 0,
            progress.size() == len,
    {
        WriteProgress { offset: 0, len }
    }

    /// What there is to do.
    pub fn next(&self) -> (step: WriteStep)
        requires
            self.wf(),
        ensures
            step == write_step(self.written(), self.size()),
    {
        if self.offset < self.len {
            WriteStep::WriteFrom(self.offset)
        } else {
            WriteStep::Done
        }
    }

    /// Handles an attempt to write what was left.
    pub fn after_write(&mut self, outcome: IoOutcome) -> (step: WriteStep)
        requires
            old(self).wf(),
        ensures
            final(self).wf(),
            final(self).size() == old(self).size(),
            final(self).written() == offset_after(old(self).written(), old(self).size(), outcome),
            step == (if outcome is Failed {
                WriteStep::Fail
            } else {
                write_step(final(self).written(), final(self).size())
            }),
    {
        match outcome {
            IoOutcome::Moved(count) => {
                if count >= self.len - self.offset {
                    self.offset = self.len;
                } else {
                    self.offset += count;
                }
            },
            IoOutcome::WouldBlock => {},
            IoOutcome::Failed => {
                return WriteStep::Fail;
            },
        }
        self.next()
    }
}

/// The position after some attempts to write `len` bytes, first to last.
pub open spec fn offset_after_all(len: nat, outcomes: Seq<IoOutcome>) -> nat
    decreases outcomes.len(),
{
    if outcomes.len() == 0 {
        0
    } else {
        offset_after(offset_after_all(len, outcomes.drop_last()), len, outcomes.last())
    }
}

/// The bytes that some attempts to write `data` wrote: each attempt writes
/// from the position on that the ones before reached, and as many bytes as the
/// terminal took.
pub open spec fn bytes_written(data: Seq<u8>, outcomes: Seq<IoOutcome>) -> Seq<u8>
    decreases outcomes.len(),
{
    if outcomes.len() == 0 {
        Seq::empty()
    } else {
        let offset = offset_after_all(data.len(), outcomes.drop_last()) as int;
        bytes_written(data, outcomes.drop_last()) + match outcomes.last() {
            IoOutcome::Moved(count) => data.subrange(
                offset,
                if offset + count < data.len() {
                    offset + count
                } else {
                    data.len() as int
                },
            ),
            _ => Seq::empty(),
        }
    }
}

/// However writing is cut into pieces and put off, what was written is the
/// front of the data, and all of it once writing is done.
pub proof fn law_writes_in_order(data: Seq<u8>, outcomes: Seq<IoOutcome>)
    ensures
        offset_after_all(data.len(), outcomes) <= data.len(),
        bytes_written(data, outcomes) == data.take(
            offset_after_all(data.len(), outcomes) as int,
        ),
        write_step(offset_after_all(data.len(), outcomes), data.len()) is Done ==> bytes_written(
            data,
            outcomes,
        ) == data,
    decreases outcomes.len(),
{
    if outcomes.len() == 0 {
        assert(data.take(0) =~= Seq::<u8>::empty());
    } else {
        law_writes_in_order(data, outcomes.drop_last());
        let before = offset_after_all(data.len(), outcomes.drop_last()) as int;
        let after = offset_after_all(data.len(), outcomes) as int;
        assert(data.take(before) + data.subrange(before, after) =~= data.take(after));
    }
    assert(data.take(data.len() as int) =~= data);
}

/// The numbers that some signal has on every system: SIGHUP, SIGINT, SIGQUIT,
/// SIGILL, SIGABRT, SIGFPE, SIGKILL, SIGSEGV, SIGALRM and SIGTERM are among them
/// everywhere, and the others name different signals on different systems.
pub open spec fn is_common_signal(number: int) -> bool {
    1 <= number <= 6 || 8 <= number <= 15 || number == 17 || number == 18 || number == 20 || number
        == 22 || number == 24 || number == 25 || number == 28 || number == 29
}

/// `nix::sys::signal::Signal::try_from` finds the signal with a number, and
/// its number is the one asked for. The numbers that some signal has on every
/// system are found; no signal has a number under 1 or over 64. Which others
/// there are depends on the machine, so nothing is said of them.
#[verifier::external_body]
fn signal_with_number(number: i32) -> (found: Option<i32>)
    ensures
        found matches Some(n) ==> n == number,
        is_common_signal(number as int) ==> found is Some,
        number < 1 || number > 64 ==> found is None,
{
    match Signal::try_from(number) {
        Ok(signal) => Some(signal as i32),
        Err(_) => None,
    }
}

/// A number that no signal has.
#[derive(Debug, Clone, Copy, PartialEq, Eq, Structural)]
pub struct InvalidSignal {
    /// The number.
    pub number: i32,
}

/// Takes a number for a signal, given what the machine knows by it.
pub fn checked_signal(number: i32, known: Option<i32>) -> (r: Result<i32, InvalidSignal>)
    ensures
        r == (match known {
            Some(signal) => Ok::<i32, InvalidSignal>(signal),
            None => Err(InvalidSignal { number }),
        }),
{
    match known {
        Some(signal) => Ok(signal),
        None => Err(InvalidSignal { number }),
    }
}

/// The signal to send to the shell for a number that a client sent.
pub fn child_signal(number: i32) -> (r: Result<i32, InvalidSignal>)
    ensures
        r matches Ok(signal) ==> signal == number,
        r matches Err(error) ==> error.number == number,
        is_common_signal(number as int) ==> r is Ok,
        number < 1 || number > 64 ==> r is Err,
{
    checked_signal(number, signal_with_number(number))
}

/// The bytes that the terminal reported to have taken in some attempts.
pub open spec fn moved(outcomes: Seq<IoOutcome>) -> nat
    decreases outcomes.len(),
{
    if outcomes.len() == 0 {
        0
    } else {
        moved(outcomes.drop_last()) + match outcomes.last() {
            IoOutcome::Moved(count) => count as nat,
            _ => 0,
        }
    }
}

/// As long as the terminal never takes more than there is, the position is the
/// sum of what it took, and writing is done only when that is everything.
pub proof fn law_position_is_what_was_taken(len: nat, outcomes: Seq<IoOutcome>)
    requires
        moved(outcomes) <= len <= usize::MAX,
    ensures
        offset_after_all(len, outcomes) == moved(outcomes),
        write_step(offset_after_all(len, outcomes), len) is Done <==> moved(outcomes) == len,
        moved(outcomes) < len ==> write_step(offset_after_all(len, outcomes), len)
            == WriteStep::WriteFrom(moved(outcomes) as usize),
    decreases outcomes.len(),
{
    if outcomes.len() > 0 {
        law_position_is_what_was_taken(len, outcomes.drop_last());
    }
}

/// An attempt that moved some bytes of what was left moves the position on by
/// exactly that many. Writing goes on from there, or is done when nothing is
/// left.
pub proof fn law_writing_goes_on_behind_what_was_taken(
    progress: &mut WriteProgress,
    count: usize,
    step: WriteStep,
)
    requires
        old(progress).written() + count <= old(progress).size() <= usize::MAX,
        call_ensures(WriteProgress::after_write, (progress, IoOutcome::Moved(count)), step),
    ensures
        final(progress).size() == old(progress).size(),
        final(progress).written() == old(progress).written() + count,
        old(progress).written() + count == old(progress).size() ==> step is Done,
        old(progress).written() + count < old(progress).size() ==> (
        step matches WriteStep::WriteFrom(next) && next == old(progress).written() + count),
{
}

/// An attempt that could not write yet moves nothing and is made again from the
/// same position, and a failure ends writing.
pub proof fn law_writing_waits_or_fails(
    waiting: &mut WriteProgress,
    again: WriteStep,
    failing: &mut WriteProgress,
    failed: WriteStep,
)
    requires
        old(waiting).written() < old(waiting).size() <= usize::MAX,
        call_ensures(WriteProgress::after_write, (waiting, IoOutcome::WouldBlock), again),
        call_ensures(WriteProgress::after_write, (failing, IoOutcome::Failed), failed),
    ensures
        final(waiting).written() == old(waiting).written(),
        final(waiting).size() == old(waiting).size(),
        again matches WriteStep::WriteFrom(next) && next == old(waiting).written(),
        failed is Fail,
{
}

/// Writing starts with the first byte, and there is something to write unless
/// there are no bytes at all.
pub proof fn law_writing_starts_at_the_front(len: usize, progress: WriteProgress, step: WriteStep)
    requires
        call_ensures(WriteProgress::new, (len,), progress),
        call_ensures(WriteProgress::next, (&progress,), step),
    ensures
        progress.written() == 0 && progress.size() == len,
        len > 0 ==> step == WriteStep::WriteFrom(0),
        len == 0 ==> step is Done,
{
}

/// What was read is the front of the buffer, byte for byte, and as long as the
/// read reported. A read that has to wait keeps the buffer.
pub proof fn law_read_gives_what_was_read(
    buffer: Vec<u8>,
    count: usize,
    done: ReadStep,
    again: ReadStep,
    failed: ReadStep,
)
    requires
        count <= buffer@.len(),
        call_ensures(after_read, (buffer, IoOutcome::Moved(count)), done),
        call_ensures(after_read, (buffer, IoOutcome::WouldBlock), again),
        call_ensures(after_read, (buffer, IoOutcome::Failed), failed),
    ensures
        done matches ReadStep::Done(data) && data@.len() == count && (forall|i: int|
            0 <= i < count ==> data@[i] == buffer@[i]),
        again matches ReadStep::Retry(kept) && kept@ == buffer@,
        failed is Fail,
{
}

/// The signal that the shell is sent is the one whose number came, and a number
/// that is refused is named.
pub proof fn law_signals_keep_their_number(
    number: i32,
    found: i32,
    r: Result<i32, InvalidSignal>,
    known: Result<i32, InvalidSignal>,
    unknown: Result<i32, InvalidSignal>,
)
    requires
        call_ensures(child_signal, (number,), r),
        call_ensures(checked_signal, (number, Some(found)), known),
        call_ensures(checked_signal, (number, None::<i32>), unknown),
    ensures
        match r {
            Ok(signal) => signal == number,
            Err(error) => error.number == number,
        },
        r is Ok ==> 1 <= number <= 64,
        1 <= number <= 6 || 8 <= number <= 15 || number == 17 || number == 18 || number == 20
            || number == 22 || number == 24 || number == 25 || number == 28 || number == 29 ==> r
            is Ok,
        known == Ok::<i32, InvalidSignal>(found),
        unknown matches Err(error) && error.number == number,
{
}

/// A command of several words is run as its first word, with all words as the
/// arguments: what stands before and after white space is split alike.
pub proof fn law_command_words_are_the_arguments(
    first: Seq<char>,
    c: char,
    command: &str,
    rest: &str,
    env_shell: Option<String>,
    argv: Vec<String>,
    found: Vec<String>,
)
    requires
        first.len() > 0,
        no_white(first),
        white_space(c),
        command@ == first.push(c) + rest@,
        call_ensures(shell_argv, (command, env_shell), argv),
        call_ensures(split_words, (rest,), found),
    ensures
        texts(argv@) == seq![first] + texts(found@),
{
    law_white_space_parts_words(first, c, rest@);
    law_solid_text_is_one_word(first);
}

/// A command without white space is the program and its only argument. One
/// without a word stands for the shell of the environment, or `/bin/sh`.
pub proof fn law_plain_commands_are_run_as_they_are(
    command: &str,
    env_shell: String,
    with_shell: Vec<String>,
    without: Vec<String>,
)
    requires
        call_ensures(shell_argv, (command, Some(env_shell)), with_shell),
        call_ensures(shell_argv, (command, None::<String>), without),
    ensures
        command@.len() > 0 && no_white(command@) ==> texts(with_shell@) == seq![command@] && texts(
            without@,
        ) == seq![command@],
        all_white(command@) ==> texts(with_shell@) == seq![env_shell@] && texts(without@) == seq![
            "/bin/sh"@,
        ],
{
    law_solid_text_is_one_word(command@);
}

/// The terminal type is set exactly where the environment names none.
pub proof fn law_terminal_type_is_set_where_missing(is_set: bool, term: Option<&'static str>)
    requires
        call_ensures(term_to_set, (is_set,), term),
    ensures
        is_set ==> term is None,
        !is_set ==> (term matches Some(name) && name@ == "xterm-256color"@),
{
}

/// What one read from the terminal or the keyboard gives fits a packet, and the
/// terminal's fits a backlog of the usual size.
pub proof fn law_reads_fit()
    ensures
        0 < READ_BUFFER_LEN <= MAX_PAYLOAD,
        READ_BUFFER_LEN <= DEFAULT_LIMIT,
        0 < STDIN_BUFFER_LEN <= MAX_PAYLOAD,
{
}

} // verus!
