//! What the reader of the terminal decides: which output is kept and sent to
//! the clients, and how they learn that the shell ended.
use bytes::Bytes;
use vstd::prelude::*;
use crate::buffer::{bytes_content, bytes_from_vec};
use crate::protocol::{ExitStatus, Packet, PacketView};
use crate::server::backlog::{
    after_push, data_packets, kept, law_kept_is_longest, lemma_kept_then_push, total, Backlog,
};
use crate::server::daemon::{exit_only_last, fed, FeedEvent};

verus! {

/// The pause after the exit status was sent to the clients, in milliseconds.
pub const EXIT_DELIVERY_MS: u64 = 50;

/// What reading the terminal gave.
pub enum TerminalRead {
    Output(Vec<u8>),
    Failed,
}

/// What waiting for the shell gave.
#[derive(Debug, Clone, Copy, PartialEq, Eq, Structural)]
pub enum WaitOutcome {
    /// The shell exited with this code.
    Exited(i32),
    /// This signal killed the shell.
    Signaled(i32),
    /// Anything else: the shell still runs, or waiting failed.
    Unknown,
}

/// The exit status that a wait shows.
pub open spec fn shell_status(outcome: WaitOutcome) -> ExitStatus {
    match outcome {
        WaitOutcome::Exited(code) => ExitStatus { code: Some(code), signal: None },
        WaitOutcome::Signaled(signal) => ExitStatus { code: None, signal: Some(signal) },
        WaitOutcome::Unknown => ExitStatus { code: None, signal: None },
    }
}

/// The exit status that the clients are told.
pub fn exit_status(outcome: WaitOutcome) -> (status: ExitStatus)
    ensures
        status == shell_status(outcome),
{
    match outcome {
        WaitOutcome::Exited(code) => ExitStatus::from_code(code),
        WaitOutcome::Signaled(signal) => ExitStatus::from_signal(signal),
        WaitOutcome::Unknown => ExitStatus { code: None, signal: None },
    }
}

/// What came of the reader's last step.
pub enum ReaderEvent {
    /// The terminal was read.
    Read(TerminalRead),
    /// The shell was waited for.
    Waited(WaitOutcome),
}

/// What the reader does next.
pub enum ReaderAction {
    /// Record the packet in the backlog, send it to every client and read on.
    Broadcast(Packet),
    /// The terminal was closed: wait for the shell.
    EndOfOutput,
    /// Report the failed read and wait for the shell.
    ReportReadError,
    /// Send the packet to every client, pause for this many milliseconds and
    /// stop.
    BroadcastLast(Packet, u64),
    /// The event does not answer the step before: do nothing.
    Unexpected,
}

/// What an action of the reader says.
pub enum ReaderActionView {
    Broadcast(PacketView),
    EndOfOutput,
    ReportReadError,
    BroadcastLast(PacketView, u64),
    Unexpected,
}

impl View for ReaderAction {
    type V = ReaderActionView;

    open spec fn view(&self) -> ReaderActionView {
        match *self {
            ReaderAction::Broadcast(packet) => ReaderActionView::Broadcast(packet@),
            ReaderAction::EndOfOutput => ReaderActionView::EndOfOutput,
            ReaderAction::ReportReadError => ReaderActionView::ReportReadError,
            ReaderAction::BroadcastLast(packet, pause_ms) => ReaderActionView::BroadcastLast(
                packet@,
                pause_ms,
            ),
            ReaderAction::Unexpected => ReaderActionView::Unexpected,
        }
    }
}

/// The step whose outcome the reader awaits.
#[derive(Debug, Clone, Copy, PartialEq, Eq, Structural)]
pub enum ReaderPhase {
    Reading,
    WaitingForShell,
    Ended,
}

impl ReaderPhase {
    /// The phase that an event leads to, and what to do. An empty read is the
    /// end of the output.
    pub open spec fn step(self, event: ReaderEvent) -> (ReaderPhase, ReaderActionView) {
        match (self, event) {
            (ReaderPhase::Reading, ReaderEvent::Read(TerminalRead::Output(data))) => if data@.len()
                > 0 {
                (ReaderPhase::Reading, ReaderActionView::Broadcast(PacketView::Data(data@)))
            } else {
                (ReaderPhase::WaitingForShell, ReaderActionView::EndOfOutput)
            },
            (ReaderPhase::Reading, ReaderEvent::Read(TerminalRead::Failed)) => (
                ReaderPhase::WaitingForShell,
                ReaderActionView::ReportReadError,
            ),
            (ReaderPhase::WaitingForShell, ReaderEvent::Waited(outcome)) => (
                ReaderPhase::Ended,
                ReaderActionView::BroadcastLast(
                    PacketView::Exit(shell_status(outcome)),
                    EXIT_DELIVERY_MS,
                ),
            ),
            _ => (self, ReaderActionView::Unexpected),
        }
    }
}

/// The decisions of the task that reads the terminal.
#[derive(Debug)]
pub struct Reader {
    phase: ReaderPhase,
}

impl View for Reader {
    type V = ReaderPhase;

    closed spec fn view(&self) -> ReaderPhase {
        self.phase
    }
}

impl Reader {
    /// Nothing was read yet.
    pub fn new() -> (reader: Self)
        ensures
            reader@ == ReaderPhase::Reading,
    {
        Reader { phase: ReaderPhase::Reading }
    }

    /// Decides what the outcome of the last step leads to.
    pub fn step(&mut self, event: ReaderEvent) -> (action: ReaderAction)
        ensures
            (final(self)@, action@) == old(self)@.step(event),
    {
        match (self.phase, event) {
            (ReaderPhase::Reading, ReaderEvent::Read(TerminalRead::Output(data))) => {
                if data.len() == 0 {
                    self.phase = ReaderPhase::WaitingForShell;
                    return ReaderAction::EndOfOutput;
                }
                ReaderAction::Broadcast(Packet::Data(bytes_from_vec(data)))
            },
            (ReaderPhase::Reading, ReaderEvent::Read(TerminalRead::Failed)) => {
                self.phase = ReaderPhase::WaitingForShell;
                ReaderAction::ReportReadError
            },
            (ReaderPhase::WaitingForShell, ReaderEvent::Waited(outcome)) => {
                self.phase = ReaderPhase::Ended;
                ReaderAction::BroadcastLast(Packet::Exit(exit_status(outcome)), EXIT_DELIVERY_MS)
            },
            _ => ReaderAction::Unexpected,
        }
    }
}

/// What a backlog with these chunks holds once a packet was recorded.
pub open spec fn after_record(
    chunks: Seq<Seq<u8>>,
    packet: PacketView,
    limit: nat,
) -> Seq<Seq<u8>> {
    match packet {
        PacketView::Data(data) => after_push(chunks, data, limit),
        _ => chunks,
    }
}

/// Records a packet for clients that attach later: output goes to the backlog.
pub fn record(backlog: &mut Backlog, packet: &Packet)
    requires
        old(backlog).wf(),
        packet@ matches PacketView::Data(data) ==> total(old(backlog)@) + data.len() <= usize::MAX,
    ensures
        final(backlog).wf(),
        final(backlog).byte_limit() == old(backlog).byte_limit(),
        final(backlog)@ == after_record(old(backlog)@, packet@, old(backlog).byte_limit() as nat),
{
    match packet {
        Packet::Data(data) => {
            backlog.push(data.clone());
        },
        _ => {},
    }
}

/// The phase of a reader after some events, first to last.
pub open spec fn reader_after(phase: ReaderPhase, events: Seq<ReaderEvent>) -> ReaderPhase
    decreases events.len(),
{
    if events.len() == 0 {
        phase
    } else {
        reader_after(phase.step(events[0]).0, events.drop_first())
    }
}

/// The packets that a reader sends to every client on some events, first to
/// last.
pub open spec fn broadcasts(phase: ReaderPhase, events: Seq<ReaderEvent>) -> Seq<PacketView>
    decreases events.len(),
{
    if events.len() == 0 {
        Seq::empty()
    } else {
        let (next, action) = phase.step(events[0]);
        let later = broadcasts(next, events.drop_first());
        match action {
            ReaderActionView::Broadcast(packet) => seq![packet] + later,
            ReaderActionView::BroadcastLast(packet, _) => seq![packet] + later,
            _ => later,
        }
    }
}

/// The event ends the output: an empty read or a failed one.
pub open spec fn ends_output(event: ReaderEvent) -> bool {
    match event {
        ReaderEvent::Read(TerminalRead::Output(data)) => data@.len() == 0,
        ReaderEvent::Read(TerminalRead::Failed) => true,
        ReaderEvent::Waited(_) => false,
    }
}

/// The output that an event brings.
pub open spec fn output_of(event: ReaderEvent) -> Seq<u8> {
    match event {
        ReaderEvent::Read(TerminalRead::Output(data)) => data@,
        _ => Seq::empty(),
    }
}

/// The status names the code that the shell exited with, or the signal that
/// killed it, or neither if the wait showed neither.
pub open spec fn tells(status: ExitStatus, outcome: WaitOutcome) -> bool {
    match outcome {
        WaitOutcome::Exited(code) => status.code == Some(code) && status.signal is None,
        WaitOutcome::Signaled(signal) => status.signal == Some(signal) && status.code is None,
        WaitOutcome::Unknown => status.code is None && status.signal is None,
    }
}

/// Whatever happens, the clients are sent terminal output only, and at most
/// one exit status, as the last packet. A reader has ended exactly when the
/// exit status was sent.
pub proof fn law_exit_is_sent_once_and_last(events: Seq<ReaderEvent>)
    ensures
        ({
            let sent = broadcasts(ReaderPhase::Reading, events);
            &&& exit_only_last(sent)
            &&& reader_after(ReaderPhase::Reading, events) is Ended <==> sent.len() > 0
                && sent.last() is Exit
        }),
{
    lemma_broadcasts(ReaderPhase::Reading, events);
}

/// A session is sent to the clients whole: each chunk of output in order, and
/// once reading ended, by an empty read or a failed one, exactly one exit
/// status, the one that the wait for the shell showed. Then the reader ends.
pub proof fn law_session_is_broadcast(
    reads: Seq<ReaderEvent>,
    end: ReaderEvent,
    outcome: WaitOutcome,
)
    requires
        forall|i: int| 0 <= i < reads.len() ==> output_of(#[trigger] reads[i]).len() > 0,
        ends_output(end),
    ensures
        ({
            let events = reads.push(end).push(ReaderEvent::Waited(outcome));
            let sent = broadcasts(ReaderPhase::Reading, events);
            &&& sent.len() == reads.len() + 1
            &&& forall|i: int|
                0 <= i < reads.len() ==> sent[i] == PacketView::Data(output_of(#[trigger] reads[i]))
            &&& sent.last() matches PacketView::Exit(status) && tells(status, outcome)
            &&& reader_after(ReaderPhase::Reading, events) is Ended
        }),
    decreases reads.len(),
{
    let waited = ReaderEvent::Waited(outcome);
    let events = reads.push(end).push(waited);
    let expected = Seq::new(reads.len(), |i: int| PacketView::Data(output_of(reads[i]))).push(
        PacketView::Exit(shell_status(outcome)),
    );
    let sent = broadcasts(ReaderPhase::Reading, events);
    if reads.len() == 0 {
        assert(events[0] == end);
        let rest = events.drop_first();
        assert(rest =~= seq![waited]);
        assert(rest.drop_first() =~= Seq::empty());
        assert(broadcasts(ReaderPhase::Ended, rest.drop_first()) =~= Seq::empty());
        assert(broadcasts(ReaderPhase::WaitingForShell, rest) =~= seq![
            PacketView::Exit(shell_status(outcome)),
        ]);
        assert(reader_after(ReaderPhase::WaitingForShell, rest) is Ended) by {
            assert(reader_after(ReaderPhase::Ended, rest.drop_first()) is Ended);
        }
        assert(sent == expected);
    } else {
        let later = reads.drop_first();
        assert(events[0] == reads[0]);
        assert(events.drop_first() =~= later.push(end).push(waited));
        assert forall|i: int| 0 <= i < later.len() implies output_of(#[trigger] later[i]).len()
            > 0 by {
            assert(later[i] == reads[i + 1]);
        }
        law_session_is_broadcast(later, end, outcome);
        let more = broadcasts(ReaderPhase::Reading, events.drop_first());
        assert(sent =~= seq![PacketView::Data(output_of(reads[0]))] + more);
        assert forall|i: int| 0 <= i < reads.len() implies sent[i] == PacketView::Data(
            output_of(#[trigger] reads[i]),
        ) by {
            if i > 0 {
                assert(later[i - 1] == reads[i]);
                assert(more[i - 1] == PacketView::Data(output_of(later[i - 1])));
            }
        }
    }
}

/// A client that misses nothing is sent exactly what the reader sent to all.
pub proof fn law_clients_get_what_is_broadcast(events: Seq<ReaderEvent>, feed: Seq<FeedEvent>)
    requires
        feed.len() == broadcasts(ReaderPhase::Reading, events).len(),
        forall|i: int|
            0 <= i < feed.len() ==> ((#[trigger] feed[i]) matches FeedEvent::Broadcast(packet)
                && packet@ == broadcasts(ReaderPhase::Reading, events)[i]),
    ensures
        fed(feed) == broadcasts(ReaderPhase::Reading, events),
{
    lemma_broadcasts(ReaderPhase::Reading, events);
    lemma_fed(broadcasts(ReaderPhase::Reading, events), feed);
}

/// What the reader does on some events, first to last.
pub open spec fn reader_actions(phase: ReaderPhase, events: Seq<ReaderEvent>) -> Seq<
    ReaderActionView,
>
    decreases events.len(),
{
    if events.len() == 0 {
        Seq::empty()
    } else {
        let (next, action) = phase.step(events[0]);
        seq![action] + reader_actions(next, events.drop_first())
    }
}

/// The event is an outcome of the action. Sending the last packet has none.
pub open spec fn reader_answers(action: ReaderActionView, event: ReaderEvent) -> bool {
    match action {
        ReaderActionView::Broadcast(_) => event is Read,
        ReaderActionView::EndOfOutput => event is Waited,
        ReaderActionView::ReportReadError => event is Waited,
        ReaderActionView::BroadcastLast(_, _) => false,
        ReaderActionView::Unexpected => false,
    }
}

/// The events are those of a caller that first reads the terminal and then
/// hands back the outcome of each action.
pub open spec fn reader_in_turn(events: Seq<ReaderEvent>) -> bool {
    &&& events.len() > 0 ==> events[0] is Read
    &&& forall|i: int|
        1 <= i < events.len() ==> reader_answers(
            reader_actions(ReaderPhase::Reading, events)[i - 1],
            #[trigger] events[i],
        )
}

/// A caller that hands back the outcome of each action is never told that an
/// event was unexpected. It is told to send the last packet within two events
/// from the end of the output on, and nothing after that.
pub proof fn law_reader_ends_after_output(events: Seq<ReaderEvent>)
    requires
        reader_in_turn(events),
    ensures
        ({
            let actions = reader_actions(ReaderPhase::Reading, events);
            &&& actions.len() == events.len()
            &&& forall|i: int| 0 <= i < actions.len() ==> !((#[trigger] actions[i]) is Unexpected)
            &&& forall|i: int|
                0 <= i < events.len() && ends_output(#[trigger] events[i]) ==> events.len() <= i
                    + 2 && (events.len() == i + 2 ==> actions.last() is BroadcastLast)
            &&& forall|i: int|
                0 <= i < actions.len() && (#[trigger] actions[i]) is BroadcastLast ==> i
                    == actions.len() - 1
        }),
{
    lemma_reader_in_turn(ReaderPhase::Reading, events);
}

/// The reader can take the event in this phase.
spec fn reader_fits(phase: ReaderPhase, event: ReaderEvent) -> bool {
    match phase {
        ReaderPhase::Reading => event is Read,
        ReaderPhase::WaitingForShell => event is Waited,
        ReaderPhase::Ended => false,
    }
}

proof fn lemma_reader_in_turn(phase: ReaderPhase, events: Seq<ReaderEvent>)
    requires
        events.len() > 0 ==> reader_fits(phase, events[0]),
        forall|i: int|
            1 <= i < events.len() ==> reader_answers(
                reader_actions(phase, events)[i - 1],
                #[trigger] events[i],
            ),
    ensures
        ({
            let actions = reader_actions(phase, events);
            &&& actions.len() == events.len()
            &&& forall|i: int| 0 <= i < actions.len() ==> !((#[trigger] actions[i]) is Unexpected)
            &&& forall|i: int|
                0 <= i < events.len() && ends_output(#[trigger] events[i]) ==> events.len() <= i
                    + 2 && (events.len() == i + 2 ==> actions.last() is BroadcastLast)
            &&& forall|i: int|
                0 <= i < actions.len() && (#[trigger] actions[i]) is BroadcastLast ==> i
                    == actions.len() - 1
            &&& phase is WaitingForShell && events.len() > 0 ==> events.len() == 1
                && actions[0] is BroadcastLast
            &&& phase is Ended ==> events.len() == 0
        }),
    decreases events.len(),
{
    if events.len() > 0 {
        let (next, action) = phase.step(events[0]);
        let rest = events.drop_first();
        let actions = reader_actions(phase, events);
        let later = reader_actions(next, rest);
        assert(actions[0] == action);
        assert(forall|i: int| 0 <= i < later.len() ==> (#[trigger] later[i]) == actions[i + 1]);
        lemma_reader_lengths(next, rest);
        if rest.len() > 0 {
            assert(reader_answers(actions[0], events[1]));
        }
        assert forall|i: int| 1 <= i < rest.len() implies reader_answers(
            later[i - 1],
            #[trigger] rest[i],
        ) by {
            assert(rest[i] == events[i + 1]);
        }
        lemma_reader_in_turn(next, rest);
        assert forall|i: int| 0 <= i < actions.len() implies !((#[trigger] actions[i])
            is Unexpected) && (actions[i] is BroadcastLast ==> i == actions.len() - 1) by {
            if i > 0 {
                assert(actions[i] == later[i - 1]);
            }
        }
        assert forall|i: int| 0 <= i < events.len() && ends_output(#[trigger] events[i]) implies
            events.len() <= i + 2 && (events.len() == i + 2 ==> actions.last()
            is BroadcastLast) by {
            if i > 0 {
                assert(events[i] == rest[i - 1]);
            }
            if rest.len() > 0 {
                assert(actions.last() == later.last());
            }
        }
    }
}

proof fn lemma_reader_lengths(phase: ReaderPhase, events: Seq<ReaderEvent>)
    ensures
        reader_actions(phase, events).len() == events.len(),
    decreases events.len(),
{
    if events.len() > 0 {
        lemma_reader_lengths(phase.step(events[0]).0, events.drop_first());
    }
}

/// What a backlog that starts empty holds once all these packets were
/// recorded, first to last.
pub open spec fn recorded(packets: Seq<PacketView>, limit: nat) -> Seq<Seq<u8>>
    decreases packets.len(),
{
    if packets.len() == 0 {
        Seq::empty()
    } else {
        after_record(recorded(packets.drop_last(), limit), packets.last(), limit)
    }
}

/// The output that events bring, chunk by chunk, up to the end of the output.
pub open spec fn outputs(events: Seq<ReaderEvent>) -> Seq<Seq<u8>>
    decreases events.len(),
{
    if events.len() == 0 || ends_output(events[0]) {
        Seq::empty()
    } else if events[0] is Waited {
        outputs(events.drop_first())
    } else {
        seq![output_of(events[0])] + outputs(events.drop_first())
    }
}

/// A client that attaches late is shown the newest output: a backlog in which
/// every packet that was sent to the clients is recorded holds the longest run
/// of the newest chunks of output within its limit, and the packets that show
/// it are the last output packets that were sent.
pub proof fn law_late_client_sees_newest_output(events: Seq<ReaderEvent>, limit: nat)
    ensures
        ({
            let held = recorded(broadcasts(ReaderPhase::Reading, events), limit);
            &&& held == kept(outputs(events), limit)
            &&& held.len() <= outputs(events).len()
            &&& data_packets(held) == data_packets(outputs(events)).skip(
                outputs(events).len() - held.len(),
            )
            &&& forall|i: int|
                0 <= i < held.len() ==> (#[trigger] data_packets(held)[i]) == PacketView::Data(
                    outputs(events)[outputs(events).len() - held.len() + i],
                )
        }),
{
    let sent = broadcasts(ReaderPhase::Reading, events);
    let chunks = outputs(events);
    lemma_broadcast_outputs(events);
    lemma_recorded(chunks, limit);
    if sent.len() > chunks.len() {
        assert(sent.drop_last() =~= data_packets(chunks));
    } else {
        assert(sent =~= data_packets(chunks));
    }
    law_kept_is_longest(chunks, limit);
    let held = kept(chunks, limit);
    assert(data_packets(held) =~= data_packets(chunks).skip(chunks.len() - held.len()));
}

/// What is broadcast is the output, and perhaps an exit status.
proof fn lemma_broadcast_outputs(events: Seq<ReaderEvent>)
    ensures
        ({
            let sent = broadcasts(ReaderPhase::Reading, events);
            let chunks = outputs(events);
            &&& chunks.len() <= sent.len() <= chunks.len() + 1
            &&& sent.take(chunks.len() as int) == data_packets(chunks)
            &&& sent.len() > chunks.len() ==> sent.last() is Exit
            &&& forall|i: int| 0 <= i < chunks.len() ==> (#[trigger] chunks[i]).len() > 0
        }),
    decreases events.len(),
{
    let sent = broadcasts(ReaderPhase::Reading, events);
    let chunks = outputs(events);
    if events.len() > 0 {
        let rest = events.drop_first();
        if ends_output(events[0]) {
            lemma_broadcasts_when_waiting(rest);
        } else {
            lemma_broadcast_outputs(rest);
            if events[0] is Read {
                let later = outputs(rest);
                assert forall|i: int| 0 <= i < chunks.len() implies (#[trigger] chunks[i]).len()
                    > 0 by {
                    if i > 0 {
                        assert(chunks[i] == later[i - 1]);
                    }
                }
                let more = broadcasts(ReaderPhase::Reading, rest);
                assert(sent =~= seq![PacketView::Data(output_of(events[0]))] + more);
                assert forall|i: int| 0 <= i < chunks.len() implies sent[i] == PacketView::Data(
                    #[trigger] chunks[i],
                ) by {
                    if i > 0 {
                        assert(sent[i] == more.take(later.len() as int)[i - 1]);
                    }
                }
                if sent.len() > chunks.len() {
                    assert(sent.last() == more.last());
                }
            }
        }
    }
    assert(sent.take(chunks.len() as int) =~= data_packets(chunks));
}

proof fn lemma_broadcasts_when_waiting(events: Seq<ReaderEvent>)
    ensures
        ({
            let sent = broadcasts(ReaderPhase::WaitingForShell, events);
            &&& sent.len() <= 1
            &&& sent.len() == 1 ==> sent[0] is Exit
        }),
    decreases events.len(),
{
    if events.len() > 0 {
        if events[0] is Waited {
            lemma_broadcasts(ReaderPhase::Ended, events.drop_first());
        } else {
            lemma_broadcasts_when_waiting(events.drop_first());
        }
    }
}

proof fn lemma_recorded(chunks: Seq<Seq<u8>>, limit: nat)
    requires
        forall|i: int| 0 <= i < chunks.len() ==> (#[trigger] chunks[i]).len() > 0,
    ensures
        recorded(data_packets(chunks), limit) == kept(chunks, limit),
    decreases chunks.len(),
{
    if chunks.len() > 0 {
        let earlier = chunks.drop_last();
        lemma_recorded(earlier, limit);
        assert(data_packets(chunks).drop_last() =~= data_packets(earlier));
        assert(data_packets(chunks).last() == PacketView::Data(chunks.last()));
        lemma_kept_then_push(earlier, chunks.last(), limit);
        assert(earlier.push(chunks.last()) =~= chunks);
        assert(chunks.last().len() > 0);
    }
}

proof fn lemma_broadcasts(phase: ReaderPhase, events: Seq<ReaderEvent>)
    ensures
        exit_only_last(broadcasts(phase, events)),
        phase is Ended ==> broadcasts(phase, events).len() == 0 && reader_after(
            phase,
            events,
        ) is Ended,
        !(phase is Ended) ==> (reader_after(phase, events) is Ended <==> broadcasts(
            phase,
            events,
        ).len() > 0 && broadcasts(phase, events).last() is Exit),
    decreases events.len(),
{
    if events.len() > 0 {
        let (next, action) = phase.step(events[0]);
        let sent = broadcasts(phase, events);
        let later = broadcasts(next, events.drop_first());
        lemma_broadcasts(next, events.drop_first());
        assert forall|i: int| 0 <= i < sent.len() implies (#[trigger] sent[i]) is Data || (sent[i]
            is Exit && i == sent.len() - 1) by {
            if action is Broadcast && i > 0 {
                assert(sent[i] == later[i - 1]);
            }
        }
        if action is Broadcast && later.len() > 0 {
            assert(sent.last() == later.last());
        }
    }
}

proof fn lemma_fed(packets: Seq<PacketView>, feed: Seq<FeedEvent>)
    requires
        exit_only_last(packets),
        feed.len() == packets.len(),
        forall|i: int|
            0 <= i < feed.len() ==> ((#[trigger] feed[i]) matches FeedEvent::Broadcast(packet)
                && packet@ == packets[i]),
    ensures
        fed(feed) == packets,
    decreases packets.len(),
{
    if packets.len() == 0 {
        assert(fed(feed) =~= packets);
    } else {
        let later = packets.drop_first();
        assert forall|i: int| 0 <= i < later.len() implies (#[trigger] later[i]) is Data || (
        later[i] is Exit && i == later.len() - 1) by {
            assert(later[i] == packets[i + 1]);
        }
        assert forall|i: int| 0 <= i < later.len() implies ((#[trigger] feed.drop_first()[i])
            matches FeedEvent::Broadcast(packet) && packet@ == later[i]) by {
            assert(feed.drop_first()[i] == feed[i + 1]);
        }
        lemma_fed(later, feed.drop_first());
        assert(feed[0] is Broadcast && packets[0] is Data || packets.len() == 1);
        assert(fed(feed) =~= packets);
    }
}

/// The status that the clients are told has exactly the code that the shell
/// exited with, or exactly the signal that killed it, and else neither.
pub proof fn law_exit_status_names_code_or_signal(
    code: i32,
    exited: ExitStatus,
    signal: i32,
    killed: ExitStatus,
    unknown: ExitStatus,
)
    requires
        call_ensures(exit_status, (WaitOutcome::Exited(code),), exited),
        call_ensures(exit_status, (WaitOutcome::Signaled(signal),), killed),
        call_ensures(exit_status, (WaitOutcome::Unknown,), unknown),
    ensures
        exited.code == Some(code) && exited.signal is None,
        killed.signal == Some(signal) && killed.code is None,
        unknown.code is None && unknown.signal is None,
{
}

/// What a reader that reads does with what it read: output is sent on byte for
/// byte and reading goes on, an empty read and a failed one end it.
pub proof fn law_reading_sends_output_on(
    reader: &mut Reader,
    data: Vec<u8>,
    action: ReaderAction,
    failing: &mut Reader,
    failed: ReaderAction,
)
    requires
        old(reader)@ is Reading,
        call_ensures(
            Reader::step,
            (reader, ReaderEvent::Read(TerminalRead::Output(data))),
            action,
        ),
        old(failing)@ is Reading,
        call_ensures(Reader::step, (failing, ReaderEvent::Read(TerminalRead::Failed)), failed),
    ensures
        data@.len() > 0 ==> final(reader)@ is Reading && (action matches ReaderAction::Broadcast(
            Packet::Data(bytes),
        ) && bytes_content(bytes) == data@),
        data@.len() == 0 ==> final(reader)@ is WaitingForShell && action is EndOfOutput,
        final(failing)@ is WaitingForShell,
        failed is ReportReadError,
{
}

/// What a reader that waits for the shell sends: the code or the signal that
/// the wait showed, with 50 milliseconds for the clients to take it.
pub proof fn law_waiting_sends_the_exit(
    reader: &mut Reader,
    outcome: WaitOutcome,
    action: ReaderAction,
)
    requires
        old(reader)@ is WaitingForShell,
        call_ensures(Reader::step, (reader, ReaderEvent::Waited(outcome)), action),
    ensures
        final(reader)@ is Ended,
        action matches ReaderAction::BroadcastLast(Packet::Exit(status), pause_ms) && pause_ms
            == 50 && tells(status, outcome),
{
}

/// A reader starts with reading. What comes out of turn changes nothing, and
/// nothing comes after the end.
pub proof fn law_reader_ignores_what_is_out_of_turn(
    fresh: Reader,
    reader: &mut Reader,
    event: ReaderEvent,
    action: ReaderAction,
)
    requires
        call_ensures(Reader::new, (), fresh),
        call_ensures(Reader::step, (reader, event), action),
    ensures
        fresh@ is Reading,
        old(reader)@ is Reading && event is Waited ==> action is Unexpected,
        old(reader)@ is WaitingForShell && event is Read ==> action is Unexpected,
        old(reader)@ is Ended ==> action is Unexpected,
        action is Unexpected ==> final(reader)@ == old(reader)@,
{
}

/// Recording output puts its bytes into the backlog as a push of them does, and
/// recording anything else changes nothing.
pub proof fn law_recording_keeps_output(
    recording: &mut Backlog,
    packet: Packet,
    pushing: &mut Backlog,
    data: Bytes,
)
    requires
        call_ensures(record, (recording, &packet), ()),
        call_ensures(Backlog::push, (pushing, data), ()),
        old(pushing)@ == old(recording)@,
        old(pushing).byte_limit() == old(recording).byte_limit(),
    ensures
        final(recording).byte_limit() == old(recording).byte_limit(),
        packet matches Packet::Data(output) ==> bytes_content(output) == bytes_content(data)
            ==> final(recording)@ == final(pushing)@,
        !(packet is Data) ==> final(recording)@ == old(recording)@,
{
}

} // verus!
