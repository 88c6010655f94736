//! What the daemon decides: whom it serves, what a command does, when it
//! stops, what a client is sent, and what is taken from it.
use bytes::{Bytes, BytesMut};
use vstd::prelude::*;
use crate::buffer::{bytes_content, bytes_mut_content};
use crate::client::joined;
use crate::protocol::{Packet, PacketCodec, PacketView, ProtocolError, MAX_PAYLOAD};
use crate::protocol_laws::{decoded_times, frames, law_calls_round_trip, law_stream_in_order};
use crate::server::backlog::data_packets;

verus! {

/// Maximum number of concurrent client connections.
pub const MAX_CLIENTS: usize = 8;

/// How a task of the daemon ended.
#[derive(Debug, Clone, Copy, PartialEq, Eq, Structural)]
pub enum TaskEnd {
    Completed,
    Cancelled,
    Panicked,
}

/// What the daemon waits for.
pub enum Event {
    /// SIGTERM arrived.
    Terminate,
    /// SIGINT arrived.
    Interrupt,
    /// A client connected.
    ClientArrived,
    /// Taking a connection failed.
    AcceptFailed,
    /// A client sent a packet.
    Command(Packet),
    /// The task of a client that was served ended.
    ClientEnded(TaskEnd),
    /// The task that reads the terminal ended, and with it the shell.
    ShellEnded(TaskEnd),
}

/// Why the daemon stops.
#[derive(Debug, Clone, Copy, PartialEq, Eq, Structural)]
pub enum Cause {
    Terminate,
    Interrupt,
    ShellEnded,
    /// The task that reads the terminal panicked.
    ReaderPanicked,
}

/// What the daemon does next.
pub enum Action {
    /// Start a task for the new client.
    ServeClient,
    /// Drop the new connection: there are `MAX_CLIENTS` clients already.
    RefuseClient,
    /// Report that a connection could not be taken.
    ReportAcceptError,
    /// Write to the terminal.
    WriteTerminal(Bytes),
    /// Set the terminal's window size: columns, then rows.
    ResizeTerminal(u16, u16),
    /// Send the shell a signal.
    SignalShell(i32),
    /// Report that a client sent an exit status, which only the daemon does.
    ReportUnexpectedExit,
    /// Report that the task of a client panicked.
    ReportClientPanic,
    /// Wait for the next event.
    Wait,
    /// Leave the loop and clean up.
    ShutDown(Cause),
}

/// The daemon's state.
pub struct DaemonState {
    /// The clients that are served.
    pub clients: nat,
    /// The daemon has not decided to stop.
    pub running: bool,
}

impl DaemonState {
    /// The state that an event leads to.
    pub open spec fn after(self, event: Event) -> DaemonState {
        match event {
            Event::ClientArrived => if self.clients < MAX_CLIENTS {
                DaemonState { clients: self.clients + 1, ..self }
            } else {
                self
            },
            Event::ClientEnded(_) => if self.clients > 0 {
                DaemonState { clients: (self.clients - 1) as nat, ..self }
            } else {
                self
            },
            Event::Terminate | Event::Interrupt | Event::ShellEnded(_) => DaemonState {
                running: false,
                ..self
            },
            Event::AcceptFailed | Event::Command(_) => self,
        }
    }

    /// What the daemon does on an event.
    pub open spec fn action(self, event: Event) -> Action {
        match event {
            Event::Terminate => Action::ShutDown(Cause::Terminate),
            Event::Interrupt => Action::ShutDown(Cause::Interrupt),
            Event::ClientArrived => if self.clients < MAX_CLIENTS {
                Action::ServeClient
            } else {
                Action::RefuseClient
            },
            Event::AcceptFailed => Action::ReportAcceptError,
            Event::Command(Packet::Data(data)) => Action::WriteTerminal(data),
            Event::Command(Packet::Resize(cols, rows)) => Action::ResizeTerminal(cols, rows),
            Event::Command(Packet::Signal(signal)) => Action::SignalShell(signal),
            Event::Command(Packet::Exit(_)) => Action::ReportUnexpectedExit,
            Event::ClientEnded(TaskEnd::Panicked) => Action::ReportClientPanic,
            Event::ClientEnded(_) => Action::Wait,
            Event::ShellEnded(TaskEnd::Panicked) => Action::ShutDown(Cause::ReaderPanicked),
            Event::ShellEnded(_) => Action::ShutDown(Cause::ShellEnded),
        }
    }
}

/// The decisions of the daemon's main loop.
#[derive(Debug)]
pub struct Daemon {
    clients: usize,
    running: bool,
}

impl View for Daemon {
    type V = DaemonState;

    closed spec fn view(&self) -> DaemonState {
        DaemonState { clients: self.clients as nat, running: self.running }
    }
}

impl Daemon {
    /// A daemon without clients.
    pub fn new() -> (daemon: Self)
        ensures
            daemon@ == (DaemonState { clients: 0, running: true }),
    {
        Daemon { clients: 0, running: true }
    }

    /// The number of clients that are served.
    pub fn clients(&self) -> (count: usize)
        ensures
            count == self@.clients,
    {
        self.clients
    }

    /// Tells whether the daemon has not decided to stop.
    pub fn is_running(&self) -> (running: bool)
        ensures
            running == self@.running,
    {
        self.running
    }

    /// Decides what an event leads to.
    pub fn step(&mut self, event: Event) -> (action: Action)
        ensures
            final(self)@ == old(self)@.after(event),
            action == old(self)@.action(event),
    {
        match event {
            Event::Terminate => {
                self.running = false;
                Action::ShutDown(Cause::Terminate)
            },
            Event::Interrupt => {
                self.running = false;
                Action::ShutDown(Cause::Interrupt)
            },
            Event::ClientArrived => {
                if self.clients >= MAX_CLIENTS {
                    return Action::RefuseClient;
                }
                self.clients += 1;
                Action::ServeClient
            },
            Event::AcceptFailed => Action::ReportAcceptError,
            Event::Command(command) => match command {
                Packet::Data(data) => Action::WriteTerminal(data),
                Packet::Resize(cols, rows) => Action::ResizeTerminal(cols, rows),
                Packet::Signal(signal) => Action::SignalShell(signal),
                Packet::Exit(_) => Action::ReportUnexpectedExit,
            },
            Event::ClientEnded(end) => {
                if self.clients > 0 {
                    self.clients -= 1;
                }
                match end {
                    TaskEnd::Panicked => Action::ReportClientPanic,
                    _ => Action::Wait,
                }
            },
            Event::ShellEnded(end) => {
                self.running = false;
                match end {
                    TaskEnd::Panicked => Action::ShutDown(Cause::ReaderPanicked),
                    _ => Action::ShutDown(Cause::ShellEnded),
                }
            },
        }
    }
}

/// The state of a daemon after some events, first to last.
pub open spec fn after_events(state: DaemonState, events: Seq<Event>) -> DaemonState
    decreases events.len(),
{
    if events.len() == 0 {
        state
    } else {
        after_events(state, events.drop_last()).after(events.last())
    }
}

/// Whatever happens, a daemon never serves more than `MAX_CLIENTS` clients.
pub proof fn law_client_limit(state: DaemonState, events: Seq<Event>)
    requires
        state.clients <= MAX_CLIENTS,
    ensures
        after_events(state, events).clients <= MAX_CLIENTS <= 8,
    decreases events.len(),
{
    if events.len() > 0 {
        law_client_limit(state, events.drop_last());
    }
}

/// A client is refused exactly when `MAX_CLIENTS` are served, and that changes
/// nothing for those.
pub proof fn law_refused_exactly_when_full(state: DaemonState)
    ensures
        state.action(Event::ClientArrived) is RefuseClient <==> state.clients >= MAX_CLIENTS,
        state.action(Event::ClientArrived) is RefuseClient ==> state.after(Event::ClientArrived)
            == state,
        state.action(Event::ClientArrived) is ServeClient ==> state.after(
            Event::ClientArrived,
        ).clients == state.clients + 1,
{
}

/// A daemon stops on a signal or when the shell ends, and on nothing else: no
/// packet from a client and no failed connection stops it or changes whom it
/// serves.
pub proof fn law_what_stops_the_daemon(state: DaemonState, event: Event)
    requires
        state.running,
    ensures
        state.action(event) is ShutDown <==> !state.after(event).running,
        state.action(event) is ShutDown <==> event is Terminate || event is Interrupt
            || event is ShellEnded,
        event is Command || event is AcceptFailed ==> state.after(event) == state,
{
}

/// What a daemon that stops does, step by step.
#[derive(Debug, Clone, Copy, PartialEq, Eq, Structural)]
pub enum CleanupStep {
    /// Pause for this many milliseconds.
    Pause(u64),
    /// Stop the task that reads the terminal.
    StopReader,
    /// Stop the tasks of all clients.
    StopClients,
    RemoveSocket,
    RemovePidFile,
    KillShell,
}

/// The steps of a daemon that stops, in order. The clients have time to take
/// what was sent to them before their tasks are stopped, and the tasks have
/// time to end before anything is removed.
pub open spec fn cleanup_plan() -> Seq<CleanupStep> {
    seq![
        CleanupStep::Pause(300),
        CleanupStep::StopReader,
        CleanupStep::StopClients,
        CleanupStep::Pause(100),
        CleanupStep::RemoveSocket,
        CleanupStep::RemovePidFile,
        CleanupStep::KillShell,
    ]
}

/// The step of a daemon that stops, once some steps are done.
pub fn cleanup_step(done: usize) -> (step: Option<CleanupStep>)
    ensures
        step == (if done < cleanup_plan().len() {
            Some(cleanup_plan()[done as int])
        } else {
            None
        }),
{
    match done {
        0 => Some(CleanupStep::Pause(300)),
        1 => Some(CleanupStep::StopReader),
        2 => Some(CleanupStep::StopClients),
        3 => Some(CleanupStep::Pause(100)),
        4 => Some(CleanupStep::RemoveSocket),
        5 => Some(CleanupStep::RemovePidFile),
        6 => Some(CleanupStep::KillShell),
        _ => None,
    }
}

/// What the task that feeds a client waits for.
pub enum FeedEvent {
    /// The daemon sent every client a packet.
    Broadcast(Packet),
    /// The client was too slow and missed this many packets.
    Lagged(u64),
    /// The daemon sends no more.
    Closed,
}

/// What the task that feeds a client does next.
pub enum FeedAction {
    /// Send the packet and go on if that worked.
    Send(Packet),
    /// Send the packet and stop, whether or not that worked.
    SendLast(Packet),
    /// Wait for the next event.
    Skip,
    /// Report how many packets the client missed, and go on.
    ReportLag(u64),
    /// Stop.
    Stop,
}

/// What feeding a client does on an event.
pub open spec fn feed_action(event: FeedEvent) -> FeedAction {
    match event {
        FeedEvent::Broadcast(Packet::Data(data)) => FeedAction::Send(Packet::Data(data)),
        FeedEvent::Broadcast(Packet::Exit(status)) => FeedAction::SendLast(Packet::Exit(status)),
        FeedEvent::Broadcast(_) => FeedAction::Skip,
        FeedEvent::Lagged(missed) => FeedAction::ReportLag(missed),
        FeedEvent::Closed => FeedAction::Stop,
    }
}

/// Decides what a client is sent: terminal output, and last the exit status.
pub fn feed_client(event: FeedEvent) -> (action: FeedAction)
    ensures
        action == feed_action(event),
{
    match event {
        FeedEvent::Broadcast(packet) => match packet {
            Packet::Data(data) => FeedAction::Send(Packet::Data(data)),
            Packet::Exit(status) => FeedAction::SendLast(Packet::Exit(status)),
            Packet::Resize(_, _) => FeedAction::Skip,
            Packet::Signal(_) => FeedAction::Skip,
        },
        FeedEvent::Lagged(missed) => FeedAction::ReportLag(missed),
        FeedEvent::Closed => FeedAction::Stop,
    }
}

/// The packets that a client is sent on these events, as long as its
/// connection takes them.
pub open spec fn fed(events: Seq<FeedEvent>) -> Seq<PacketView>
    decreases events.len(),
{
    if events.len() == 0 {
        Seq::empty()
    } else {
        match feed_action(events[0]) {
            FeedAction::Send(packet) => seq![packet@] + fed(events.drop_first()),
            FeedAction::SendLast(packet) => seq![packet@],
            FeedAction::Skip => fed(events.drop_first()),
            FeedAction::ReportLag(_) => fed(events.drop_first()),
            FeedAction::Stop => Seq::empty(),
        }
    }
}

/// The packets are terminal output, but for an exit status that may stand last.
pub open spec fn exit_only_last(packets: Seq<PacketView>) -> bool {
    forall|i: int|
        0 <= i < packets.len() ==> (#[trigger] packets[i]) is Data || (packets[i] is Exit && i
            == packets.len() - 1)
}

/// A client is sent terminal output only, and at most one exit status, as the
/// last packet.
pub proof fn law_feed_ends_with_exit(events: Seq<FeedEvent>)
    ensures
        exit_only_last(fed(events)),
    decreases events.len(),
{
    if events.len() > 0 {
        let later = fed(events.drop_first());
        law_feed_ends_with_exit(events.drop_first());
        match feed_action(events[0]) {
            FeedAction::Send(packet) => {
                assert forall|i: int| 0 <= i < fed(events).len() implies (#[trigger] fed(events)[i])
                    is Data || (fed(events)[i] is Exit && i == fed(events).len() - 1) by {
                    if i > 0 {
                        assert(fed(events)[i] == later[i - 1]);
                    }
                }
            },
            _ => {},
        }
    }
}

/// What listening to a client gave.
pub enum CommandEvent {
    /// The client sent a packet.
    Packet(Packet),
    /// The connection broke or the client sent something else than packets.
    Failed,
    /// The client closed the connection.
    Closed,
    /// The daemon takes no more commands, and did not take the last one.
    NotTaken,
}

/// What the task that listens to a client does next.
pub enum ForwardAction {
    /// Hand the packet to the daemon as a command, and listen on if it takes it.
    Forward(Packet),
    /// Stop.
    Stop,
}

/// What listening to a client does on an event.
pub open spec fn forward_action(event: CommandEvent) -> ForwardAction {
    match event {
        CommandEvent::Packet(packet) => ForwardAction::Forward(packet),
        CommandEvent::Failed | CommandEvent::Closed | CommandEvent::NotTaken => ForwardAction::Stop,
    }
}

/// Decides what the daemon gets of what a client sends: every packet, of any
/// kind, until the first that fails.
pub fn forward(event: CommandEvent) -> (action: ForwardAction)
    ensures
        action == forward_action(event),
{
    match event {
        CommandEvent::Packet(packet) => ForwardAction::Forward(packet),
        CommandEvent::Failed => ForwardAction::Stop,
        CommandEvent::Closed => ForwardAction::Stop,
        CommandEvent::NotTaken => ForwardAction::Stop,
    }
}

/// The packets that are handed to the daemon on these events, first to last.
pub open spec fn forwarded(events: Seq<CommandEvent>) -> Seq<Packet>
    decreases events.len(),
{
    if events.len() == 0 {
        Seq::empty()
    } else {
        match forward_action(events[0]) {
            ForwardAction::Forward(packet) => seq![packet] + forwarded(events.drop_first()),
            ForwardAction::Stop => Seq::empty(),
        }
    }
}

/// A client's packets reach the daemon unchanged, in order and whatever their
/// kind, up to the first event that is no packet, and none after that.
pub proof fn law_commands_pass_unchanged(events: Seq<CommandEvent>)
    ensures
        forwarded(events).len() <= events.len(),
        forall|i: int|
            0 <= i < forwarded(events).len() ==> events[i] == CommandEvent::Packet(
                #[trigger] forwarded(events)[i],
            ),
        forwarded(events).len() < events.len() ==> !(events[forwarded(events).len() as int]
            is Packet),
    decreases events.len(),
{
    if events.len() > 0 {
        let later = events.drop_first();
        law_commands_pass_unchanged(later);
        if let ForwardAction::Forward(packet) = forward_action(events[0]) {
            assert forall|i: int| 0 <= i < forwarded(events).len() implies events[i]
                == CommandEvent::Packet(#[trigger] forwarded(events)[i]) by {
                if i > 0 {
                    assert(forwarded(events)[i] == forwarded(later)[i - 1]);
                    assert(events[i] == later[i - 1]);
                }
            }
            if forwarded(later).len() < later.len() {
                assert(events[forwarded(events).len() as int] == later[forwarded(
                    later,
                ).len() as int]);
            }
        }
    }
}

/// The bytes that some commands write to the terminal, first to last.
pub open spec fn terminal_input(state: DaemonState, commands: Seq<Packet>) -> Seq<u8>
    decreases commands.len(),
{
    if commands.len() == 0 {
        Seq::empty()
    } else {
        let event = Event::Command(commands[0]);
        let later = terminal_input(state.after(event), commands.drop_first());
        match state.action(event) {
            Action::WriteTerminal(data) => bytes_content(data) + later,
            _ => later,
        }
    }
}

/// From a client's packets over the wire to the shell's terminal: what is typed
/// is written to the terminal, unchanged and in order. `received` is what the
/// daemon reads from the connection.
pub proof fn law_typing_reaches_the_terminal(
    typed: Seq<Seq<u8>>,
    received: Seq<CommandEvent>,
    state: DaemonState,
)
    requires
        forall|i: int| 0 <= i < typed.len() ==> (#[trigger] typed[i]).len() <= MAX_PAYLOAD,
        received.len() == typed.len(),
        forall|i: int|
            0 <= i < received.len() ==> ((#[trigger] received[i]) matches CommandEvent::Packet(
                packet,
            ) && Ok::<Option<PacketView>, ProtocolError>(Some(packet@)) == decoded_times(
                frames(data_packets(typed)),
                typed.len(),
            )[i]),
    ensures
        terminal_input(state, forwarded(received)) == joined(typed),
{
    let packets = data_packets(typed);
    assert forall|i: int| 0 <= i < packets.len() implies (#[trigger] packets[i]).payload().len()
        <= MAX_PAYLOAD by {
        assert(packets[i] == PacketView::Data(typed[i]));
    }
    law_stream_in_order(packets, Seq::empty());
    assert(frames(packets) + Seq::<u8>::empty() =~= frames(packets));
    assert forall|i: int| 0 <= i < received.len() implies ((#[trigger] received[i])
        matches CommandEvent::Packet(packet) && packet@ == PacketView::Data(typed[i])) by {
        assert(packets[i].received() == packets[i]);
    }
    lemma_typed(typed, received, state);
}

proof fn lemma_typed(typed: Seq<Seq<u8>>, received: Seq<CommandEvent>, state: DaemonState)
    requires
        received.len() == typed.len(),
        forall|i: int|
            0 <= i < received.len() ==> ((#[trigger] received[i]) matches CommandEvent::Packet(
                packet,
            ) && packet@ == PacketView::Data(typed[i])),
    ensures
        terminal_input(state, forwarded(received)) == joined(typed),
    decreases typed.len(),
{
    if typed.len() > 0 {
        let rest = received.drop_first();
        assert forall|i: int| 0 <= i < rest.len() implies ((#[trigger] rest[i])
            matches CommandEvent::Packet(packet) && packet@ == PacketView::Data(
            typed.drop_first()[i],
        )) by {
            assert(rest[i] == received[i + 1]);
        }
        lemma_typed(typed.drop_first(), rest, state);
        assert(received[0] is Packet);
        assert(forwarded(received).drop_first() =~= forwarded(rest));
    }
}

/// Tells whether the task of a client that failed is worth a report: not when
/// the client just went away, which is a broken pipe. An error that is no I/O
/// error has no answer to that.
pub fn reports_client_error(broken_pipe: Option<bool>) -> (report: bool)
    ensures
        report == (broken_pipe != Some(true)),
{
    match broken_pipe {
        Some(broken) => !broken,
        None => true,
    }
}

/// What a client asks for is done as it asks: the terminal is given its bytes
/// and its window size, the shell its signal, all unchanged. An exit status is
/// only reported. Nothing of that changes whom the daemon serves, or stops it.
pub proof fn law_commands_are_carried_out_unchanged(
    daemon: &mut Daemon,
    command: Packet,
    action: Action,
)
    requires
        call_ensures(Daemon::step, (daemon, Event::Command(command)), action),
    ensures
        final(daemon)@ == old(daemon)@,
        match command {
            Packet::Data(data) => action matches Action::WriteTerminal(bytes) && bytes_content(
                bytes,
            ) == bytes_content(data),
            Packet::Resize(cols, rows) => action matches Action::ResizeTerminal(c, r) && c == cols
                && r == rows,
            Packet::Signal(signal) => action matches Action::SignalShell(s) && s == signal,
            Packet::Exit(_) => action is ReportUnexpectedExit,
        },
{
}

/// From a client over the wire to the terminal: the window size that a client
/// sends is the one that the terminal is given, and the signal that it sends is
/// the one that the shell is sent.
pub proof fn law_sizes_and_signals_arrive(
    sender: &mut PacketCodec,
    sent: Packet,
    wire: &mut BytesMut,
    e: Result<(), ProtocolError>,
    receiver: &mut PacketCodec,
    arrived: &mut BytesMut,
    received: Packet,
    daemon: &mut Daemon,
    action: Action,
)
    requires
        sent is Resize || sent is Signal,
        bytes_mut_content(*old(wire)).len() == 0,
        call_ensures(PacketCodec::encode, (sender, sent, wire), e),
        bytes_mut_content(*old(arrived)) == bytes_mut_content(*final(wire)),
        call_ensures(
            PacketCodec::decode,
            (receiver, arrived),
            Ok::<Option<Packet>, ProtocolError>(Some(received)),
        ),
        call_ensures(forward, (CommandEvent::Packet(received),), ForwardAction::Forward(received)),
        call_ensures(Daemon::step, (daemon, Event::Command(received)), action),
    ensures
        sent matches Packet::Resize(cols, rows) ==> action == Action::ResizeTerminal(cols, rows),
        sent matches Packet::Signal(signal) ==> action == Action::SignalShell(signal),
{
    law_calls_round_trip(
        sender,
        sent,
        wire,
        e,
        receiver,
        arrived,
        Ok::<Option<Packet>, ProtocolError>(Some(received)),
    );
}

/// A new client is served while there are fewer than eight, and counted; else
/// it is turned away and nothing changes. A client that ends makes room for
/// one: an arrival and an end leave the count as it was.
pub proof fn law_clients_are_counted(
    arriving: &mut Daemon,
    arrival: Action,
    ending: &mut Daemon,
    end: TaskEnd,
    ended: Action,
)
    requires
        call_ensures(Daemon::step, (arriving, Event::ClientArrived), arrival),
        old(ending)@ == final(arriving)@,
        call_ensures(Daemon::step, (ending, Event::ClientEnded(end)), ended),
    ensures
        old(arriving)@.clients < 8 ==> {
            &&& arrival is ServeClient
            &&& final(arriving)@.clients == old(arriving)@.clients + 1
            &&& final(ending)@ == old(arriving)@
        },
        old(arriving)@.clients >= 8 ==> arrival is RefuseClient && final(arriving)@ == old(
            arriving,
        )@ && final(ending)@.clients == old(arriving)@.clients - 1,
        final(arriving)@.running == old(arriving)@.running,
        final(ending)@.running == old(arriving)@.running,
        end is Panicked ==> ended is ReportClientPanic,
        !(end is Panicked) ==> ended is Wait,
{
}

/// A signal and the end of the shell stop the daemon, each for its own reason,
/// and leave the count of clients alone. A connection that could not be taken
/// is only reported.
pub proof fn law_stops_have_their_reason(
    daemon: &mut Daemon,
    event: Event,
    action: Action,
    fresh: Daemon,
    clients: usize,
    running: bool,
)
    requires
        call_ensures(Daemon::step, (daemon, event), action),
        call_ensures(Daemon::new, (), fresh),
        call_ensures(Daemon::clients, (&*final(daemon),), clients),
        call_ensures(Daemon::is_running, (&*final(daemon),), running),
    ensures
        fresh@.clients == 0 && fresh@.running,
        clients == final(daemon)@.clients,
        running == final(daemon)@.running,
        event is Terminate ==> action == Action::ShutDown(Cause::Terminate),
        event is Interrupt ==> action == Action::ShutDown(Cause::Interrupt),
        event matches Event::ShellEnded(end) ==> action == Action::ShutDown(
            if end is Panicked {
                Cause::ReaderPanicked
            } else {
                Cause::ShellEnded
            },
        ),
        event is AcceptFailed ==> action is ReportAcceptError && final(daemon)@ == old(daemon)@,
        action is ShutDown ==> !running && clients == old(daemon)@.clients,
        !(action is ShutDown) ==> running == old(daemon)@.running,
{
}

/// A daemon that stops does each thing once: it lets the clients take what was
/// sent, then stops its tasks, and removes its files and kills the shell only
/// after that.
pub proof fn law_cleanup_does_everything_once(done: usize, step: Option<CleanupStep>)
    requires
        call_ensures(cleanup_step, (done,), step),
    ensures
        step is None <==> done >= 7,
        done == 0 ==> step == Some(CleanupStep::Pause(300)),
        done == 3 ==> step == Some(CleanupStep::Pause(100)),
        step == Some(CleanupStep::StopReader) <==> done == 1,
        step == Some(CleanupStep::StopClients) <==> done == 2,
        step == Some(CleanupStep::RemoveSocket) <==> done == 4,
        step == Some(CleanupStep::RemovePidFile) <==> done == 5,
        step == Some(CleanupStep::KillShell) <==> done == 6,
{
}

/// A client is sent every chunk of output byte for byte, and the exit status as
/// it is. What it missed is reported by number.
pub proof fn law_clients_are_fed_unchanged(event: FeedEvent, action: FeedAction)
    requires
        call_ensures(feed_client, (event,), action),
    ensures
        match event {
            FeedEvent::Broadcast(Packet::Data(data)) => action matches FeedAction::Send(
                Packet::Data(sent),
            ) && bytes_content(sent) == bytes_content(data),
            FeedEvent::Broadcast(Packet::Exit(status)) => action matches FeedAction::SendLast(
                Packet::Exit(sent),
            ) && sent.code == status.code && sent.signal == status.signal,
            FeedEvent::Broadcast(_) => action is Skip,
            FeedEvent::Lagged(missed) => action matches FeedAction::ReportLag(n) && n == missed,
            FeedEvent::Closed => action is Stop,
        },
{
}

/// The daemon gets every packet of a client as it came, and nothing else.
pub proof fn law_packets_are_forwarded_unchanged(event: CommandEvent, action: ForwardAction)
    requires
        call_ensures(forward, (event,), action),
    ensures
        event matches CommandEvent::Packet(packet) ==> action == ForwardAction::Forward(packet),
        !(event is Packet) ==> action is Stop,
{
}

/// The failure of a client is reported unless its connection just broke.
pub proof fn law_only_broken_pipes_go_unreported(broken_pipe: Option<bool>, report: bool)
    requires
        call_ensures(reports_client_error, (broken_pipe,), report),
    ensures
        report <==> !(broken_pipe is Some && broken_pipe->0),
{
}

/// A client that ends makes room for one, and where none is counted nothing
/// changes.
pub proof fn law_ended_clients_make_room(daemon: &mut Daemon, end: TaskEnd, action: Action)
    requires
        call_ensures(Daemon::step, (daemon, Event::ClientEnded(end)), action),
    ensures
        final(daemon)@.running == old(daemon)@.running,
        old(daemon)@.clients > 0 ==> final(daemon)@.clients == old(daemon)@.clients - 1,
        old(daemon)@.clients == 0 ==> final(daemon)@.clients == 0,
{
}

} // verus!
