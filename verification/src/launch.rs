//! Starting a session, or attaching to it where it already runs: the steps and
//! what each outcome leads to.
use vstd::prelude::*;
use vstd::string::*;
use crate::session::{lemma_written_pid, parse_pid};
use crate::text::{decimal_nat, enclosed, number_value, trimmed, NumberError};
use crate::text_laws::{all_white, law_numbers_have_32_bits};

verus! {

/// What came of the last step.
pub enum LaunchEvent {
    /// Nothing was done yet.
    Begin,
    /// What the file with the process number holds, if it could be read.
    PidFile(Option<String>),
    /// Whether the process is a live daemon of this program.
    Process(bool),
    /// Whether the session's socket exists.
    Socket(bool),
    /// The files that a dead daemon left were removed.
    StaleFilesRemoved,
    /// A daemon was started.
    DaemonStarted,
    /// The pause is over.
    Slept,
}

/// What to do next.
#[derive(Debug, Clone, Copy, PartialEq, Eq, Structural)]
pub enum LaunchAction {
    /// Read the file with the process number.
    ReadPidFile,
    /// Find out whether this process is a live daemon of this program.
    CheckProcess(i32),
    /// Find out whether the session's socket exists.
    CheckSocket,
    /// Remove the session's socket and the file with the process number.
    RemoveStaleFiles,
    /// Start a daemon for the session.
    StartDaemon,
    /// Pause for this many milliseconds.
    Sleep(u64),
    /// Attach to the session.
    Attach,
    /// The event does not answer the step before: do nothing.
    Unexpected,
}

/// The step whose outcome is awaited.
#[derive(Debug, Clone, Copy, PartialEq, Eq, Structural)]
pub enum LaunchPhase {
    Start,
    ReadingPidFile,
    CheckingProcess,
    CheckingStaleSocket,
    RemovingStaleFiles,
    StartingDaemon,
    CheckingSocket,
    Pausing,
    /// Done, with a session that ran already.
    AttachedToRunning,
    /// Done, with a session that was started.
    AttachedToNew,
}

/// How far starting or attaching got.
pub struct LaunchState {
    pub phase: LaunchPhase,
    /// The looks at the socket of a new daemon that are left, the awaited one
    /// aside.
    pub looks_left: nat,
}

/// The process number in the text of its file, if there is one.
pub open spec fn pid_in(content: Option<String>) -> Option<i32> {
    match content {
        Some(text) => match number_value(trimmed(text@)) {
            Ok(pid) => Some(pid as i32),
            Err(_) => None,
        },
        None => None,
    }
}

impl LaunchState {
    pub open spec fn to(self, phase: LaunchPhase) -> LaunchState {
        LaunchState { phase, ..self }
    }

    /// Looks at the new daemon's socket once more, or does without.
    pub open spec fn look_again(self) -> (LaunchState, LaunchAction) {
        if self.looks_left > 0 {
            (
                LaunchState {
                    phase: LaunchPhase::CheckingSocket,
                    looks_left: (self.looks_left - 1) as nat,
                },
                LaunchAction::CheckSocket,
            )
        } else {
            (self.to(LaunchPhase::AttachedToNew), LaunchAction::Attach)
        }
    }

    /// The state that an event leads to, and what to do.
    pub open spec fn step(self, event: LaunchEvent) -> (LaunchState, LaunchAction) {
        match (self.phase, event) {
            (LaunchPhase::Start, LaunchEvent::Begin) => (
                self.to(LaunchPhase::ReadingPidFile),
                LaunchAction::ReadPidFile,
            ),
            (LaunchPhase::ReadingPidFile, LaunchEvent::PidFile(content)) => match pid_in(content) {
                Some(pid) => (
                    self.to(LaunchPhase::CheckingProcess),
                    LaunchAction::CheckProcess(pid),
                ),
                None => (self.to(LaunchPhase::CheckingStaleSocket), LaunchAction::CheckSocket),
            },
            (LaunchPhase::CheckingProcess, LaunchEvent::Process(alive)) => if alive {
                (self.to(LaunchPhase::AttachedToRunning), LaunchAction::Attach)
            } else {
                (self.to(LaunchPhase::CheckingStaleSocket), LaunchAction::CheckSocket)
            },
            (LaunchPhase::CheckingStaleSocket, LaunchEvent::Socket(exists)) => if exists {
                (self.to(LaunchPhase::RemovingStaleFiles), LaunchAction::RemoveStaleFiles)
            } else {
                (self.to(LaunchPhase::StartingDaemon), LaunchAction::StartDaemon)
            },
            (LaunchPhase::RemovingStaleFiles, LaunchEvent::StaleFilesRemoved) => (
                self.to(LaunchPhase::StartingDaemon),
                LaunchAction::StartDaemon,
            ),
            (LaunchPhase::StartingDaemon, LaunchEvent::DaemonStarted) => self.look_again(),
            (LaunchPhase::CheckingSocket, LaunchEvent::Socket(exists)) => if exists {
                (self.to(LaunchPhase::AttachedToNew), LaunchAction::Attach)
            } else {
                (self.to(LaunchPhase::Pausing), LaunchAction::Sleep(SOCKET_PAUSE_MS))
            },
            (LaunchPhase::Pausing, LaunchEvent::Slept) => self.look_again(),
            _ => (self, LaunchAction::Unexpected),
        }
    }
}

/// Announces that a session is started or attached to.
pub fn launch_message(is_new: bool, session: &str, shell: &str) -> (text: String)
    ensures
        text@ == (if is_new {
            "Starting new session: "@ + session@ + " with shell: "@ + shell@
        } else {
            "Attaching to session: "@ + session@
        }),
{
    if is_new {
        let mut text = enclosed("Starting new session: ", session, " with shell: ");
        text.append(shell);
        text
    } else {
        let mut text = "Attaching to session: ".to_owned();
        text.append(session);
        text
    }
}

/// The looks at the socket of a new daemon.
pub const SOCKET_LOOKS: u32 = 20;

/// The pause between two looks, in milliseconds.
pub const SOCKET_PAUSE_MS: u64 = 50;

/// The decisions of starting or attaching to a session.
#[derive(Debug)]
pub struct Launch {
    phase: LaunchPhase,
    looks_left: u32,
}

impl View for Launch {
    type V = LaunchState;

    closed spec fn view(&self) -> LaunchState {
        LaunchState { phase: self.phase, looks_left: self.looks_left as nat }
    }
}

/// The state before the first step.
pub open spec fn launch_start() -> LaunchState {
    LaunchState { phase: LaunchPhase::Start, looks_left: SOCKET_LOOKS as nat }
}

impl Launch {
    /// Nothing is known of the session yet.
    pub fn new() -> (launch: Self)
        ensures
            launch@ == launch_start(),
    {
        Launch { phase: LaunchPhase::Start, looks_left: SOCKET_LOOKS }
    }

    fn look_again(&mut self) -> (action: LaunchAction)
        ensures
            (final(self)@, action) == old(self)@.look_again(),
    {
        if self.looks_left > 0 {
            self.phase = LaunchPhase::CheckingSocket;
            self.looks_left -= 1;
            LaunchAction::CheckSocket
        } else {
            self.phase = LaunchPhase::AttachedToNew;
            LaunchAction::Attach
        }
    }

    /// Decides what the outcome of the last step leads to.
    pub fn step(&mut self, event: LaunchEvent) -> (action: LaunchAction)
        ensures
            (final(self)@, action) == old(self)@.step(event),
    {
        match (self.phase, event) {
            (LaunchPhase::Start, LaunchEvent::Begin) => {
                self.phase = LaunchPhase::ReadingPidFile;
                LaunchAction::ReadPidFile
            },
            (LaunchPhase::ReadingPidFile, LaunchEvent::PidFile(content)) => {
                let pid = match content {
                    Some(text) => match parse_pid(text.as_str()) {
                        Ok(pid) => Some(pid),
                        Err(_) => None,
                    },
                    None => None,
                };
                match pid {
                    Some(pid) => {
                        self.phase = LaunchPhase::CheckingProcess;
                        LaunchAction::CheckProcess(pid)
                    },
                    None => {
                        self.phase = LaunchPhase::CheckingStaleSocket;
                        LaunchAction::CheckSocket
                    },
                }
            },
            (LaunchPhase::CheckingProcess, LaunchEvent::Process(alive)) => {
                if alive {
                    self.phase = LaunchPhase::AttachedToRunning;
                    LaunchAction::Attach
                } else {
                    self.phase = LaunchPhase::CheckingStaleSocket;
                    LaunchAction::CheckSocket
                }
            },
            (LaunchPhase::CheckingStaleSocket, LaunchEvent::Socket(exists)) => {
                if exists {
                    self.phase = LaunchPhase::RemovingStaleFiles;
                    LaunchAction::RemoveStaleFiles
                } else {
                    self.phase = LaunchPhase::StartingDaemon;
                    LaunchAction::StartDaemon
                }
            },
            (LaunchPhase::RemovingStaleFiles, LaunchEvent::StaleFilesRemoved) => {
                self.phase = LaunchPhase::StartingDaemon;
                LaunchAction::StartDaemon
            },
            (LaunchPhase::StartingDaemon, LaunchEvent::DaemonStarted) => self.look_again(),
            (LaunchPhase::CheckingSocket, LaunchEvent::Socket(exists)) => {
                if exists {
                    self.phase = LaunchPhase::AttachedToNew;
                    LaunchAction::Attach
                } else {
                    self.phase = LaunchPhase::Pausing;
                    LaunchAction::Sleep(SOCKET_PAUSE_MS)
                }
            },
            (LaunchPhase::Pausing, LaunchEvent::Slept) => self.look_again(),
            _ => LaunchAction::Unexpected,
        }
    }
}

/// The state after some events, first to last.
pub open spec fn launch_after(state: LaunchState, events: Seq<LaunchEvent>) -> LaunchState
    decreases events.len(),
{
    if events.len() == 0 {
        state
    } else {
        launch_after(state, events.drop_last()).step(events.last()).0
    }
}

/// What is done on some events, first to last.
pub open spec fn launch_actions(state: LaunchState, events: Seq<LaunchEvent>) -> Seq<LaunchAction>
    decreases events.len(),
{
    if events.len() == 0 {
        Seq::empty()
    } else {
        launch_actions(state, events.drop_last()).push(
            launch_after(state, events.drop_last()).step(events.last()).1,
        )
    }
}

/// How often a daemon is started.
pub open spec fn daemon_starts(actions: Seq<LaunchAction>) -> nat
    decreases actions.len(),
{
    if actions.len() == 0 {
        0
    } else {
        daemon_starts(actions.drop_last()) + if actions.last() is StartDaemon {
            1nat
        } else {
            0
        }
    }
}

/// The milliseconds of all pauses.
pub open spec fn pause_time(actions: Seq<LaunchAction>) -> nat
    decreases actions.len(),
{
    if actions.len() == 0 {
        0
    } else {
        pause_time(actions.drop_last()) + match actions.last() {
            LaunchAction::Sleep(pause_ms) => pause_ms as nat,
            _ => 0,
        }
    }
}

/// Nothing of a session was touched by these actions.
pub open spec fn only_looks(actions: Seq<LaunchAction>) -> bool {
    forall|i: int|
        0 <= i < actions.len() ==> !((#[trigger] actions[i]) is StartDaemon || actions[i]
            is RemoveStaleFiles)
}

/// A session that runs is attached to: no daemon is started for it and none of
/// its files is removed.
pub proof fn law_running_session_is_left_alone(events: Seq<LaunchEvent>)
    requires
        launch_after(launch_start(), events).phase is AttachedToRunning,
    ensures
        only_looks(launch_actions(launch_start(), events)),
        daemon_starts(launch_actions(launch_start(), events)) == 0,
{
    lemma_launch_run(events);
}

/// Whatever the steps give, at most one daemon is started, and exactly one for
/// a session that is attached to as new.
pub proof fn law_one_daemon_is_started(events: Seq<LaunchEvent>)
    ensures
        daemon_starts(launch_actions(launch_start(), events)) <= 1,
        launch_after(launch_start(), events).phase is AttachedToNew ==> daemon_starts(
            launch_actions(launch_start(), events),
        ) == 1,
{
    lemma_launch_run(events);
}

/// Waiting for the socket of a new daemon takes one second at most.
pub proof fn law_launch_waiting_is_bounded(events: Seq<LaunchEvent>)
    ensures
        pause_time(launch_actions(launch_start(), events)) <= 1000,
{
    lemma_launch_run(events);
}

/// Attaching is the last step: nothing that happens afterwards leads to
/// another.
pub proof fn law_attaching_is_final(state: LaunchState, event: LaunchEvent)
    requires
        state.phase is AttachedToRunning || state.phase is AttachedToNew,
    ensures
        state.step(event) == (state, LaunchAction::Unexpected),
{
}

/// The event is an outcome of the action. Attaching has none.
pub open spec fn launch_answers(action: LaunchAction, event: LaunchEvent) -> bool {
    match action {
        LaunchAction::ReadPidFile => event is PidFile,
        LaunchAction::CheckProcess(_) => event is Process,
        LaunchAction::CheckSocket => event is Socket,
        LaunchAction::RemoveStaleFiles => event is StaleFilesRemoved,
        LaunchAction::StartDaemon => event is DaemonStarted,
        LaunchAction::Sleep(_) => event is Slept,
        LaunchAction::Attach => false,
        LaunchAction::Unexpected => false,
    }
}

/// The events are those of a caller that begins and then hands back the
/// outcome of each action.
pub open spec fn launch_in_turn(events: Seq<LaunchEvent>) -> bool {
    &&& events.len() > 0 ==> events[0] is Begin
    &&& forall|i: int|
        1 <= i < events.len() ==> launch_answers(
            launch_actions(launch_start(), events)[i - 1],
            #[trigger] events[i],
        )
}

/// Starting or attaching gets there: a caller that hands back the outcome of
/// each action is never told that an event was unexpected, and is told to
/// attach after at most 46 events.
pub proof fn law_launch_attaches(events: Seq<LaunchEvent>)
    requires
        launch_in_turn(events),
    ensures
        ({
            let actions = launch_actions(launch_start(), events);
            &&& actions.len() == events.len()
            &&& events.len() <= 46
            &&& forall|i: int| 0 <= i < actions.len() ==> !((#[trigger] actions[i]) is Unexpected)
            &&& events.len() == 46 ==> actions.last() is Attach
        }),
{
    lemma_launch_in_turn(events);
}

/// The events that can still come in turn.
spec fn launch_events_left(state: LaunchState) -> nat {
    match state.phase {
        LaunchPhase::Start => 6 + 2 * state.looks_left,
        LaunchPhase::ReadingPidFile => 5 + 2 * state.looks_left,
        LaunchPhase::CheckingProcess => 4 + 2 * state.looks_left,
        LaunchPhase::CheckingStaleSocket => 3 + 2 * state.looks_left,
        LaunchPhase::RemovingStaleFiles => 2 + 2 * state.looks_left,
        LaunchPhase::StartingDaemon => 1 + 2 * state.looks_left,
        LaunchPhase::CheckingSocket => 2 + 2 * state.looks_left,
        LaunchPhase::Pausing => 1 + 2 * state.looks_left,
        LaunchPhase::AttachedToRunning => 0,
        LaunchPhase::AttachedToNew => 0,
    }
}

/// The action whose outcome is awaited in a phase.
spec fn launch_awaits(phase: LaunchPhase, action: LaunchAction) -> bool {
    match phase {
        LaunchPhase::Start => false,
        LaunchPhase::ReadingPidFile => action is ReadPidFile,
        LaunchPhase::CheckingProcess => action is CheckProcess,
        LaunchPhase::CheckingStaleSocket => action is CheckSocket,
        LaunchPhase::RemovingStaleFiles => action is RemoveStaleFiles,
        LaunchPhase::StartingDaemon => action is StartDaemon,
        LaunchPhase::CheckingSocket => action is CheckSocket,
        LaunchPhase::Pausing => action is Sleep,
        LaunchPhase::AttachedToRunning => action is Attach,
        LaunchPhase::AttachedToNew => action is Attach,
    }
}

proof fn lemma_launch_in_turn(events: Seq<LaunchEvent>)
    requires
        launch_in_turn(events),
    ensures
        ({
            let state = launch_after(launch_start(), events);
            let actions = launch_actions(launch_start(), events);
            &&& actions.len() == events.len()
            &&& events.len() + launch_events_left(state) <= 46
            &&& forall|i: int| 0 <= i < actions.len() ==> !((#[trigger] actions[i]) is Unexpected)
            &&& if events.len() == 0 {
                state.phase is Start
            } else {
                launch_awaits(state.phase, actions.last())
            }
        }),
    decreases events.len(),
{
    if events.len() > 0 {
        let earlier = events.drop_last();
        let before = launch_actions(launch_start(), earlier);
        let actions = launch_actions(launch_start(), events);
        lemma_launch_lengths(earlier);
        assert(forall|i: int| 0 <= i < before.len() ==> (#[trigger] before[i]) == actions[i]);
        assert forall|i: int| 1 <= i < earlier.len() implies launch_answers(
            before[i - 1],
            #[trigger] earlier[i],
        ) by {
            assert(earlier[i] == events[i]);
        }
        lemma_launch_in_turn(earlier);
        if earlier.len() > 0 {
            assert(launch_answers(actions[events.len() - 2], events[events.len() - 1]));
        }
        assert forall|i: int| 0 <= i < actions.len() implies !((#[trigger] actions[i])
            is Unexpected) by {
            if i < before.len() {
                assert(actions[i] == before[i]);
            }
        }
    }
}

proof fn lemma_launch_lengths(events: Seq<LaunchEvent>)
    ensures
        launch_actions(launch_start(), events).len() == events.len(),
    decreases events.len(),
{
    if events.len() > 0 {
        lemma_launch_lengths(events.drop_last());
    }
}

/// No daemon was started yet in this phase.
spec fn before_start(phase: LaunchPhase) -> bool {
    phase is Start || phase is ReadingPidFile || phase is CheckingProcess || phase
        is CheckingStaleSocket || phase is RemovingStaleFiles || phase is AttachedToRunning
}

proof fn lemma_launch_run(events: Seq<LaunchEvent>)
    ensures
        ({
            let state = launch_after(launch_start(), events);
            let actions = launch_actions(launch_start(), events);
            &&& daemon_starts(actions) == if before_start(state.phase) {
                0nat
            } else {
                1
            }
            &&& state.phase is Start || state.phase is ReadingPidFile || state.phase
                is CheckingProcess || state.phase is CheckingStaleSocket || state.phase
                is AttachedToRunning ==> only_looks(actions)
            &&& pause_time(actions) + 50 * state.looks_left + (if state.phase is CheckingSocket {
                50nat
            } else {
                0
            }) <= 1000
        }),
    decreases events.len(),
{
    if events.len() > 0 {
        lemma_launch_run(events.drop_last());
        let before = launch_actions(launch_start(), events.drop_last());
        let actions = launch_actions(launch_start(), events);
        assert(actions.drop_last() =~= before);
        if only_looks(before) && !(actions.last() is StartDaemon) && !(actions.last()
            is RemoveStaleFiles) {
            assert forall|i: int| 0 <= i < actions.len() implies !((#[trigger] actions[i])
                is StartDaemon || actions[i] is RemoveStaleFiles) by {
                if i < before.len() {
                    assert(actions[i] == before[i]);
                }
            }
        }
    }
}

/// How often a pause ended.
pub open spec fn launch_naps(events: Seq<LaunchEvent>) -> nat
    decreases events.len(),
{
    if events.len() == 0 {
        0
    } else {
        launch_naps(events.drop_last()) + if events.last() is Slept {
            1nat
        } else {
            0
        }
    }
}

/// A daemon was started.
pub open spec fn has_started(events: Seq<LaunchEvent>) -> bool
    decreases events.len(),
{
    events.len() > 0 && (events.last() is DaemonStarted || has_started(events.drop_last()))
}

/// The text spells this number, white space around it aside.
pub open spec fn names_process(text: Seq<char>, pid: i32) -> bool {
    number_value(trimmed(text)) == Ok::<int, NumberError>(pid as int)
}

/// What each outcome leads to, told by what happened before. The process that
/// is looked at is the one whose number the file holds; if the file holds none,
/// none is. A live daemon is attached to. Without one, a socket that is found
/// is stale and removed, and a daemon is started. Then its socket is waited
/// for, with up to twenty pauses of 50 milliseconds.
pub proof fn law_launch_takes_its_course(events: Seq<LaunchEvent>)
    requires
        launch_in_turn(events),
        events.len() > 0,
    ensures
        ({
            let action = launch_actions(launch_start(), events).last();
            match events.last() {
                LaunchEvent::Begin => action is ReadPidFile,
                LaunchEvent::PidFile(Some(text)) => match action {
                    LaunchAction::CheckProcess(pid) => names_process(text@, pid),
                    LaunchAction::CheckSocket => number_value(trimmed(text@)) is Err,
                    _ => false,
                },
                LaunchEvent::PidFile(None) => action is CheckSocket,
                LaunchEvent::Process(alive) => if alive {
                    action is Attach
                } else {
                    action is CheckSocket
                },
                LaunchEvent::Socket(exists) => if has_started(events) {
                    if exists {
                        action is Attach
                    } else {
                        action == LaunchAction::Sleep(50)
                    }
                } else {
                    if exists {
                        action is RemoveStaleFiles
                    } else {
                        action is StartDaemon
                    }
                },
                LaunchEvent::StaleFilesRemoved => action is StartDaemon,
                LaunchEvent::DaemonStarted => action is CheckSocket,
                LaunchEvent::Slept => if launch_naps(events) < 20 {
                    action is CheckSocket
                } else {
                    action is Attach
                },
            }
        }),
{
    let earlier = events.drop_last();
    lemma_launch_earlier(events);
    lemma_launch_history(earlier);
    lemma_launch_in_turn(earlier);
    lemma_launch_lengths(earlier);
    if earlier.len() > 0 {
        let actions = launch_actions(launch_start(), events);
        assert(actions[events.len() - 2] == launch_actions(launch_start(), earlier).last());
        assert(launch_answers(actions[events.len() - 2], events[events.len() - 1]));
    }
    if let LaunchEvent::PidFile(Some(text)) = events.last() {
        law_numbers_have_32_bits(trimmed(text@));
    }
}

proof fn lemma_launch_earlier(events: Seq<LaunchEvent>)
    requires
        launch_in_turn(events),
        events.len() > 0,
    ensures
        launch_in_turn(events.drop_last()),
{
    let earlier = events.drop_last();
    let before = launch_actions(launch_start(), earlier);
    let actions = launch_actions(launch_start(), events);
    lemma_launch_lengths(earlier);
    assert(forall|i: int| 0 <= i < before.len() ==> (#[trigger] before[i]) == actions[i]);
    assert forall|i: int| 1 <= i < earlier.len() implies launch_answers(
        before[i - 1],
        #[trigger] earlier[i],
    ) by {
        assert(earlier[i] == events[i]);
    }
}

proof fn lemma_launch_history(events: Seq<LaunchEvent>)
    requires
        launch_in_turn(events),
    ensures
        ({
            let state = launch_after(launch_start(), events);
            match state.phase {
                LaunchPhase::AttachedToNew => has_started(events),
                LaunchPhase::CheckingSocket | LaunchPhase::Pausing => has_started(events)
                    && state.looks_left + launch_naps(events) == 19,
                _ => !has_started(events) && state.looks_left == 20 && launch_naps(events) == 0,
            }
        }),
    decreases events.len(),
{
    if events.len() > 0 {
        let earlier = events.drop_last();
        lemma_launch_earlier(events);
        lemma_launch_history(earlier);
        lemma_launch_in_turn(earlier);
        lemma_launch_lengths(earlier);
        if earlier.len() > 0 {
            let actions = launch_actions(launch_start(), events);
            assert(actions[events.len() - 2] == launch_actions(launch_start(), earlier).last());
            assert(launch_answers(actions[events.len() - 2], events[events.len() - 1]));
        }
    }
}

/// An event that does not answer the step before changes nothing.
pub proof fn law_launch_ignores_what_is_out_of_turn(
    launch: &mut Launch,
    event: LaunchEvent,
    action: LaunchAction,
)
    requires
        call_ensures(Launch::step, (launch, event), action),
    ensures
        action is Unexpected ==> final(launch)@ == old(launch)@,
        action is Unexpected <==> !(match old(launch)@.phase {
            LaunchPhase::Start => event is Begin,
            LaunchPhase::ReadingPidFile => event is PidFile,
            LaunchPhase::CheckingProcess => event is Process,
            LaunchPhase::CheckingStaleSocket => event is Socket,
            LaunchPhase::RemovingStaleFiles => event is StaleFilesRemoved,
            LaunchPhase::StartingDaemon => event is DaemonStarted,
            LaunchPhase::CheckingSocket => event is Socket,
            LaunchPhase::Pausing => event is Slept,
            LaunchPhase::AttachedToRunning => false,
            LaunchPhase::AttachedToNew => false,
        }),
{
}

/// A run of calls is a run of steps: each call takes the state and gives the
/// action that the events so far lead to.
pub proof fn law_launch_calls_follow_the_run(
    events: Seq<LaunchEvent>,
    launch: &mut Launch,
    event: LaunchEvent,
    action: LaunchAction,
    fresh: Launch,
)
    requires
        call_ensures(Launch::new, (), fresh),
        old(launch)@ == launch_after(fresh@, events),
        call_ensures(Launch::step, (launch, event), action),
    ensures
        fresh@ == launch_start(),
        final(launch)@ == launch_after(launch_start(), events.push(event)),
        action == launch_actions(launch_start(), events.push(event)).last(),
{
    assert(events.push(event).drop_last() =~= events);
}

/// A session whose daemon runs is found by what the daemon wrote: exactly that
/// process is looked at, and as it lives, the session is attached to and
/// nothing else is done.
pub proof fn law_recorded_daemon_is_attached_to(
    pid: u32,
    before: Seq<char>,
    after: Seq<char>,
    text: String,
    fresh: Launch,
    first: &mut Launch,
    begun: LaunchAction,
    second: &mut Launch,
    read: LaunchAction,
    third: &mut Launch,
    checked: LaunchAction,
)
    requires
        pid <= i32::MAX,
        all_white(before),
        all_white(after),
        text@ == before + decimal_nat(pid as nat) + after,
        call_ensures(Launch::new, (), fresh),
        old(first)@ == fresh@,
        call_ensures(Launch::step, (first, LaunchEvent::Begin), begun),
        old(second)@ == final(first)@,
        call_ensures(Launch::step, (second, LaunchEvent::PidFile(Some(text))), read),
        old(third)@ == final(second)@,
        call_ensures(Launch::step, (third, LaunchEvent::Process(true)), checked),
    ensures
        begun is ReadPidFile,
        read == LaunchAction::CheckProcess(pid as i32),
        checked is Attach,
{
    lemma_written_pid(pid, before, after);
}

/// What is announced names the session and the shell as they are.
pub proof fn law_launch_message_names_session_and_shell(
    session: &str,
    shell: &str,
    starting: String,
    attaching: String,
)
    requires
        call_ensures(launch_message, (true, session, shell), starting),
        call_ensures(launch_message, (false, session, shell), attaching),
    ensures
        ({
            let n = session@.len() as int;
            &&& starting@.take(22) == "Starting new session: "@
            &&& starting@.subrange(22, 22 + n) == session@
            &&& starting@.subrange(22 + n, 35 + n) == " with shell: "@
            &&& starting@.skip(35 + n) == shell@
            &&& attaching@.take(22) == "Attaching to session: "@
            &&& attaching@.skip(22) == session@
        }),
{
    reveal_strlit("Starting new session: ");
    reveal_strlit(" with shell: ");
    reveal_strlit("Attaching to session: ");
    let n = session@.len() as int;
    assert(starting@.take(22) =~= "Starting new session: "@);
    assert(starting@.subrange(22, 22 + n) =~= session@);
    assert(starting@.subrange(22 + n, 35 + n) =~= " with shell: "@);
    assert(starting@.skip(35 + n) =~= shell@);
    assert(attaching@.take(22) =~= "Attaching to session: "@);
    assert(attaching@.skip(22) =~= session@);
}

} // verus!
