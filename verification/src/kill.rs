//! Killing a session: the steps and what each outcome leads to.
use vstd::prelude::*;
use vstd::string::*;
use crate::session::{lemma_written_pid, parse_pid};
use crate::text::{decimal_nat, enclosed, number_value, trimmed, NumberError};
use crate::text_laws::{all_white, law_numbers_have_32_bits};

verus! {

/// The looks whether a daemon exited.
pub const EXIT_LOOKS: u32 = 20;

/// The pause before each look, in milliseconds.
pub const EXIT_PAUSE_MS: u64 = 100;

/// What came of the last step.
pub enum KillEvent {
    /// Whether there is a file with the session's process number.
    PidFileExists(bool),
    /// What the file holds.
    PidFile(String),
    /// The process was told to end.
    Terminated,
    /// The pause is over.
    Slept,
    /// Whether the process is still there.
    Process(bool),
}

/// What to do next.
#[derive(Debug, Clone, Copy, PartialEq, Eq, Structural)]
pub enum KillAction {
    /// Fail: there is no such session.
    NotFound,
    /// Read the file with the process number.
    ReadPidFile,
    /// Fail: the file holds no process number.
    InvalidPid(NumberError),
    /// Tell the process to end.
    Terminate(i32),
    /// Pause for this many milliseconds.
    Sleep(u64),
    /// Find out whether the process is still there.
    CheckProcess(i32),
    /// Remove the session's files and say that it was killed.
    CleanUp,
    /// The event does not answer the step before: do nothing.
    Unexpected,
}

/// The step whose outcome is awaited.
#[derive(Debug, Clone, Copy, PartialEq, Eq, Structural)]
pub enum KillPhase {
    LookingForPidFile,
    ReadingPidFile,
    Terminating,
    Pausing,
    CheckingProcess,
    Failed,
    Killed,
}

/// How far killing a session got.
pub struct KillState {
    pub phase: KillPhase,
    /// The process number, once it is known.
    pub pid: Option<i32>,
    /// The pauses that are left.
    pub pauses_left: nat,
}

/// The state before the first step.
pub open spec fn kill_start() -> KillState {
    KillState {
        phase: KillPhase::LookingForPidFile,
        pid: None,
        pauses_left: EXIT_LOOKS as nat,
    }
}

impl KillState {
    pub open spec fn to(self, phase: KillPhase) -> KillState {
        KillState { phase, ..self }
    }

    /// Pauses before the next look at the process, or does without.
    pub open spec fn wait_on(self) -> (KillState, KillAction) {
        if self.pauses_left > 0 {
            (
                KillState {
                    phase: KillPhase::Pausing,
                    pid: self.pid,
                    pauses_left: (self.pauses_left - 1) as nat,
                },
                KillAction::Sleep(EXIT_PAUSE_MS),
            )
        } else {
            (self.to(KillPhase::Killed), KillAction::CleanUp)
        }
    }

    /// The state that an event leads to, and what to do.
    pub open spec fn step(self, event: KillEvent) -> (KillState, KillAction) {
        match (self.phase, event) {
            (KillPhase::LookingForPidFile, KillEvent::PidFileExists(exists)) => if exists {
                (self.to(KillPhase::ReadingPidFile), KillAction::ReadPidFile)
            } else {
                (self.to(KillPhase::Failed), KillAction::NotFound)
            },
            (KillPhase::ReadingPidFile, KillEvent::PidFile(text)) => match number_value(
                trimmed(text@),
            ) {
                Ok(pid) => (
                    KillState {
                        phase: KillPhase::Terminating,
                        pid: Some(pid as i32),
                        pauses_left: self.pauses_left,
                    },
                    KillAction::Terminate(pid as i32),
                ),
                Err(error) => (self.to(KillPhase::Failed), KillAction::InvalidPid(error)),
            },
            (KillPhase::Terminating, KillEvent::Terminated) => self.wait_on(),
            (KillPhase::Pausing, KillEvent::Slept) => match self.pid {
                Some(pid) => (
                    self.to(KillPhase::CheckingProcess),
                    KillAction::CheckProcess(pid),
                ),
                None => (self, KillAction::Unexpected),
            },
            (KillPhase::CheckingProcess, KillEvent::Process(alive)) => if alive {
                self.wait_on()
            } else {
                (self.to(KillPhase::Killed), KillAction::CleanUp)
            },
            _ => (self, KillAction::Unexpected),
        }
    }
}

/// The decisions of killing a session.
#[derive(Debug)]
pub struct Kill {
    phase: KillPhase,
    pid: Option<i32>,
    pauses_left: u32,
}

impl View for Kill {
    type V = KillState;

    closed spec fn view(&self) -> KillState {
        KillState { phase: self.phase, pid: self.pid, pauses_left: self.pauses_left as nat }
    }
}

impl Kill {
    /// Nothing is known of the session yet.
    pub fn new() -> (kill: Self)
        ensures
            kill@ == kill_start(),
    {
        Kill { phase: KillPhase::LookingForPidFile, pid: None, pauses_left: EXIT_LOOKS }
    }

    fn wait_on(&mut self) -> (action: KillAction)
        ensures
            (final(self)@, action) == old(self)@.wait_on(),
    {
        if self.pauses_left > 0 {
            self.phase = KillPhase::Pausing;
            self.pauses_left -= 1;
            KillAction::Sleep(EXIT_PAUSE_MS)
        } else {
            self.phase = KillPhase::Killed;
            KillAction::CleanUp
        }
    }

    /// Decides what the outcome of the last step leads to.
    pub fn step(&mut self, event: KillEvent) -> (action: KillAction)
        ensures
            (final(self)@, action) == old(self)@.step(event),
    {
        match (self.phase, event) {
            (KillPhase::LookingForPidFile, KillEvent::PidFileExists(exists)) => {
                if exists {
                    self.phase = KillPhase::ReadingPidFile;
                    KillAction::ReadPidFile
                } else {
                    self.phase = KillPhase::Failed;
                    KillAction::NotFound
                }
            },
            (KillPhase::ReadingPidFile, KillEvent::PidFile(text)) => match parse_pid(
                text.as_str(),
            ) {
                Ok(pid) => {
                    self.phase = KillPhase::Terminating;
                    self.pid = Some(pid);
                    KillAction::Terminate(pid)
                },
                Err(error) => {
                    self.phase = KillPhase::Failed;
                    KillAction::InvalidPid(error)
                },
            },
            (KillPhase::Terminating, KillEvent::Terminated) => self.wait_on(),
            (KillPhase::Pausing, KillEvent::Slept) => match self.pid {
                Some(pid) => {
                    self.phase = KillPhase::CheckingProcess;
                    KillAction::CheckProcess(pid)
                },
                None => KillAction::Unexpected,
            },
            (KillPhase::CheckingProcess, KillEvent::Process(alive)) => {
                if alive {
                    self.wait_on()
                } else {
                    self.phase = KillPhase::Killed;
                    KillAction::CleanUp
                }
            },
            _ => KillAction::Unexpected,
        }
    }
}

/// The error for a session that has no file with a process number.
pub fn not_found_message(session: &str) -> (text: String)
    ensures
        text@ == "Session '"@ + session@ + "' not found (no pid file)."@,
{
    enclosed("Session '", session, "' not found (no pid file).")
}

/// Announces that a session was killed.
pub fn killed_message(session: &str) -> (text: String)
    ensures
        text@ == "Killed session: "@ + session@,
{
    let mut text = "Killed session: ".to_owned();
    text.append(session);
    text
}

/// The state after some events, first to last.
pub open spec fn kill_after(state: KillState, events: Seq<KillEvent>) -> KillState
    decreases events.len(),
{
    if events.len() == 0 {
        state
    } else {
        kill_after(state, events.drop_last()).step(events.last()).0
    }
}

/// What is done on some events, first to last.
pub open spec fn kill_actions(state: KillState, events: Seq<KillEvent>) -> Seq<KillAction>
    decreases events.len(),
{
    if events.len() == 0 {
        Seq::empty()
    } else {
        kill_actions(state, events.drop_last()).push(
            kill_after(state, events.drop_last()).step(events.last()).1,
        )
    }
}

/// The milliseconds of all pauses.
pub open spec fn kill_pause_time(actions: Seq<KillAction>) -> nat
    decreases actions.len(),
{
    if actions.len() == 0 {
        0
    } else {
        kill_pause_time(actions.drop_last()) + match actions.last() {
            KillAction::Sleep(pause_ms) => pause_ms as nat,
            _ => 0,
        }
    }
}

/// Waiting for a daemon to exit takes two seconds at most.
pub proof fn law_kill_waiting_is_bounded(events: Seq<KillEvent>)
    ensures
        kill_pause_time(kill_actions(kill_start(), events)) <= 2000,
{
    lemma_kill_run(events);
}

/// At step `j` a process is told to end, and event `k` answers that it was.
pub open spec fn told(
    events: Seq<KillEvent>,
    actions: Seq<KillAction>,
    j: int,
    k: int,
) -> bool {
    &&& 0 <= j < k < events.len()
    &&& actions[j] is Terminate
    &&& events[k] is Terminated
    &&& forall|m: int| j < m < k ==> (#[trigger] actions[m]) is Unexpected
}

/// Only the process whose number the session's file holds is told to end and
/// looked at, and it is told once.
pub proof fn law_kill_acts_on_one_process(events: Seq<KillEvent>)
    ensures
        ({
            let state = kill_after(kill_start(), events);
            let actions = kill_actions(kill_start(), events);
            &&& forall|i: int|
                0 <= i < actions.len() ==> match #[trigger] actions[i] {
                    KillAction::Terminate(pid) => state.pid == Some(pid),
                    KillAction::CheckProcess(pid) => state.pid == Some(pid),
                    _ => true,
                }
            &&& state.pid matches Some(pid) ==> actions.contains(KillAction::Terminate(pid))
            &&& forall|i: int, j: int|
                0 <= i < actions.len() && 0 <= j < actions.len() && (#[trigger] actions[i])
                    is Terminate && (#[trigger] actions[j]) is Terminate ==> i == j
        }),
{
    lemma_kill_run(events);
    lemma_kill_told(events);
}

/// The session's files are removed only once the process was told to end and
/// that had worked.
pub proof fn law_kill_tells_before_cleaning_up(events: Seq<KillEvent>)
    ensures
        ({
            let actions = kill_actions(kill_start(), events);
            forall|i: int|
                0 <= i < actions.len() && (#[trigger] actions[i]) is CleanUp ==> exists|
                    j: int,
                    k: int,
                |
                    #[trigger] told(events, actions, j, k) && k <= i
        }),
{
    lemma_kill_told(events);
}

/// Every failure leaves the session's files and every process alone.
pub proof fn law_failed_kill_does_nothing(events: Seq<KillEvent>)
    requires
        kill_after(kill_start(), events).phase is Failed,
    ensures
        forall|i: int|
            0 <= i < kill_actions(kill_start(), events).len() ==> !(
            (#[trigger] kill_actions(kill_start(), events)[i]) is Terminate || kill_actions(
                kill_start(),
                events,
            )[i] is CleanUp),
{
    lemma_kill_run(events);
}

/// The event is an outcome of the action. Failing and cleaning up have none.
pub open spec fn kill_answers(action: KillAction, event: KillEvent) -> bool {
    match action {
        KillAction::ReadPidFile => event is PidFile,
        KillAction::Terminate(_) => event is Terminated,
        KillAction::Sleep(_) => event is Slept,
        KillAction::CheckProcess(_) => event is Process,
        KillAction::NotFound => false,
        KillAction::InvalidPid(_) => false,
        KillAction::CleanUp => false,
        KillAction::Unexpected => false,
    }
}

/// The events are those of a caller that first looks for the file with the
/// process number and then hands back the outcome of each action.
pub open spec fn kill_in_turn(events: Seq<KillEvent>) -> bool {
    &&& events.len() > 0 ==> events[0] is PidFileExists
    &&& forall|i: int|
        1 <= i < events.len() ==> kill_answers(
            kill_actions(kill_start(), events)[i - 1],
            #[trigger] events[i],
        )
}

/// Killing gets there: a caller that hands back the outcome of each action is
/// never told that an event was unexpected. It fails within two events or not
/// at all, and else is told to clean up after at most 43 events, even if the
/// process never goes away.
pub proof fn law_kill_cleans_up(events: Seq<KillEvent>)
    requires
        kill_in_turn(events),
    ensures
        ({
            let actions = kill_actions(kill_start(), events);
            &&& actions.len() == events.len()
            &&& events.len() <= 43
            &&& forall|i: int| 0 <= i < actions.len() ==> !((#[trigger] actions[i]) is Unexpected)
            &&& forall|i: int|
                2 <= i < actions.len() ==> !((#[trigger] actions[i]) is NotFound || actions[i]
                    is InvalidPid)
            &&& events.len() == 43 ==> actions.last() is CleanUp
        }),
{
    lemma_kill_in_turn(events);
}

/// The events that can still come in turn.
spec fn kill_events_left(state: KillState) -> nat {
    match state.phase {
        KillPhase::LookingForPidFile => 3 + 2 * state.pauses_left,
        KillPhase::ReadingPidFile => 2 + 2 * state.pauses_left,
        KillPhase::Terminating => 1 + 2 * state.pauses_left,
        KillPhase::Pausing => 2 + 2 * state.pauses_left,
        KillPhase::CheckingProcess => 1 + 2 * state.pauses_left,
        KillPhase::Failed => 0,
        KillPhase::Killed => 0,
    }
}

/// The action whose outcome is awaited in a phase.
spec fn kill_awaits(phase: KillPhase, action: KillAction) -> bool {
    match phase {
        KillPhase::LookingForPidFile => false,
        KillPhase::ReadingPidFile => action is ReadPidFile,
        KillPhase::Terminating => action is Terminate,
        KillPhase::Pausing => action is Sleep,
        KillPhase::CheckingProcess => action is CheckProcess,
        KillPhase::Failed => action is NotFound || action is InvalidPid,
        KillPhase::Killed => action is CleanUp,
    }
}

proof fn lemma_kill_in_turn(events: Seq<KillEvent>)
    requires
        kill_in_turn(events),
    ensures
        ({
            let state = kill_after(kill_start(), events);
            let actions = kill_actions(kill_start(), events);
            &&& actions.len() == events.len()
            &&& events.len() + kill_events_left(state) <= 43
            &&& state.phase is ReadingPidFile ==> events.len() == 1
            &&& state.phase is Failed ==> events.len() <= 2
            &&& forall|i: int| 0 <= i < actions.len() ==> !((#[trigger] actions[i]) is Unexpected)
            &&& forall|i: int|
                2 <= i < actions.len() ==> !((#[trigger] actions[i]) is NotFound || actions[i]
                    is InvalidPid)
            &&& if events.len() == 0 {
                state.phase is LookingForPidFile
            } else {
                kill_awaits(state.phase, actions.last())
            }
        }),
    decreases events.len(),
{
    if events.len() > 0 {
        let earlier = events.drop_last();
        let before = kill_actions(kill_start(), earlier);
        let actions = kill_actions(kill_start(), events);
        lemma_kill_told(earlier);
        lemma_kill_run(earlier);
        assert(forall|i: int| 0 <= i < before.len() ==> (#[trigger] before[i]) == actions[i]);
        assert forall|i: int| 1 <= i < earlier.len() implies kill_answers(
            before[i - 1],
            #[trigger] earlier[i],
        ) by {
            assert(earlier[i] == events[i]);
        }
        lemma_kill_in_turn(earlier);
        if earlier.len() > 0 {
            assert(kill_answers(actions[events.len() - 2], events[events.len() - 1]));
        }
        assert forall|i: int| 0 <= i < actions.len() implies !((#[trigger] actions[i])
            is Unexpected) && (i >= 2 ==> !(actions[i] is NotFound || actions[i]
            is InvalidPid)) by {
            if i < before.len() {
                assert(actions[i] == before[i]);
            }
        }
    }
}

proof fn lemma_kill_run(events: Seq<KillEvent>)
    ensures
        ({
            let state = kill_after(kill_start(), events);
            let actions = kill_actions(kill_start(), events);
            &&& state.pid is None <==> state.phase is LookingForPidFile || state.phase
                is ReadingPidFile || state.phase is Failed
            &&& forall|i: int|
                0 <= i < actions.len() ==> match #[trigger] actions[i] {
                    KillAction::Terminate(pid) => state.pid == Some(pid),
                    KillAction::CheckProcess(pid) => state.pid == Some(pid),
                    KillAction::CleanUp => state.pid is Some,
                    _ => true,
                }
            &&& state.pid matches Some(pid) ==> actions.contains(KillAction::Terminate(pid))
            &&& kill_pause_time(actions) + 100 * state.pauses_left <= 2000
        }),
    decreases events.len(),
{
    if events.len() > 0 {
        lemma_kill_run(events.drop_last());
        let earlier = kill_after(kill_start(), events.drop_last());
        let state = kill_after(kill_start(), events);
        let before = kill_actions(kill_start(), events.drop_last());
        let actions = kill_actions(kill_start(), events);
        assert(actions.drop_last() =~= before);
        assert forall|i: int| 0 <= i < actions.len() implies (match #[trigger] actions[i] {
            KillAction::Terminate(pid) => state.pid == Some(pid),
            KillAction::CheckProcess(pid) => state.pid == Some(pid),
            KillAction::CleanUp => state.pid is Some,
            _ => true,
        }) by {
            if i < before.len() {
                assert(actions[i] == before[i]);
            }
        }
        if let Some(pid) = state.pid {
            if earlier.pid == Some(pid) {
                let i = choose|i: int| 0 <= i < before.len() && before[i] == KillAction::Terminate(
                    pid,
                );
                assert(actions[i] == KillAction::Terminate(pid));
            } else {
                assert(actions.last() == KillAction::Terminate(pid));
            }
        }
    }
}

/// The last step that was not out of turn is the one that tells a process to
/// end.
spec fn telling(actions: Seq<KillAction>, j: int) -> bool {
    &&& 0 <= j < actions.len()
    &&& actions[j] is Terminate
    &&& forall|m: int| j < m < actions.len() ==> (#[trigger] actions[m]) is Unexpected
}

proof fn lemma_kill_told(events: Seq<KillEvent>)
    ensures
        ({
            let phase = kill_after(kill_start(), events).phase;
            let actions = kill_actions(kill_start(), events);
            &&& actions.len() == events.len()
            &&& phase is Terminating ==> exists|j: int| #[trigger] telling(actions, j)
            &&& phase is Pausing || phase is CheckingProcess || phase is Killed ==> exists|
                j: int,
                k: int,
            |
                #[trigger] told(events, actions, j, k)
            &&& forall|i: int|
                0 <= i < actions.len() && (#[trigger] actions[i]) is CleanUp ==> exists|
                    j: int,
                    k: int,
                |
                    #[trigger] told(events, actions, j, k) && k <= i
            &&& forall|i: int, j: int|
                0 <= i < actions.len() && 0 <= j < actions.len() && (#[trigger] actions[i])
                    is Terminate && (#[trigger] actions[j]) is Terminate ==> i == j
        }),
    decreases events.len(),
{
    if events.len() > 0 {
        let earlier = events.drop_last();
        lemma_kill_run(earlier);
        lemma_kill_told(earlier);
        let phase = kill_after(kill_start(), earlier).phase;
        let before = kill_actions(kill_start(), earlier);
        let actions = kill_actions(kill_start(), events);
        let last = events.len() - 1;
        assert(forall|i: int| 0 <= i < last ==> (#[trigger] actions[i]) == before[i]);
        assert forall|j: int, k: int| #[trigger] told(earlier, before, j, k) implies told(
            events,
            actions,
            j,
            k,
        ) by {
            assert(events[k] == earlier[k]);
            assert(actions[j] == before[j]);
        }
        if phase is Terminating {
            let j = choose|j: int| #[trigger] telling(before, j);
            if events.last() is Terminated {
                assert(told(events, actions, j, last));
            } else {
                assert(telling(actions, j));
            }
        }
        if phase is ReadingPidFile && actions[last] is Terminate {
            assert(telling(actions, last));
        }
        if phase is Pausing || phase is CheckingProcess || phase is Killed {
            let (j, k) = choose|j: int, k: int| #[trigger] told(earlier, before, j, k);
            assert(told(events, actions, j, k));
        }
        assert forall|i: int, j: int|
            0 <= i < actions.len() && 0 <= j < actions.len() && (#[trigger] actions[i])
                is Terminate && (#[trigger] actions[j]) is Terminate implies i == j by {
            if i < last {
                assert(before[i] is Terminate);
            }
            if j < last {
                assert(before[j] is Terminate);
            }
        }
        assert forall|i: int|
            0 <= i < actions.len() && (#[trigger] actions[i]) is CleanUp implies exists|
            j: int,
            k: int,
        | #[trigger] told(events, actions, j, k) && k <= i by {
            if i < last {
                assert(before[i] is CleanUp);
                let (j, k) = choose|j: int, k: int| #[trigger]
                    told(earlier, before, j, k) && k <= i;
                assert(told(events, actions, j, k));
            }
        }
    }
}

/// How often a pause ended.
pub open spec fn kill_naps(events: Seq<KillEvent>) -> nat
    decreases events.len(),
{
    if events.len() == 0 {
        0
    } else {
        kill_naps(events.drop_last()) + if events.last() is Slept {
            1nat
        } else {
            0
        }
    }
}

/// The event brings a file that holds this process number.
pub open spec fn brings_process(event: KillEvent, pid: i32) -> bool {
    event matches KillEvent::PidFile(text) && number_value(trimmed(text@)) == Ok::<
        int,
        NumberError,
    >(pid as int)
}

/// What each outcome leads to, told by what happened before. The process that
/// is told to end and looked at is the one whose number the session's file
/// holds. It is looked at after pauses of 100 milliseconds until it is gone, at
/// most twenty times, and then the files are removed.
pub proof fn law_kill_takes_its_course(events: Seq<KillEvent>)
    requires
        kill_in_turn(events),
        events.len() > 0,
    ensures
        ({
            let action = kill_actions(kill_start(), events).last();
            match events.last() {
                KillEvent::PidFileExists(exists) => if exists {
                    action is ReadPidFile
                } else {
                    action is NotFound
                },
                KillEvent::PidFile(text) => match action {
                    KillAction::Terminate(pid) => brings_process(events.last(), pid),
                    KillAction::InvalidPid(error) => number_value(trimmed(text@)) == Err::<
                        int,
                        NumberError,
                    >(error),
                    _ => false,
                },
                KillEvent::Terminated => action == KillAction::Sleep(100),
                KillEvent::Slept => action matches KillAction::CheckProcess(pid) && brings_process(
                    events[1],
                    pid,
                ),
                KillEvent::Process(alive) => if alive && kill_naps(events) < 20 {
                    action == KillAction::Sleep(100)
                } else {
                    action is CleanUp
                },
            }
        }),
{
    let earlier = events.drop_last();
    lemma_kill_earlier(events);
    lemma_kill_history(earlier);
    lemma_kill_in_turn(earlier);
    lemma_kill_run(earlier);
    if earlier.len() > 1 {
        assert(earlier[1] == events[1]);
    }
    if earlier.len() > 0 {
        let actions = kill_actions(kill_start(), events);
        assert(actions[events.len() - 2] == kill_actions(kill_start(), earlier).last());
        assert(kill_answers(actions[events.len() - 2], events[events.len() - 1]));
    }
    if let KillEvent::PidFile(text) = events.last() {
        law_numbers_have_32_bits(trimmed(text@));
    }
}

proof fn lemma_kill_earlier(events: Seq<KillEvent>)
    requires
        kill_in_turn(events),
        events.len() > 0,
    ensures
        kill_in_turn(events.drop_last()),
        kill_actions(kill_start(), events.drop_last()).len() == events.len() - 1,
{
    let earlier = events.drop_last();
    let before = kill_actions(kill_start(), earlier);
    let actions = kill_actions(kill_start(), events);
    lemma_kill_told(earlier);
    assert(forall|i: int| 0 <= i < before.len() ==> (#[trigger] before[i]) == actions[i]);
    assert forall|i: int| 1 <= i < earlier.len() implies kill_answers(
        before[i - 1],
        #[trigger] earlier[i],
    ) by {
        assert(earlier[i] == events[i]);
    }
}

proof fn lemma_kill_history(events: Seq<KillEvent>)
    requires
        kill_in_turn(events),
    ensures
        ({
            let state = kill_after(kill_start(), events);
            &&& match state.phase {
                KillPhase::Pausing => state.pauses_left + kill_naps(events) == 19,
                KillPhase::CheckingProcess => state.pauses_left + kill_naps(events) == 20,
                KillPhase::Failed | KillPhase::Killed => true,
                _ => state.pauses_left == 20 && kill_naps(events) == 0,
            }
            &&& state.pid matches Some(pid) ==> events.len() >= 2 && brings_process(events[1], pid)
        }),
    decreases events.len(),
{
    if events.len() > 0 {
        let earlier = events.drop_last();
        lemma_kill_earlier(events);
        lemma_kill_history(earlier);
        lemma_kill_in_turn(earlier);
        lemma_kill_run(earlier);
        if earlier.len() > 1 {
            assert(earlier[1] == events[1]);
        }
        if earlier.len() > 0 {
            let actions = kill_actions(kill_start(), events);
            assert(actions[events.len() - 2] == kill_actions(kill_start(), earlier).last());
            assert(kill_answers(actions[events.len() - 2], events[events.len() - 1]));
        }
        if let KillEvent::PidFile(text) = events.last() {
            law_numbers_have_32_bits(trimmed(text@));
        }
    }
}

/// Whatever happens, no process is told to end or looked at but one whose
/// number a file that was read before holds.
pub proof fn law_kill_acts_on_the_number_in_the_file(events: Seq<KillEvent>)
    ensures
        ({
            let actions = kill_actions(kill_start(), events);
            forall|i: int|
                0 <= i < actions.len() ==> match #[trigger] actions[i] {
                    KillAction::Terminate(pid) => was_brought(events, pid),
                    KillAction::CheckProcess(pid) => was_brought(events, pid),
                    _ => true,
                }
        }),
    decreases events.len(),
{
    lemma_kill_run(events);
    lemma_kill_brought(events);
}

/// One of the events brings a file that holds this process number.
pub open spec fn was_brought(events: Seq<KillEvent>, pid: i32) -> bool {
    exists|k: int| 0 <= k < events.len() && brings_process(#[trigger] events[k], pid)
}

proof fn lemma_kill_brought(events: Seq<KillEvent>)
    ensures
        kill_after(kill_start(), events).pid matches Some(pid) ==> was_brought(events, pid),
    decreases events.len(),
{
    if events.len() > 0 {
        let earlier = events.drop_last();
        lemma_kill_brought(earlier);
        let before = kill_after(kill_start(), earlier);
        if let Some(pid) = kill_after(kill_start(), events).pid {
            if before.pid == Some(pid) {
                let k = choose|k: int|
                    0 <= k < earlier.len() && brings_process(#[trigger] earlier[k], pid);
                assert(events[k] == earlier[k]);
            } else if let KillEvent::PidFile(text) = events.last() {
                law_numbers_have_32_bits(trimmed(text@));
                assert(brings_process(events[events.len() - 1], pid));
            }
        }
    }
}

/// In every state, a process is told to end only as the answer to a file that
/// holds its number.
pub proof fn law_only_the_named_process_is_told(
    kill: &mut Kill,
    event: KillEvent,
    action: KillAction,
)
    requires
        call_ensures(Kill::step, (kill, event), action),
    ensures
        action matches KillAction::Terminate(pid) ==> brings_process(event, pid),
        action matches KillAction::InvalidPid(error) ==> (event matches KillEvent::PidFile(text)
            && number_value(trimmed(text@)) == Err::<int, NumberError>(error)),
{
    if let KillEvent::PidFile(text) = event {
        law_numbers_have_32_bits(trimmed(text@));
    }
}

/// An event that does not answer the step before changes nothing.
pub proof fn law_kill_ignores_what_is_out_of_turn(
    kill: &mut Kill,
    event: KillEvent,
    action: KillAction,
)
    requires
        call_ensures(Kill::step, (kill, event), action),
    ensures
        action is Unexpected ==> final(kill)@ == old(kill)@,
        !(match old(kill)@.phase {
            KillPhase::LookingForPidFile => event is PidFileExists,
            KillPhase::ReadingPidFile => event is PidFile,
            KillPhase::Terminating => event is Terminated,
            KillPhase::Pausing => event is Slept,
            KillPhase::CheckingProcess => event is Process,
            KillPhase::Failed => false,
            KillPhase::Killed => false,
        }) ==> action is Unexpected,
{
}

/// A run of calls is a run of steps: each call takes the state and gives the
/// action that the events so far lead to.
pub proof fn law_kill_calls_follow_the_run(
    events: Seq<KillEvent>,
    kill: &mut Kill,
    event: KillEvent,
    action: KillAction,
    fresh: Kill,
)
    requires
        call_ensures(Kill::new, (), fresh),
        old(kill)@ == kill_after(fresh@, events),
        call_ensures(Kill::step, (kill, event), action),
    ensures
        fresh@ == kill_start(),
        final(kill)@ == kill_after(kill_start(), events.push(event)),
        action == kill_actions(kill_start(), events.push(event)).last(),
{
    assert(events.push(event).drop_last() =~= events);
}

/// A session is killed by what its daemon wrote: exactly that process is told
/// to end, and it is the one that is looked at after the first pause.
pub proof fn law_recorded_daemon_is_killed(
    pid: u32,
    before: Seq<char>,
    after: Seq<char>,
    text: String,
    fresh: Kill,
    first: &mut Kill,
    found: KillAction,
    second: &mut Kill,
    read: KillAction,
    third: &mut Kill,
    told: KillAction,
    fourth: &mut Kill,
    slept: KillAction,
)
    requires
        pid <= i32::MAX,
        all_white(before),
        all_white(after),
        text@ == before + decimal_nat(pid as nat) + after,
        call_ensures(Kill::new, (), fresh),
        old(first)@ == fresh@,
        call_ensures(Kill::step, (first, KillEvent::PidFileExists(true)), found),
        old(second)@ == final(first)@,
        call_ensures(Kill::step, (second, KillEvent::PidFile(text)), read),
        old(third)@ == final(second)@,
        call_ensures(Kill::step, (third, KillEvent::Terminated), told),
        old(fourth)@ == final(third)@,
        call_ensures(Kill::step, (fourth, KillEvent::Slept), slept),
    ensures
        found is ReadPidFile,
        read == KillAction::Terminate(pid as i32),
        told == KillAction::Sleep(100),
        slept == KillAction::CheckProcess(pid as i32),
{
    lemma_written_pid(pid, before, after);
}

/// What is said of a session that was killed or not found names the session as
/// it is.
pub proof fn law_kill_messages_name_the_session(session: &str, missing: String, killed: String)
    requires
        call_ensures(not_found_message, (session,), missing),
        call_ensures(killed_message, (session,), killed),
    ensures
        ({
            let n = session@.len() as int;
            &&& missing@.take(9) == "Session '"@
            &&& missing@.subrange(9, 9 + n) == session@
            &&& missing@.skip(9 + n) == "' not found (no pid file)."@
            &&& killed@.take(16) == "Killed session: "@
            &&& killed@.skip(16) == session@
        }),
{
    reveal_strlit("Session '");
    reveal_strlit("Killed session: ");
    let n = session@.len() as int;
    assert(missing@.take(9) =~= "Session '"@);
    assert(missing@.subrange(9, 9 + n) =~= session@);
    assert(missing@.skip(9 + n) =~= "' not found (no pid file)."@);
    assert(killed@.take(16) =~= "Killed session: "@);
    assert(killed@.skip(16) =~= session@);
}

} // verus!
