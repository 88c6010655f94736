//! Sessions as the command line sees them: what to run, the files that belong
//! to a session, and which sessions are listed.
use vstd::prelude::*;
use vstd::string::*;
use crate::text::{
    decimal, decimal_i32, decimal_nat, decimal_u64, enclosed, law_decimal_reads_back,
    law_large_decimal_refused, number_value, parse_number, trimmed, NumberError,
};
use crate::text_laws::{
    all_digits, all_white, between_0_and_9, law_decimal_spells, law_number_is_what_digits_spell,
    law_trimming_leaves_the_core, spelled,
};

verus! {

/// The shell of a session that names none, when the environment names none
/// either.
pub const DEFAULT_SHELL: &'static str = "/bin/bash";

/// A subcommand on the command line.
pub enum Subcommand {
    List,
    Kill(String),
}

/// What the command line asks for.
pub enum Invocation {
    /// List all running sessions.
    List,
    /// Kill a session.
    Kill(String),
    /// Attach to a session, and start it with this shell if it does not run.
    StartOrAttach { session: String, shell: String },
    /// Tell how the program is used.
    Usage,
}

/// The line that tells how the program is used.
pub const USAGE: &'static str = "Usage: shmon <session> OR shmon <command>";

/// The shell that a session runs: the one asked for, else the one that the
/// environment names, else `/bin/bash`.
pub open spec fn shell_text(shell: Option<String>, env_shell: Option<String>) -> Seq<char> {
    match (shell, env_shell) {
        (Some(shell), _) => shell@,
        (None, Some(shell)) => shell@,
        (None, None) => DEFAULT_SHELL@,
    }
}

/// Decides what the command line asks for. A subcommand comes before a session
/// name.
pub fn invocation(
    command: Option<Subcommand>,
    session: Option<String>,
    shell: Option<String>,
    env_shell: Option<String>,
) -> (asked: Invocation)
    ensures
        match (command, session) {
            (Some(Subcommand::List), _) => asked is List,
            (Some(Subcommand::Kill(name)), _) => asked == Invocation::Kill(name),
            (None, Some(name)) => asked matches Invocation::StartOrAttach {
                session: started,
                shell: run,
            } && started == name && run@ == shell_text(shell, env_shell),
            (None, None) => asked is Usage,
        },
{
    match command {
        Some(Subcommand::List) => Invocation::List,
        Some(Subcommand::Kill(name)) => Invocation::Kill(name),
        None => match session {
            Some(name) => {
                let run = match shell {
                    Some(shell) => shell,
                    None => match env_shell {
                        Some(shell) => shell,
                        None => DEFAULT_SHELL.to_owned(),
                    },
                };
                Invocation::StartOrAttach { session: name, shell: run }
            },
            None => Invocation::Usage,
        },
    }
}

/// The name of a session's socket.
pub open spec fn socket_file_text(session: Seq<char>) -> Seq<char> {
    session + ".sock"@
}

/// The name of the file that holds the daemon's process number.
pub open spec fn pid_file_text(session: Seq<char>) -> Seq<char> {
    session + ".pid"@
}

/// The name of the daemon's log.
pub open spec fn log_file_text(session: Seq<char>) -> Seq<char> {
    session + ".log"@
}

/// The session whose process number a file holds, by the file's name: what
/// stands before the extension `pid`, if anything does.
pub open spec fn pid_file_session_text(file_name: Seq<char>) -> Option<Seq<char>> {
    if file_name.len() > 4 && file_name.skip(file_name.len() - 4) == ".pid"@ {
        Some(file_name.take(file_name.len() - 4))
    } else {
        None
    }
}

fn with_suffix(session: &str, suffix: &str) -> (name: String)
    ensures
        name@ == session@ + suffix@,
{
    let mut name = session.to_owned();
    name.append(suffix);
    name
}

/// Names a session's socket.
pub fn socket_file_name(session: &str) -> (name: String)
    ensures
        name@ == socket_file_text(session@),
{
    with_suffix(session, ".sock")
}

/// Names the file that holds the daemon's process number.
pub fn pid_file_name(session: &str) -> (name: String)
    ensures
        name@ == pid_file_text(session@),
{
    with_suffix(session, ".pid")
}

/// Names the daemon's log.
pub fn log_file_name(session: &str) -> (name: String)
    ensures
        name@ == log_file_text(session@),
{
    with_suffix(session, ".log")
}

/// Finds the session whose process number a file holds, by the file's name.
pub fn pid_file_session(file_name: &str) -> (session: Option<String>)
    ensures
        match session {
            Some(name) => pid_file_session_text(file_name@) == Some(name@),
            None => pid_file_session_text(file_name@) is None,
        },
{
    let len = file_name.unicode_len();
    proof {
        reveal_strlit(".pid");
    }
    if len <= 4 {
        return None;
    }
    let ghost tail = file_name@.skip(len - 4);
    assert(tail =~= seq![
        file_name@[len - 4],
        file_name@[len - 3],
        file_name@[len - 2],
        file_name@[len - 1],
    ]);
    assert(".pid"@ =~= seq!['.', 'p', 'i', 'd']);
    if file_name.get_char(len - 4) == '.' && file_name.get_char(len - 3) == 'p'
        && file_name.get_char(len - 2) == 'i' && file_name.get_char(len - 1) == 'd' {
        assert(file_name@.subrange(0, len - 4) =~= file_name@.take(len - 4));
        Some(file_name.substring_char(0, len - 4).to_owned())
    } else {
        assert(tail[0] == file_name@[len - 4] && tail[1] == file_name@[len - 3] && tail[2]
            == file_name@[len - 2] && tail[3] == file_name@[len - 1]);
        None
    }
}

/// Writes what the file with the daemon's process number holds.
pub fn pid_file_content(pid: u32) -> (text: String)
    ensures
        text@ == decimal_nat(pid as nat),
{
    decimal_u64(pid as u64)
}

/// Reads the process number from what its file holds.
pub fn parse_pid(text: &str) -> (r: Result<i32, NumberError>)
    ensures
        match r {
            Ok(pid) => number_value(trimmed(text@)) == Ok::<int, NumberError>(pid as int),
            Err(error) => number_value(trimmed(text@)) == Err::<int, NumberError>(error),
        },
{
    parse_number(text)
}

/// What a file in the sessions' directory says of a session, by the file's name
/// and by what it holds, if it could be read: the session's name and the number
/// of its process.
pub open spec fn listed(file_name: Seq<char>, content: Option<Seq<char>>) -> Option<
    (Seq<char>, int),
> {
    match (pid_file_session_text(file_name), content) {
        (Some(session), Some(text)) => match number_value(trimmed(text)) {
            Ok(pid) => Some((session, pid)),
            Err(_) => None,
        },
        _ => None,
    }
}

/// The text, if there is one.
pub open spec fn optional_text(text: Option<&str>) -> Option<Seq<char>> {
    match text {
        Some(text) => Some(text@),
        None => None,
    }
}

/// Finds the session and the process number that a file stands for.
pub fn listed_process(file_name: &str, content: Option<&str>) -> (r: Option<(String, i32)>)
    ensures
        match r {
            Some((session, pid)) => listed(file_name@, optional_text(content)) == Some(
                (session@, pid as int),
            ),
            None => listed(file_name@, optional_text(content)) is None,
        },
{
    match (pid_file_session(file_name), content) {
        (Some(session), Some(text)) => match parse_pid(text) {
            Ok(pid) => Some((session, pid)),
            Err(_) => None,
        },
        _ => None,
    }
}

/// A session's files carry its name: different sessions have different files,
/// and a session's socket, process number and log are different files.
pub proof fn law_files_are_apart(a: Seq<char>, b: Seq<char>)
    ensures
        socket_file_text(a) == socket_file_text(b) <==> a == b,
        pid_file_text(a) == pid_file_text(b) <==> a == b,
        log_file_text(a) == log_file_text(b) <==> a == b,
        socket_file_text(a) != pid_file_text(b),
        socket_file_text(a) != log_file_text(b),
        pid_file_text(a) != log_file_text(b),
{
    reveal_strlit(".sock");
    reveal_strlit(".pid");
    reveal_strlit(".log");
    if socket_file_text(a) == socket_file_text(b) {
        assert(socket_file_text(a).take(a.len() as int) =~= a);
        assert(socket_file_text(b).take(b.len() as int) =~= b);
    }
    if pid_file_text(a) == pid_file_text(b) {
        assert(pid_file_text(a).take(a.len() as int) =~= a);
        assert(pid_file_text(b).take(b.len() as int) =~= b);
    }
    if log_file_text(a) == log_file_text(b) {
        assert(log_file_text(a).take(a.len() as int) =~= a);
        assert(log_file_text(b).take(b.len() as int) =~= b);
    }
    assert(socket_file_text(a).last() == 'k');
    assert(pid_file_text(b).last() == 'd');
    assert(log_file_text(b).last() == 'g');
    assert(pid_file_text(a).last() == 'd');
}

/// Listing finds every session by the file that its daemon wrote, under the
/// session's own name, and takes no socket and no log for a session.
pub proof fn law_listing_finds_sessions(session: Seq<char>)
    requires
        session.len() > 0,
    ensures
        pid_file_session_text(pid_file_text(session)) == Some(session),
        pid_file_session_text(socket_file_text(session)) is None,
        pid_file_session_text(log_file_text(session)) is None,
{
    reveal_strlit(".sock");
    reveal_strlit(".pid");
    reveal_strlit(".log");
    let name = pid_file_text(session);
    assert(name.skip(name.len() - 4) =~= ".pid"@);
    assert(name.take(name.len() - 4) =~= session);
    let socket = socket_file_text(session);
    assert(socket.skip(socket.len() - 4)[3] == 'k');
    let log = log_file_text(session);
    assert(log.skip(log.len() - 4)[3] == 'g');
}

/// The process number that a daemon wrote is the one that is read back. One
/// that is no 32-bit number with a sign is refused.
pub proof fn law_pid_reads_back(pid: u32)
    ensures
        pid <= i32::MAX ==> number_value(trimmed(decimal_nat(pid as nat))) == Ok::<
            int,
            NumberError,
        >(pid as int),
        pid > i32::MAX ==> number_value(trimmed(decimal_nat(pid as nat))) == Err::<
            int,
            NumberError,
        >(NumberError::TooLarge),
{
    if pid <= i32::MAX {
        law_decimal_reads_back(pid as int);
    } else {
        law_large_decimal_refused(pid as int);
    }
}

/// What a daemon wrote leads back to it: the file for a session's process
/// number stands for that session and that number.
pub proof fn law_daemon_is_found_again(session: Seq<char>, pid: u32)
    requires
        session.len() > 0,
        pid <= i32::MAX,
    ensures
        listed(pid_file_text(session), Some(decimal_nat(pid as nat))) == Some(
            (session, pid as int),
        ),
{
    law_listing_finds_sessions(session);
    law_pid_reads_back(pid);
}

/// Tells whether a process is a live daemon of this program: it takes signals,
/// and its executable is the one that runs here, or at least has the same name.
/// `same_path` compares the two executables, if both could be found out.
pub fn is_own_daemon(
    takes_signals: bool,
    same_path: Option<bool>,
    own_name: &Option<Vec<u8>>,
    other_name: &Option<Vec<u8>>,
) -> (own: bool)
    ensures
        own == (takes_signals && match same_path {
            Some(same) => same || (match (*own_name, *other_name) {
                (Some(a), Some(b)) => a@ == b@,
                _ => false,
            }),
            None => false,
        }),
{
    if !takes_signals {
        return false;
    }
    match same_path {
        Some(same) => {
            if same {
                return true;
            }
            match (own_name, other_name) {
                (Some(a), Some(b)) => same_bytes(a, b),
                _ => false,
            }
        },
        None => false,
    }
}

fn same_bytes(a: &Vec<u8>, b: &Vec<u8>) -> (same: bool)
    ensures
        same == (a@ == b@),
{
    if a.len() != b.len() {
        return false;
    }
    let mut i: usize = 0;
    while i < a.len()
        invariant
            i <= a@.len(),
            a@.len() == b@.len(),
            forall|j: int| 0 <= j < i ==> a@[j] == b@[j],
        decreases a@.len() - i,
    {
        if a[i] != b[i] {
            return false;
        }
        i += 1;
    }
    assert(a@ =~= b@);
    true
}

/// The line above the listed sessions.
pub const LISTING_HEADER: &'static str = "Active sessions:";

/// The line when there is no place for sessions at all.
pub const NO_SESSIONS: &'static str = "No sessions found.";

/// The line that lists a session.
pub open spec fn list_line(session: Seq<char>, pid: i32) -> Seq<char> {
    "  "@ + session + " (PID "@ + decimal(pid as int) + ")"@
}

/// A list of sessions in the making.
#[derive(Debug)]
pub struct Listing {
    found: bool,
}

impl Listing {
    /// A session was listed.
    pub closed spec fn has_sessions(&self) -> bool {
        self.found
    }

    /// No session was listed yet.
    pub fn new() -> (listing: Self)
        ensures
            !listing.has_sessions(),
    {
        Listing { found: false }
    }

    /// The line for a session, if its daemon is alive.
    pub fn session(&mut self, session: &str, pid: i32, alive: bool) -> (line: Option<String>)
        ensures
            final(self).has_sessions() == (old(self).has_sessions() || alive),
            match line {
                Some(text) => alive && text@ == list_line(session@, pid),
                None => !alive,
            },
    {
        if alive {
            self.found = true;
            let mut line = enclosed("  ", session, " (PID ");
            line.append(decimal_i32(pid).as_str());
            line.append(")");
            Some(line)
        } else {
            None
        }
    }

    /// The line that ends a list without sessions.
    pub fn closing(&self) -> (line: Option<String>)
        ensures
            match line {
                Some(text) => !self.has_sessions() && text@ == "  (none)"@,
                None => self.has_sessions(),
            },
    {
        if self.found {
            None
        } else {
            Some("  (none)".to_owned())
        }
    }
}

/// The name of a session and the shell it runs reach the session as they were
/// given: the shell asked for, else that of the environment, else `/bin/bash`.
pub proof fn law_session_gets_name_and_shell(
    name: String,
    shell: Option<String>,
    env_shell: Option<String>,
    asked: Invocation,
)
    requires
        call_ensures(invocation, (None::<Subcommand>, Some(name), shell, env_shell), asked),
    ensures
        asked matches Invocation::StartOrAttach { session, shell: run } && {
            &&& session@ == name@
            &&& shell matches Some(text) ==> run@ == text@
            &&& shell is None && env_shell is Some ==> run@ == env_shell->0@
            &&& shell is None && env_shell is None ==> run@ == "/bin/bash"@
        },
{
}

/// A subcommand is obeyed whatever else is given, and the session to kill is
/// the one that was named. With neither a subcommand nor a session, the usage
/// is told.
pub proof fn law_subcommands_are_obeyed(
    name: String,
    session: Option<String>,
    shell: Option<String>,
    env_shell: Option<String>,
    listing: Invocation,
    killing: Invocation,
    nothing: Invocation,
)
    requires
        call_ensures(invocation, (Some(Subcommand::List), session, shell, env_shell), listing),
        call_ensures(
            invocation,
            (Some(Subcommand::Kill(name)), session, shell, env_shell),
            killing,
        ),
        call_ensures(invocation, (None::<Subcommand>, None::<String>, shell, env_shell), nothing),
    ensures
        listing is List,
        killing matches Invocation::Kill(killed) && killed@ == name@,
        nothing is Usage,
{
}

/// A session's files are named by the whole name of the session and one of
/// three endings.
pub proof fn law_files_are_named_after_the_session(
    session: &str,
    socket: String,
    pid: String,
    log: String,
)
    requires
        call_ensures(socket_file_name, (session,), socket),
        call_ensures(pid_file_name, (session,), pid),
        call_ensures(log_file_name, (session,), log),
    ensures
        socket@.take(session@.len() as int) == session@,
        socket@.skip(session@.len() as int) == ".sock"@,
        pid@.take(session@.len() as int) == session@,
        pid@.skip(session@.len() as int) == ".pid"@,
        log@.take(session@.len() as int) == session@,
        log@.skip(session@.len() as int) == ".log"@,
{
    assert(socket@.take(session@.len() as int) =~= session@);
    assert(socket@.skip(session@.len() as int) =~= ".sock"@);
    assert(pid@.take(session@.len() as int) =~= session@);
    assert(pid@.skip(session@.len() as int) =~= ".pid"@);
    assert(log@.take(session@.len() as int) =~= session@);
    assert(log@.skip(session@.len() as int) =~= ".log"@);
}

/// A file stands for a session exactly if its name is the session's, which is
/// not empty, and the ending `.pid`.
pub proof fn law_pid_files_stand_for_sessions(file_name: Seq<char>, session: Seq<char>)
    ensures
        pid_file_session_text(file_name) == Some(session) <==> session.len() > 0 && file_name
            == session + ".pid"@,
        pid_file_session_text(file_name) is None ==> !(session.len() > 0 && file_name == session
            + ".pid"@),
{
    reveal_strlit(".pid");
    if pid_file_session_text(file_name) is Some {
        let stem = file_name.take(file_name.len() - 4);
        assert(file_name =~= stem + ".pid"@);
        if file_name == session + ".pid"@ {
            assert(stem =~= session);
        }
    }
    if session.len() > 0 && file_name == session + ".pid"@ {
        assert(file_name.skip(file_name.len() - 4) =~= ".pid"@);
        assert(file_name.take(file_name.len() - 4) =~= session);
    }
}

/// A call finds the session of a file exactly by its name.
pub proof fn law_sessions_are_found_by_file_name(
    file_name: &str,
    found: Option<String>,
    session: Seq<char>,
)
    requires
        call_ensures(pid_file_session, (file_name,), found),
    ensures
        found is Some && found->0@ == session <==> session.len() > 0 && file_name@ == session
            + ".pid"@,
{
    law_pid_files_stand_for_sessions(file_name@, session);
}

/// The number that a daemon's file holds is the number of its process, whatever
/// white space stands around it there: what is written is read back.
pub proof fn law_process_number_is_read_back(
    pid: u32,
    content: String,
    before: Seq<char>,
    after: Seq<char>,
    text: &str,
    r: Result<i32, NumberError>,
)
    requires
        call_ensures(pid_file_content, (pid,), content),
        all_white(before),
        all_white(after),
        text@ == before + content@ + after,
        call_ensures(parse_pid, (text,), r),
    ensures
        pid <= i32::MAX ==> r == Ok::<i32, NumberError>(pid as i32),
        pid > i32::MAX ==> r == Err::<i32, NumberError>(NumberError::TooLarge),
{
    lemma_written_pid(pid, before, after);
}

/// The number that a daemon wrote is found among white space.
pub proof fn lemma_written_pid(pid: u32, before: Seq<char>, after: Seq<char>)
    requires
        all_white(before),
        all_white(after),
    ensures
        number_value(trimmed(before + decimal_nat(pid as nat) + after)) == (if pid <= i32::MAX {
            Ok::<int, NumberError>(pid as int)
        } else {
            Err(NumberError::TooLarge)
        }),
{
    let digits = decimal_nat(pid as nat);
    law_decimal_spells(pid as nat);
    assert(between_0_and_9(digits[0]));
    assert(between_0_and_9(digits[digits.len() - 1]));
    law_trimming_leaves_the_core(before, digits, after);
    law_number_is_what_digits_spell(digits);
}

/// A file is listed as a session exactly if it is named after one and holds
/// digits that spell a process number, and then under that name and number.
pub proof fn law_listed_is_what_the_file_says(
    session: Seq<char>,
    digits: Seq<char>,
    before: Seq<char>,
    after: Seq<char>,
    file_name: &str,
    content: &str,
    r: Option<(String, i32)>,
    unread: Option<(String, i32)>,
)
    requires
        digits.len() > 0,
        all_digits(digits),
        all_white(before),
        all_white(after),
        content@ == before + digits + after,
        call_ensures(listed_process, (file_name, Some(content)), r),
        call_ensures(listed_process, (file_name, None::<&str>), unread),
    ensures
        unread is None,
        session.len() > 0 && file_name@ == session + ".pid"@ && spelled(digits) <= i32::MAX ==> (
        r matches Some((name, pid)) && name@ == session && pid == spelled(digits)),
        r matches Some((name, pid)) ==> name@.len() > 0 && file_name@ == name@ + ".pid"@ && pid
            == spelled(digits),
{
    assert(between_0_and_9(digits[0]));
    assert(between_0_and_9(digits[digits.len() - 1]));
    law_trimming_leaves_the_core(before, digits, after);
    law_number_is_what_digits_spell(digits);
    law_pid_files_stand_for_sessions(file_name@, session);
    if let Some((name, pid)) = r {
        law_pid_files_stand_for_sessions(file_name@, name@);
    }
}

/// A process that takes no signals is no daemon, and neither is one whose
/// program could not be found out. Else the same program is one, and another
/// only if both have a name and the names are the same, byte for byte.
pub proof fn law_own_daemons_are_told_by_their_program(
    takes_signals: bool,
    same_path: Option<bool>,
    own_name: Option<Vec<u8>>,
    other_name: Option<Vec<u8>>,
    own: bool,
)
    requires
        call_ensures(is_own_daemon, (takes_signals, same_path, &own_name, &other_name), own),
    ensures
        !takes_signals || same_path is None ==> !own,
        takes_signals && same_path is Some && same_path->0 ==> own,
        takes_signals && same_path is Some && !same_path->0 ==> (own <==> own_name is Some
            && other_name is Some && own_name->0@.len() == other_name->0@.len() && forall|i: int|
            0 <= i < own_name->0@.len() ==> own_name->0@[i] == other_name->0@[i]),
{
    if own_name is Some && other_name is Some && own_name->0@.len() == other_name->0@.len()
        && forall|i: int|
        0 <= i < own_name->0@.len() ==> own_name->0@[i] == other_name->0@[i] {
        assert(own_name->0@ =~= other_name->0@);
    }
}

/// A live session is listed under its whole name, with its process number: the
/// name stands behind two spaces, and the number before the closing bracket
/// reads as the session's. A dead one is not listed.
pub proof fn law_line_names_session_and_number(
    listing: &mut Listing,
    session: &str,
    pid: i32,
    line: Option<String>,
    quiet: &mut Listing,
    none: Option<String>,
)
    requires
        call_ensures(Listing::session, (listing, session, pid, true), line),
        call_ensures(Listing::session, (quiet, session, pid, false), none),
    ensures
        final(listing).has_sessions(),
        line matches Some(text) && {
            let n = session@.len() as int;
            &&& text@.len() > n + 9
            &&& text@.take(2) == "  "@
            &&& text@.subrange(2, 2 + n) == session@
            &&& text@.subrange(2 + n, 8 + n) == " (PID "@
            &&& number_value(text@.subrange(8 + n, text@.len() - 1)) == Ok::<int, NumberError>(
                pid as int,
            )
            &&& text@.last() == ')'
        },
        none is None,
        final(quiet).has_sessions() == old(quiet).has_sessions(),
{
    reveal_strlit("  ");
    reveal_strlit(" (PID ");
    reveal_strlit(")");
    if let Some(text) = line {
        let n = session@.len() as int;
        law_decimal_reads_back(pid as int);
        assert(text@.take(2) =~= "  "@);
        assert(text@.subrange(2, 2 + n) =~= session@);
        assert(text@.subrange(2 + n, 8 + n) =~= " (PID "@);
        assert(text@.subrange(8 + n, text@.len() - 1) =~= decimal(pid as int));
    }
}

/// A list without sessions ends with a line that says so, and no other does.
pub proof fn law_empty_list_says_so(listing: Listing, line: Option<String>, fresh: Listing)
    requires
        call_ensures(Listing::closing, (&listing,), line),
        call_ensures(Listing::new, (), fresh),
    ensures
        !fresh.has_sessions(),
        listing.has_sessions() ==> line is None,
        !listing.has_sessions() ==> (line matches Some(text) && text@ == "  (none)"@),
{
}

/// A process number is read as any number is.
pub proof fn law_process_number_is_a_number(
    text: &str,
    pid: Result<i32, NumberError>,
    number: Result<i32, NumberError>,
)
    requires
        call_ensures(parse_pid, (text,), pid),
        call_ensures(parse_number, (text,), number),
    ensures
        pid == number,
{
}

/// The fixed words of a list and of the usage.
pub proof fn law_fixed_words()
    ensures
        LISTING_HEADER@ == "Active sessions:"@,
        NO_SESSIONS@ == "No sessions found."@,
        USAGE@ == "Usage: shmon <session> OR shmon <command>"@,
{
}

} // verus!
