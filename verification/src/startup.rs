//! What the daemon decides when it starts and when it cleans up: whether an
//! earlier instance still runs, and whether its files are gone.
use vstd::prelude::*;
use vstd::string::*;
use crate::text::{
    chars_of, decimal, int_error_message, occurs, occurs_in, parse_u32, parse_u32_spec,
    push_decimal, trim, trimmed, views, IntParseError,
};

verus! {

broadcast use vstd::string::group_string_axioms;

/// Why the daemon does not start.
#[derive(Debug)]
pub enum StartupError {
    /// The process id file does not hold a process id.
    BadPid(IntParseError),
    /// The process of this id still runs.
    AlreadyRunning(u32),
    /// The files of the earlier instance could not all be removed.
    CleanupFailed,
}

/// The message of a startup error.
pub open spec fn startup_error_message(e: StartupError) -> Seq<char> {
    match e {
        StartupError::BadPid(k) => "Failed to parse PID: "@ + int_error_message(k),
        StartupError::AlreadyRunning(pid) => "PID "@ + decimal(pid as nat)
            + " is active. Another instance is running, terminating."@,
        StartupError::CleanupFailed => "Failed to clean up old daemon files"@,
    }
}

impl StartupError {
    /// The message of this error.
    pub fn message(&self) -> (r: String)
        ensures
            r@ == startup_error_message(*self),
    {
        match self {
            StartupError::BadPid(k) => {
                let mut r = "Failed to parse PID: ".to_owned();
                r.append(k.message());
                r
            },
            StartupError::AlreadyRunning(pid) => {
                let mut r = "PID ".to_owned();
                push_decimal(&mut r, *pid as u64);
                r.append(" is active. Another instance is running, terminating.");
                r
            },
            StartupError::CleanupFailed => "Failed to clean up old daemon files".to_owned(),
        }
    }
}

/// The process id that the text of a process id file names (read as
/// `text.trim().parse::<u32>()`).
pub open spec fn pid_in_file(contents: Seq<char>) -> Result<u32, IntParseError> {
    parse_u32_spec(trimmed(contents))
}

/// The process id that the text of a process id file names.
pub fn pid_from_file(contents: &str) -> (r: Result<u32, IntParseError>)
    ensures
        r == pid_in_file(contents@),
{
    let t = trim(contents);
    parse_u32(&chars_of(t.as_str()))
}

/// Whether the output of `ps -p pid` lists the process: some line of it holds
/// the decimal process id (a run of digits lies within one line, so this is the
/// same as the whole output holding it).
pub open spec fn listed(output: Seq<char>, pid: u32) -> bool {
    occurs_in(decimal(pid as nat), output)
}

/// Whether the output of `ps -p pid` lists the process.
pub fn pid_listed(output: &str, pid: u32) -> (r: bool)
    ensures
        r == listed(output@, pid),
{
    let mut p = String::new();
    push_decimal(&mut p, pid as u64);
    occurs(&chars_of(p.as_str()), &chars_of(output))
}

/// The command that lists process `pid`.
pub open spec fn ps_words(pid: u32) -> Seq<Seq<char>> {
    seq!["ps"@, "-p"@, decimal(pid as nat)]
}

/// Where the start-up check of the daemon is.
#[derive(PartialEq, Eq, Structural, Clone, Copy, Debug)]
pub enum StartupPhase {
    /// Nothing has been looked at.
    Begin,
    /// The earlier instance's process is being looked for.
    Probing(u32),
    /// The earlier instance's files are being removed.
    CleaningUp(u32),
    /// The daemon's own process id is being written.
    Claiming,
    /// The check is over.
    Finished,
}

/// What the caller reports to the start-up check.
#[derive(Debug)]
pub enum StartupEvent {
    /// The text of the process id file, or `None` when there is none.
    PidFile(Option<String>),
    /// The output of the process listing that was asked for.
    PsOutput(String),
    /// Whether removing the earlier instance's files succeeded.
    CleanedUp(bool),
    /// The daemon's own process id was written.
    PidWritten,
}

/// What the start-up check asks of the caller.
#[derive(Debug)]
pub enum StartupAction {
    /// Run this command (`ps -p pid`) and report its output.
    RunPs(Vec<String>),
    /// Remove the earlier instance's files and report whether that succeeded.
    CleanUp,
    /// Write the daemon's own process id and report it.
    WritePid,
    /// The check is over: the daemon may run, or must not, for this reason.
    Finish(Result<(), StartupError>),
}

/// Whether `event` is what the check in `phase` waits for.
pub open spec fn expected(phase: StartupPhase, event: StartupEvent) -> bool {
    match (phase, event) {
        (StartupPhase::Begin, StartupEvent::PidFile(_)) => true,
        (StartupPhase::Probing(_), StartupEvent::PsOutput(_)) => true,
        (StartupPhase::CleaningUp(_), StartupEvent::CleanedUp(_)) => true,
        (StartupPhase::Claiming, StartupEvent::PidWritten) => true,
        _ => false,
    }
}

/// Whether `next` and `r` are the check's step from `phase` on `event`: with
/// no process id file the daemon claims it; a file that names no process id
/// stops it; a listed process stops it; an unlisted one is cleaned up after,
/// and a failed clean-up stops it; once the id is written, the daemon runs.
pub open spec fn startup_step(
    phase: StartupPhase,
    event: StartupEvent,
    next: StartupPhase,
    r: StartupAction,
) -> bool {
    match (phase, event) {
        (StartupPhase::Begin, StartupEvent::PidFile(None)) => next == StartupPhase::Claiming
            && r is WritePid,
        (StartupPhase::Begin, StartupEvent::PidFile(Some(t))) => match pid_in_file(t@) {
            Ok(pid) => next == StartupPhase::Probing(pid) && (r matches StartupAction::RunPs(argv)
                && views(argv@) == ps_words(pid)),
            Err(e) => next == StartupPhase::Finished && (r matches StartupAction::Finish(
                Err(StartupError::BadPid(k)),
            ) && k == e),
        },
        (StartupPhase::Probing(pid), StartupEvent::PsOutput(out)) => if listed(out@, pid) {
            next == StartupPhase::Finished && (r matches StartupAction::Finish(
                Err(StartupError::AlreadyRunning(p)),
            ) && p == pid)
        } else {
            next == StartupPhase::CleaningUp(pid) && r is CleanUp
        },
        (StartupPhase::CleaningUp(_), StartupEvent::CleanedUp(ok)) => if ok {
            next == StartupPhase::Claiming && r is WritePid
        } else {
            next == StartupPhase::Finished && r matches StartupAction::Finish(
                Err(StartupError::CleanupFailed),
            )
        },
        (StartupPhase::Claiming, StartupEvent::PidWritten) => next == StartupPhase::Finished
            && r matches StartupAction::Finish(Ok(())),
        _ => false,
    }
}

/// One step of the daemon's start-up check: refuses to start while an earlier
/// instance runs, and cleans up after one that did not end gracefully.
pub fn check_running(phase: &mut StartupPhase, event: StartupEvent) -> (r: StartupAction)
    requires
        expected(*old(phase), event),
    ensures
        startup_step(*old(phase), event, *final(phase), r),
{
    match event {
        StartupEvent::PidFile(None) => {
            *phase = StartupPhase::Claiming;
            StartupAction::WritePid
        },
        StartupEvent::PidFile(Some(t)) => match pid_from_file(t.as_str()) {
            Ok(pid) => {
                *phase = StartupPhase::Probing(pid);
                let mut argv: Vec<String> = Vec::new();
                argv.push("ps".to_owned());
                argv.push("-p".to_owned());
                let mut n = String::new();
                push_decimal(&mut n, pid as u64);
                argv.push(n);
                assert(views(argv@) == ps_words(pid));
                StartupAction::RunPs(argv)
            },
            Err(e) => {
                *phase = StartupPhase::Finished;
                StartupAction::Finish(Err(StartupError::BadPid(e)))
            },
        },
        StartupEvent::PsOutput(out) => {
            let pid = match *phase {
                StartupPhase::Probing(p) => p,
                _ => 0,
            };
            if pid_listed(out.as_str(), pid) {
                *phase = StartupPhase::Finished;
                StartupAction::Finish(Err(StartupError::AlreadyRunning(pid)))
            } else {
                *phase = StartupPhase::CleaningUp(pid);
                StartupAction::CleanUp
            }
        },
        StartupEvent::CleanedUp(ok) => {
            if ok {
                *phase = StartupPhase::Claiming;
                StartupAction::WritePid
            } else {
                *phase = StartupPhase::Finished;
                StartupAction::Finish(Err(StartupError::CleanupFailed))
            }
        },
        StartupEvent::PidWritten => {
            *phase = StartupPhase::Finished;
            StartupAction::Finish(Ok(()))
        },
    }
}

/// What came of removing one of the daemon's files.
#[derive(PartialEq, Eq, Structural, Clone, Copy, Debug)]
pub enum Removal {
    /// The file did not exist.
    Absent,
    /// The file was removed.
    Removed,
    /// The file exists and could not be removed.
    Failed,
}

/// Whether a clean-up with these outcomes succeeded: no file that existed
/// failed to be removed.
pub open spec fn cleaned(outcomes: Seq<Removal>) -> bool {
    forall|i: int| 0 <= i < outcomes.len() ==> #[trigger] outcomes[i] != Removal::Failed
}

/// Whether the clean-up succeeded: no file that existed failed to be removed.
pub fn cleanup_succeeded(outcomes: &Vec<Removal>) -> (r: bool)
    ensures
        r == cleaned(outcomes@),
{
    let mut success = true;
    let mut i: usize = 0;
    while i < outcomes.len()
        invariant
            i <= outcomes.len(),
            success == forall|j: int| 0 <= j < i ==> #[trigger] outcomes@[j] != Removal::Failed,
        decreases outcomes.len() - i,
    {
        if outcomes[i] == Removal::Failed {
            success = false;
        }
        i = i + 1;
    }
    success
}

} // verus!
