//! One supervised service: its configuration, its life cycle, its log and its
//! status report. Launching and signalling processes is left to the caller:
//! the service says which command to run and records what came of it.
use vstd::prelude::*;
use vstd::string::*;
use crate::paths::CONFIG;
use crate::text::{decimal, push_decimal, split_whitespace, views, words};
use crate::yaml::{flag, get, text, YamlModel, YamlValue};

verus! {

broadcast use vstd::string::group_string_axioms;

/// Where a service stands in its life cycle.
#[derive(PartialEq, Eq, Structural, Clone, Copy, Debug)]
pub enum ServiceState {
    Loaded,
    Running,
    Stopped,
    Failed,
}

/// The name under which a state is shown.
pub open spec fn state_name(s: ServiceState) -> Seq<char> {
    match s {
        ServiceState::Loaded => "Loaded"@,
        ServiceState::Running => "Running"@,
        ServiceState::Stopped => "Stopped"@,
        ServiceState::Failed => "Failed"@,
    }
}

impl ServiceState {
    /// The name under which this state is shown (its `Display`).
    pub fn name(&self) -> (r: &'static str)
        ensures
            r@ == state_name(*self),
    {
        match self {
            ServiceState::Loaded => "Loaded",
            ServiceState::Running => "Running",
            ServiceState::Stopped => "Stopped",
            ServiceState::Failed => "Failed",
        }
    }
}

/// The output stream of a service that a log line came from.
#[derive(PartialEq, Eq, Structural, Clone, Copy, Debug)]
pub enum Stream {
    Stdout,
    Stderr,
}

/// What went wrong with a service.
#[derive(Debug)]
pub enum ServiceError {
    /// The configuration has no string `name`.
    MissingName,
    /// The configuration has no string `start`.
    MissingStart,
    /// A command could not be spawned; the text is the system's reason.
    Spawn(String),
    /// The termination signal could not be sent; the text is the system's reason.
    Signal(String),
    /// The command to run has no words, so there is no program to spawn.
    EmptyCommand,
}

/// The message of a service error.
pub open spec fn service_error_message(e: ServiceError) -> Seq<char> {
    match e {
        ServiceError::MissingName => "Service name is not specified in config file: "@ + CONFIG@,
        ServiceError::MissingStart => "Service start command is not specified in config file: "@
            + CONFIG@,
        ServiceError::Spawn(reason) => "Failed to spawn command: "@ + reason@,
        ServiceError::Signal(reason) => "Failed to send SIGTERM: "@ + reason@,
        ServiceError::EmptyCommand => "Failed to spawn command: the command is empty"@,
    }
}

impl ServiceError {
    /// The message of this error.
    pub fn message(&self) -> (r: String)
        ensures
            r@ == service_error_message(*self),
    {
        match self {
            ServiceError::MissingName => {
                let mut r = "Service name is not specified in config file: ".to_owned();
                r.append(CONFIG);
                r
            },
            ServiceError::MissingStart => {
                let mut r = "Service start command is not specified in config file: ".to_owned();
                r.append(CONFIG);
                r
            },
            ServiceError::Spawn(reason) => {
                let mut r = "Failed to spawn command: ".to_owned();
                r.append(reason.as_str());
                r
            },
            ServiceError::Signal(reason) => {
                let mut r = "Failed to send SIGTERM: ".to_owned();
                r.append(reason.as_str());
                r
            },
            ServiceError::EmptyCommand => "Failed to spawn command: the command is empty".to_owned(),
        }
    }
}

/// What a probe of a service's process found.
#[derive(Debug)]
pub enum Probe {
    /// The process is listed.
    Alive,
    /// The process is gone.
    Gone,
    /// The process could not be checked, at `time`, for the reason `error`.
    Failed { time: u64, error: String },
}

/// The model of a service.
pub struct ServiceView {
    pub state: ServiceState,
    pub pid: Option<u32>,
    pub path: Seq<char>,
    pub enabled: bool,
    pub name: Seq<char>,
    pub as_root: bool,
    pub start: Seq<char>,
    pub stop: Option<Seq<char>>,
    pub logs: Seq<(u64, Seq<char>)>,
}

/// A service as its configuration file describes it, with the process it runs
/// and the lines it logged.
pub struct Service {
    state: ServiceState,
    pid: Option<u32>,
    path: String,
    enabled: bool,
    name: String,
    as_root: bool,
    start: String,
    stop: Option<String>,
    logs: Vec<(u64, String)>,
}

/// The models of log entries.
pub open spec fn log_views(logs: Seq<(u64, String)>) -> Seq<(u64, Seq<char>)> {
    Seq::new(logs.len(), |i: int| (logs[i].0, logs[i].1@))
}

/// The model of an optional string.
pub open spec fn opt_view(s: Option<String>) -> Option<Seq<char>> {
    match s {
        Some(t) => Some(t@),
        None => None,
    }
}

impl View for Service {
    type V = ServiceView;

    closed spec fn view(&self) -> ServiceView {
        ServiceView {
            state: self.state,
            pid: self.pid,
            path: self.path@,
            enabled: self.enabled,
            name: self.name@,
            as_root: self.as_root,
            start: self.start@,
            stop: opt_view(self.stop),
            logs: log_views(self.logs@),
        }
    }
}

/// The string under `key` in a service's configuration.
pub open spec fn config_text(config: YamlModel, key: Seq<char>) -> Option<Seq<char>> {
    text(get(config, key))
}

/// The service that a configuration document describes, found at `path`:
/// it needs the strings `name` and `start`; `enabled` (default true),
/// `as_root` (default false) and the string `stop` are optional.
pub open spec fn service_from_config(config: YamlModel, path: Seq<char>) -> Result<ServiceView, ServiceError> {
    match config_text(config, "name"@) {
        None => Err(ServiceError::MissingName),
        Some(name) => match config_text(config, "start"@) {
            None => Err(ServiceError::MissingStart),
            Some(start) => Ok(
                ServiceView {
                    state: ServiceState::Loaded,
                    pid: None,
                    path,
                    enabled: match flag(get(config, "enabled"@)) {
                        Some(b) => b,
                        None => true,
                    },
                    name,
                    as_root: match flag(get(config, "as_root"@)) {
                        Some(b) => b,
                        None => false,
                    },
                    start,
                    stop: config_text(config, "stop"@),
                    logs: seq![],
                },
            ),
        },
    }
}

/// The text of the command that runs `command`, prefixed by `sudo ` for root.
pub open spec fn command_text(as_root: bool, command: Seq<char>) -> Seq<char> {
    if as_root {
        "sudo "@ + command
    } else {
        command
    }
}

/// The program and arguments of the command that runs `command`.
pub open spec fn command_words(as_root: bool, command: Seq<char>) -> Seq<Seq<char>> {
    words(command_text(as_root, command))
}

/// Whether starting the service launches a process: it is enabled and not running.
pub open spec fn launches(s: ServiceView) -> bool {
    s.enabled && s.state != ServiceState::Running
}

/// Whether stopping the service has anything to do: it is enabled and not stopped.
pub open spec fn halts(s: ServiceView) -> bool {
    s.enabled && s.state != ServiceState::Stopped
}

/// The service after its process `pid` was launched.
pub open spec fn started(s: ServiceView, pid: u32) -> ServiceView {
    if launches(s) {
        ServiceView { pid: Some(pid), state: ServiceState::Running, ..s }
    } else {
        s
    }
}

/// The service after it was stopped.
pub open spec fn stopped(s: ServiceView) -> ServiceView {
    if halts(s) {
        ServiceView { pid: None, state: ServiceState::Stopped, ..s }
    } else {
        s
    }
}

/// The process a status check looks for: that of an enabled service that is
/// not stopped, if it has one.
pub open spec fn probed_pid(s: ServiceView) -> Option<u32> {
    if halts(s) {
        s.pid
    } else {
        None
    }
}

/// The service after a status check of its process found `probe`.
pub open spec fn updated(s: ServiceView, probe: Probe) -> ServiceView {
    if probed_pid(s) is None {
        s
    } else {
        match probe {
            Probe::Alive => ServiceView { state: ServiceState::Running, ..s },
            Probe::Gone => ServiceView { state: ServiceState::Stopped, ..s },
            Probe::Failed { time, error } => logged(
                ServiceView { state: ServiceState::Failed, ..s },
                time,
                "Failed to check process: "@ + error@,
            ),
        }
    }
}

/// The service with `(time, line)` added to its log.
pub open spec fn logged(s: ServiceView, time: u64, line: Seq<char>) -> ServiceView {
    ServiceView { logs: s.logs.push((time, line)), ..s }
}

/// The label a logged line gets for its stream.
pub open spec fn stream_label(stream: Stream) -> Seq<char> {
    match stream {
        Stream::Stdout => "stdout: "@,
        Stream::Stderr => "stderr: "@,
    }
}

/// The command that asks process `pid` to terminate.
pub open spec fn signal_words(pid: u32) -> Seq<Seq<char>> {
    seq!["kill"@, "-SIGTERM"@, decimal(pid as nat)]
}

/// Where a stop of a service is: nothing done yet, its stop command or its
/// termination signal being spawned, or over.
#[derive(PartialEq, Eq, Structural, Clone, Copy, Debug)]
pub enum StopPhase {
    Begin,
    StopCommand,
    Signal,
    Over,
}

/// What the caller reports to a stop of a service.
#[derive(Debug)]
pub enum StopEvent {
    /// The stop begins.
    Begin,
    /// The command asked for was spawned.
    Spawned,
    /// The command asked for could not be spawned, for this reason.
    SpawnFailed(String),
}

/// What a stop of a service asks of the caller.
#[derive(Debug)]
pub enum StopAction {
    /// Spawn this command (program and arguments) and report what came of it.
    Spawn(Vec<String>),
    /// The stop is over.
    Done,
    /// The stop ends with this error; the service is as it was.
    Failed(ServiceError),
}

/// Whether `event` is what a stop of `s` in `phase` waits for: a stop begins
/// with `Begin`, and a spawn is reported only while one is awaited, for a
/// service that stopping concerns and that has a process.
pub open spec fn stop_expected(s: ServiceView, phase: StopPhase, event: StopEvent) -> bool {
    match phase {
        StopPhase::Begin => event is Begin,
        StopPhase::StopCommand | StopPhase::Signal => !(event is Begin) && halts(s) && s.pid is Some,
        StopPhase::Over => false,
    }
}

/// Whether `r` asks to spawn the termination signal to process `pid`.
pub open spec fn asks_signal(r: StopAction, pid: u32) -> bool {
    r matches StopAction::Spawn(argv) && views(argv@) == signal_words(pid)
}

/// Whether `after`, `next` and `r` are the step of a stop of `before` in
/// `phase` on `event`.
pub open spec fn stop_step(
    before: ServiceView,
    phase: StopPhase,
    event: StopEvent,
    after: ServiceView,
    next: StopPhase,
    r: StopAction,
) -> bool {
    match (phase, event) {
        (StopPhase::Begin, StopEvent::Begin) => if !halts(before) {
            after == before && next == StopPhase::Over && r is Done
        } else {
            match (before.pid, before.stop) {
                (Some(_), Some(c)) => after == before && if command_words(before.as_root, c).len()
                    == 0 {
                    next == StopPhase::Over && r matches StopAction::Failed(
                        ServiceError::EmptyCommand,
                    )
                } else {
                    next == StopPhase::StopCommand && (r matches StopAction::Spawn(argv) && views(
                        argv@,
                    ) == command_words(before.as_root, c))
                },
                (Some(p), None) => after == before && next == StopPhase::Signal && asks_signal(r, p),
                (None, _) => after == stopped(before) && next == StopPhase::Over && r is Done,
            }
        },
        (StopPhase::StopCommand, StopEvent::Spawned) => after == before && next
            == StopPhase::Signal && asks_signal(r, before.pid->0),
        (StopPhase::StopCommand, StopEvent::SpawnFailed(m)) => after == before && next
            == StopPhase::Over && (r matches StopAction::Failed(ServiceError::Spawn(e)) && e@ == m@),
        (StopPhase::Signal, StopEvent::Spawned) => after == stopped(before) && next
            == StopPhase::Over && r is Done,
        (StopPhase::Signal, StopEvent::SpawnFailed(m)) => after == before && next
            == StopPhase::Over && (r matches StopAction::Failed(ServiceError::Signal(e))
            && e@ == m@),
        _ => false,
    }
}

/// The log lines of a status report, one `[time] text` line per entry.
pub open spec fn log_lines(logs: Seq<(u64, Seq<char>)>) -> Seq<char>
    decreases logs.len(),
{
    if logs.len() == 0 {
        seq![]
    } else {
        log_lines(logs.drop_last()) + "["@ + decimal(logs.last().0 as nat) + "] "@ + logs.last().1
            + "\n"@
    }
}

/// The head of a status report: a headline with the service's name, whether it
/// is enabled, its state, whether it runs as root and its process; then its
/// state and path; then an empty line.
pub open spec fn status_head(s: ServiceView) -> Seq<char> {
    "Service: "@ + s.name + (if s.enabled {
        " (enabled)"@
    } else {
        " (disabled)"@
    }) + " ("@ + state_name(s.state) + ")"@ + (if s.as_root {
        " (AS ROOT)"@
    } else {
        seq![]
    }) + (match s.pid {
        Some(p) => " (PID: "@ + decimal(p as nat) + ")"@,
        None => seq![],
    }) + "\n"@ + state_name(s.state) + " at "@ + s.path + "\n"@ + "\n"@
}

/// The status report of a service: a headline with its name, whether it is
/// enabled, its state, whether it runs as root and its process; then its state
/// and path; an empty line; then its log.
pub open spec fn status_text(s: ServiceView) -> Seq<char> {
    status_head(s) + log_lines(s.logs)
}

/// Whether every logged time can be shown as a point in time (the system
/// clock holds seconds in an `i64`).
pub open spec fn times_showable(logs: Seq<(u64, Seq<char>)>) -> bool {
    forall|i: int| 0 <= i < logs.len() ==> #[trigger] logs[i].0 <= i64::MAX
}

/// The words of the command that runs `command`, prefixed by `sudo` for root.
pub fn command_line(as_root: bool, command: &str) -> (r: Vec<String>)
    ensures
        views(r@) == command_words(as_root, command@),
{
    if as_root {
        let mut full = "sudo ".to_owned();
        full.append(command);
        split_whitespace(full.as_str())
    } else {
        split_whitespace(command)
    }
}

/// The command that sends the termination signal to process `pid`.
pub fn signal_command(pid: u32) -> (r: Vec<String>)
    ensures
        views(r@) == signal_words(pid),
{
    let mut signal: Vec<String> = Vec::new();
    signal.push("kill".to_owned());
    signal.push("-SIGTERM".to_owned());
    let mut n = String::new();
    push_decimal(&mut n, pid as u64);
    signal.push(n);
    assert(views(signal@) == signal_words(pid));
    signal
}

impl Service {
    /// The service that the configuration document `config` describes, found
    /// at `path`; the error says which required setting is missing.
    pub fn new(config: &YamlValue, path: String) -> (r: Result<Service, ServiceError>)
        ensures
            match (r, service_from_config(config@, path@)) {
                (Ok(s), Ok(v)) => s@ == v,
                (Err(e), Err(f)) => e == f,
                _ => false,
            },
    {
        let enabled = match config.get("enabled") {
            Some(v) => match v.as_bool() {
                Some(b) => b,
                None => true,
            },
            None => true,
        };
        let name = match config.get("name") {
            Some(v) => match v.as_str() {
                Some(s) => s.clone(),
                None => return Err(ServiceError::MissingName),
            },
            None => return Err(ServiceError::MissingName),
        };
        let as_root = match config.get("as_root") {
            Some(v) => match v.as_bool() {
                Some(b) => b,
                None => false,
            },
            None => false,
        };
        let start = match config.get("start") {
            Some(v) => match v.as_str() {
                Some(s) => s.clone(),
                None => return Err(ServiceError::MissingStart),
            },
            None => return Err(ServiceError::MissingStart),
        };
        let stop = match config.get("stop") {
            Some(v) => match v.as_str() {
                Some(s) => Some(s.clone()),
                None => None,
            },
            None => None,
        };
        let s = Service {
            state: ServiceState::Loaded,
            pid: None,
            path,
            enabled,
            name,
            as_root,
            start,
            stop,
            logs: Vec::new(),
        };
        assert(log_views(s.logs@) == Seq::<(u64, Seq<char>)>::empty());
        Ok(s)
    }

    /// The name of this service.
    pub fn name(&self) -> (r: &str)
        ensures
            r@ == self@.name,
    {
        self.name.as_str()
    }

    /// The state of this service.
    pub fn state(&self) -> (r: ServiceState)
        ensures
            r == self@.state,
    {
        self.state
    }

    /// The process this service runs, if any.
    pub fn pid(&self) -> (r: Option<u32>)
        ensures
            r == self@.pid,
    {
        self.pid
    }

    /// The command that starting this service runs: `None` where starting does
    /// nothing (the service is disabled or already running), and an error where
    /// the command has no words, so that there is no program to spawn.
    pub fn start_plan(&self) -> (r: Result<Option<Vec<String>>, ServiceError>)
        ensures
            match r {
                Ok(None) => !launches(self@),
                Ok(Some(argv)) => launches(self@) && views(argv@) == command_words(
                    self@.as_root,
                    self@.start,
                ) && argv@.len() > 0,
                Err(e) => launches(self@) && command_words(self@.as_root, self@.start).len() == 0
                    && e is EmptyCommand,
            },
    {
        if !self.enabled || self.state == ServiceState::Running {
            Ok(None)
        } else {
            let argv = command_line(self.as_root, self.start.as_str());
            if argv.len() == 0 {
                Err(ServiceError::EmptyCommand)
            } else {
                Ok(Some(argv))
            }
        }
    }

    /// Records that the start command runs as process `pid`; a service that is
    /// disabled or already running is left as it is.
    pub fn start(&mut self, pid: u32)
        ensures
            final(self)@ == started(old(self)@, pid),
    {
        if !self.enabled || self.state == ServiceState::Running {
            return ;
        }
        self.pid = Some(pid);
        self.state = ServiceState::Running;
    }

    /// Records a line that the service wrote on `stream` at `time`.
    pub fn push_log(&mut self, time: u64, stream: Stream, line: &str)
        ensures
            final(self)@ == logged(old(self)@, time, stream_label(stream) + line@),
    {
        let mut entry = match stream {
            Stream::Stdout => "stdout: ".to_owned(),
            Stream::Stderr => "stderr: ".to_owned(),
        };
        entry.append(line);
        let ghost before = self.logs@;
        self.logs.push((time, entry));
        assert(log_views(self.logs@) == log_views(before).push((time, stream_label(stream) + line@)));
    }

    /// The process that a status check should look for, or `None` where the
    /// check does nothing.
    pub fn probe_target(&self) -> (r: Option<u32>)
        ensures
            r == probed_pid(self@),
    {
        if !self.enabled || self.state == ServiceState::Stopped {
            None
        } else {
            self.pid
        }
    }

    /// Records what a status check of the service's process found: a listed
    /// process means running, a missing one stopped, and a failed check marks
    /// the service failed and logs why.
    pub fn update(&mut self, probe: Probe)
        ensures
            final(self)@ == updated(old(self)@, probe),
    {
        if !self.enabled || self.state == ServiceState::Stopped || self.pid.is_none() {
            return ;
        }
        match probe {
            Probe::Alive => {
                self.state = ServiceState::Running;
            },
            Probe::Gone => {
                self.state = ServiceState::Stopped;
            },
            Probe::Failed { time, error } => {
                self.state = ServiceState::Failed;
                let mut entry = "Failed to check process: ".to_owned();
                entry.append(error.as_str());
                let ghost before = self.logs@;
                self.logs.push((time, entry));
                assert(log_views(self.logs@) == log_views(before).push(
                    (time, "Failed to check process: "@ + error@),
                ));
            },
        }
    }

    /// One step of stopping this service. `Begin` starts: a service that is
    /// disabled or already stopped is left as it is; one with a process runs
    /// its stop command first, if it has one, then sends the termination
    /// signal; once the signal is sent (or at once, without a process) the
    /// service is stopped. A command that cannot be spawned ends the stop with
    /// an error and leaves the service as it is, and a failed stop command
    /// means no signal is sent.
    pub fn stop(&mut self, phase: &mut StopPhase, event: StopEvent) -> (r: StopAction)
        requires
            stop_expected(old(self)@, *old(phase), event),
        ensures
            stop_step(old(self)@, *old(phase), event, final(self)@, *final(phase), r),
    {
        match event {
            StopEvent::Begin => {
                if !self.enabled || self.state == ServiceState::Stopped {
                    *phase = StopPhase::Over;
                    return StopAction::Done;
                }
                match self.pid {
                    Some(pid) => match &self.stop {
                        Some(c) => {
                            let argv = command_line(self.as_root, c.as_str());
                            if argv.len() == 0 {
                                *phase = StopPhase::Over;
                                StopAction::Failed(ServiceError::EmptyCommand)
                            } else {
                                *phase = StopPhase::StopCommand;
                                StopAction::Spawn(argv)
                            }
                        },
                        None => {
                            *phase = StopPhase::Signal;
                            StopAction::Spawn(signal_command(pid))
                        },
                    },
                    None => {
                        self.mark_stopped();
                        *phase = StopPhase::Over;
                        StopAction::Done
                    },
                }
            },
            StopEvent::Spawned => {
                if *phase == StopPhase::StopCommand {
                    let pid = match self.pid {
                        Some(p) => p,
                        None => 0,
                    };
                    *phase = StopPhase::Signal;
                    StopAction::Spawn(signal_command(pid))
                } else {
                    self.mark_stopped();
                    *phase = StopPhase::Over;
                    StopAction::Done
                }
            },
            StopEvent::SpawnFailed(reason) => {
                let failed = if *phase == StopPhase::StopCommand {
                    ServiceError::Spawn(reason)
                } else {
                    ServiceError::Signal(reason)
                };
                *phase = StopPhase::Over;
                StopAction::Failed(failed)
            },
        }
    }

    /// Marks this service stopped: it no longer has a process.
    fn mark_stopped(&mut self)
        requires
            halts(old(self)@),
        ensures
            final(self)@ == stopped(old(self)@),
    {
        self.state = ServiceState::Stopped;
        self.pid = None;
    }

    /// The head of this service's status report.
    fn status_headline(&self) -> (r: String)
        ensures
            r@ == status_head(self@),
    {
        let mut r = "Service: ".to_owned();
        r.append(self.name.as_str());
        if self.enabled {
            r.append(" (enabled)");
        } else {
            r.append(" (disabled)");
        }
        r.append(" (");
        r.append(self.state.name());
        r.append(")");
        if self.as_root {
            r.append(" (AS ROOT)");
        }
        match self.pid {
            Some(p) => {
                r.append(" (PID: ");
                push_decimal(&mut r, p as u64);
                r.append(")");
            },
            None => {},
        }
        r.append("\n");
        r.append(self.state.name());
        r.append(" at ");
        r.append(self.path.as_str());
        r.append("\n");
        r.append("\n");
        r
    }

    /// Whether every logged time of this service can be shown as a point in time.
    pub fn times_showable(&self) -> (r: bool)
        ensures
            r == times_showable(self@.logs),
    {
        let ghost logs = log_views(self.logs@);
        let mut i: usize = 0;
        while i < self.logs.len()
            invariant
                i <= self.logs.len(),
                logs == log_views(self.logs@),
                forall|j: int| 0 <= j < i ==> #[trigger] logs[j].0 <= i64::MAX,
            decreases self.logs.len() - i,
        {
            if self.logs[i].0 > 0x7fff_ffff_ffff_ffff {
                assert(logs[i as int].0 > i64::MAX);
                return false;
            }
            i = i + 1;
        }
        true
    }

    /// The status report of this service: the text that the daemon prints for it.
    pub fn status(&self) -> (r: String)
        requires
            times_showable(self@.logs),
        ensures
            r@ == status_text(self@),
    {
        let mut r = self.status_headline();
        let ghost head = r@;
        let ghost logs = log_views(self.logs@);
        assert(logs.take(0) == Seq::<(u64, Seq<char>)>::empty());
        let mut i: usize = 0;
        while i < self.logs.len()
            invariant
                i <= self.logs.len(),
                logs == log_views(self.logs@),
                r@ == head + log_lines(logs.take(i as int)),
            decreases self.logs.len() - i,
        {
            r.append("[");
            push_decimal(&mut r, self.logs[i].0);
            r.append("] ");
            r.append(self.logs[i].1.as_str());
            r.append("\n");
            assert(logs.take(i + 1).drop_last() == logs.take(i as int));
            i = i + 1;
        }
        assert(logs.take(self.logs.len() as int) == logs);
        r
    }
}

} // verus!
