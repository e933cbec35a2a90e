use justrun::service::{
    command_line, signal_command, Probe, Service, ServiceError, ServiceState, StopAction, StopEvent,
    StopPhase, Stream,
};
use justrun::yaml::YamlValue;

fn s(t: &str) -> YamlValue {
    YamlValue::Str(t.to_string())
}

fn config(entries: Vec<(&str, YamlValue)>) -> YamlValue {
    YamlValue::Hash(entries.into_iter().map(|(k, v)| (s(k), v)).collect())
}

fn example() -> Service {
    Service::new(
        &config(vec![("name", s("example")), ("start", s("echo \"Hello, world!\""))]),
        "/srv/example/justrun.yaml".to_string(),
    )
    .unwrap()
}

#[test]
fn new_reads_the_configuration() {
    let svc = example();
    assert_eq!(svc.name(), "example");
    assert_eq!(svc.state(), ServiceState::Loaded);
    assert_eq!(svc.pid(), None);
    assert_eq!(
        svc.status(),
        "Service: example (enabled) (Loaded)\nLoaded at /srv/example/justrun.yaml\n\n"
    );
}

#[test]
fn new_requires_name_then_start() {
    let none = Service::new(&config(vec![]), "p".to_string());
    assert!(matches!(none, Err(ServiceError::MissingName)));
    let no_start = Service::new(&config(vec![("name", s("a"))]), "p".to_string());
    assert!(matches!(no_start, Err(ServiceError::MissingStart)));
    let name_not_string = Service::new(
        &config(vec![("name", YamlValue::Integer(3)), ("start", s("x"))]),
        "p".to_string(),
    );
    assert!(matches!(name_not_string, Err(ServiceError::MissingName)));
    let not_a_map = Service::new(&YamlValue::Array(vec![]), "p".to_string());
    assert!(matches!(not_a_map, Err(ServiceError::MissingName)));
}

#[test]
fn error_messages() {
    assert_eq!(
        ServiceError::MissingName.message(),
        "Service name is not specified in config file: /etc/justrund/config.yaml"
    );
    assert_eq!(
        ServiceError::MissingStart.message(),
        "Service start command is not specified in config file: /etc/justrund/config.yaml"
    );
    assert_eq!(
        ServiceError::Spawn("No such file".to_string()).message(),
        "Failed to spawn command: No such file"
    );
    assert_eq!(
        ServiceError::Signal("denied".to_string()).message(),
        "Failed to send SIGTERM: denied"
    );
}

#[test]
fn start_plan_prefixes_sudo_for_root() {
    let svc = Service::new(
        &config(vec![
            ("name", s("db")),
            ("start", s("  pg_ctl   start ")),
            ("as_root", YamlValue::Boolean(true)),
        ]),
        "p".to_string(),
    )
    .unwrap();
    assert_eq!(
        svc.start_plan().unwrap(),
        Some(vec!["sudo".to_string(), "pg_ctl".to_string(), "start".to_string()])
    );
    assert_eq!(command_line(false, "a  b"), vec!["a".to_string(), "b".to_string()]);
    assert_eq!(command_line(true, "   "), vec!["sudo".to_string()]);
    assert_eq!(command_line(false, "   "), Vec::<String>::new());
}

#[test]
fn start_is_idempotent() {
    let mut svc = example();
    assert!(svc.start_plan().unwrap().is_some());
    svc.start(4242);
    assert_eq!(svc.state(), ServiceState::Running);
    assert_eq!(svc.pid(), Some(4242));
    assert_eq!(svc.start_plan().unwrap(), None);
    svc.start(7);
    assert_eq!(svc.pid(), Some(4242));
}

#[test]
fn disabled_services_neither_start_nor_stop() {
    let mut svc = Service::new(
        &config(vec![
            ("name", s("off")),
            ("start", s("true")),
            ("enabled", YamlValue::Boolean(false)),
        ]),
        "p".to_string(),
    )
    .unwrap();
    assert!(svc.start_plan().unwrap().is_none());
    svc.start(1);
    assert_eq!(svc.state(), ServiceState::Loaded);
    let mut phase = StopPhase::Begin;
    assert!(matches!(svc.stop(&mut phase, StopEvent::Begin), StopAction::Done));
    assert_eq!(phase, StopPhase::Over);
    assert_eq!(svc.state(), ServiceState::Loaded);
    assert_eq!(svc.probe_target(), None);
    assert!(svc.status().starts_with("Service: off (disabled) (Loaded)\n"));
}

fn web() -> Service {
    Service::new(
        &config(vec![
            ("name", s("web")),
            ("start", s("srv run")),
            ("stop", s("srv halt --now")),
            ("as_root", YamlValue::Boolean(true)),
        ]),
        "p".to_string(),
    )
    .unwrap()
}

fn words(v: &[&str]) -> Vec<String> {
    v.iter().map(|w| w.to_string()).collect()
}

#[test]
fn stop_runs_the_stop_command_then_the_signal() {
    let mut svc = web();
    let mut phase = StopPhase::Begin;
    assert!(matches!(svc.stop(&mut phase, StopEvent::Begin), StopAction::Done));
    assert_eq!(svc.state(), ServiceState::Stopped);
    svc.start(99);
    let mut phase = StopPhase::Begin;
    let first = svc.stop(&mut phase, StopEvent::Begin);
    assert!(matches!(&first, StopAction::Spawn(v) if v == &words(&["sudo", "srv", "halt", "--now"])));
    assert_eq!(phase, StopPhase::StopCommand);
    let second = svc.stop(&mut phase, StopEvent::Spawned);
    assert!(matches!(&second, StopAction::Spawn(v) if v == &words(&["kill", "-SIGTERM", "99"])));
    assert_eq!(svc.state(), ServiceState::Running);
    assert!(matches!(svc.stop(&mut phase, StopEvent::Spawned), StopAction::Done));
    assert_eq!(svc.state(), ServiceState::Stopped);
    assert_eq!(svc.pid(), None);
    let mut phase = StopPhase::Begin;
    assert!(matches!(svc.stop(&mut phase, StopEvent::Begin), StopAction::Done));
    assert!(svc.start_plan().unwrap().is_some());
}

#[test]
fn failed_stop_command_sends_no_signal_and_keeps_the_service() {
    let mut svc = web();
    svc.start(7);
    let mut phase = StopPhase::Begin;
    svc.stop(&mut phase, StopEvent::Begin);
    match svc.stop(&mut phase, StopEvent::SpawnFailed("no srv".to_string())) {
        StopAction::Failed(e) => assert_eq!(e.message(), "Failed to spawn command: no srv"),
        _ => panic!("the stop went on after its command failed"),
    }
    assert_eq!(phase, StopPhase::Over);
    assert_eq!(svc.state(), ServiceState::Running);
    assert_eq!(svc.pid(), Some(7));
}

#[test]
fn failed_signal_keeps_the_service() {
    let mut svc = example();
    svc.start(8);
    let mut phase = StopPhase::Begin;
    let first = svc.stop(&mut phase, StopEvent::Begin);
    assert!(matches!(&first, StopAction::Spawn(v) if v == &signal_command(8)));
    assert_eq!(phase, StopPhase::Signal);
    match svc.stop(&mut phase, StopEvent::SpawnFailed("denied".to_string())) {
        StopAction::Failed(e) => assert!(matches!(e, ServiceError::Signal(m) if m == "denied")),
        _ => panic!("a failed signal stopped the service"),
    }
    assert_eq!(svc.state(), ServiceState::Running);
    assert_eq!(svc.pid(), Some(8));
}

#[test]
fn update_follows_the_probe() {
    let mut svc = example();
    assert_eq!(svc.probe_target(), None);
    svc.start(10);
    assert_eq!(svc.probe_target(), Some(10));
    svc.update(Probe::Gone);
    assert_eq!(svc.state(), ServiceState::Stopped);
    assert_eq!(svc.probe_target(), None);
    svc.update(Probe::Alive);
    assert_eq!(svc.state(), ServiceState::Stopped);
    svc.start(11);
    svc.update(Probe::Alive);
    assert_eq!(svc.state(), ServiceState::Running);
    svc.update(Probe::Failed { time: 100, error: "ps missing".to_string() });
    assert_eq!(svc.state(), ServiceState::Failed);
    assert_eq!(
        svc.status(),
        "Service: example (enabled) (Failed) (PID: 11)\nFailed at /srv/example/justrun.yaml\n\n[100] Failed to check process: ps missing\n"
    );
}

#[test]
fn status_report_lists_the_log() {
    let mut svc = Service::new(
        &config(vec![
            ("name", s("x")),
            ("start", s("y")),
            ("as_root", YamlValue::Boolean(true)),
        ]),
        "/a/justrun.yaml".to_string(),
    )
    .unwrap();
    svc.start(5);
    svc.push_log(1, Stream::Stdout, "hello");
    svc.push_log(2, Stream::Stderr, "oops");
    assert_eq!(
        svc.status(),
        "Service: x (enabled) (Running) (AS ROOT) (PID: 5)\nRunning at /a/justrun.yaml\n\n[1] stdout: hello\n[2] stderr: oops\n"
    );
}

#[test]
fn state_names() {
    assert_eq!(ServiceState::Loaded.name(), "Loaded");
    assert_eq!(ServiceState::Running.name(), "Running");
    assert_eq!(ServiceState::Stopped.name(), "Stopped");
    assert_eq!(ServiceState::Failed.name(), "Failed");
}

#[test]
fn empty_commands_are_refused() {
    let mut svc = Service::new(
        &config(vec![("name", s("blank")), ("start", s("  ")), ("stop", s(" "))]),
        "p".to_string(),
    )
    .unwrap();
    assert!(matches!(svc.start_plan(), Err(ServiceError::EmptyCommand)));
    svc.start(3);
    let mut phase = StopPhase::Begin;
    assert!(matches!(
        svc.stop(&mut phase, StopEvent::Begin),
        StopAction::Failed(ServiceError::EmptyCommand)
    ));
    assert_eq!(svc.state(), ServiceState::Running);
    assert_eq!(svc.pid(), Some(3));
    let root = Service::new(
        &config(vec![("name", s("r")), ("start", s("")), ("as_root", YamlValue::Boolean(true))]),
        "p".to_string(),
    )
    .unwrap();
    assert_eq!(root.start_plan().unwrap(), Some(vec!["sudo".to_string()]));
}
