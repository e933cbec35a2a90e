use justrun::control::registration;
use justrun::maintainer::{
    config_service_dirs, service_dirs, services_from_file, LoadAction, LoadError, LoadEvent,
    Loading, Maintainer, MaintainerError, StartAction, StartAll, StartEvent,
};
use justrun::service::{ServiceError, ServiceState};
use justrun::yaml::YamlValue;

fn load(m: &mut Maintainer, files: &[(&str, &str)]) {
    let mut all = Vec::new();
    for (path, text) in files {
        let (services, _) = services_from_file(path, text).unwrap();
        all.extend(services);
    }
    m.replace_services(all);
}

#[test]
fn config_lists_service_directories() {
    let dirs = config_service_dirs("services:\n  - /srv/a\n  - /srv/b\n").unwrap();
    assert_eq!(dirs, Some(vec!["/srv/a".to_string(), "/srv/b".to_string()]));
    assert_eq!(config_service_dirs("").unwrap(), None);
    assert_eq!(config_service_dirs("services: []\n").unwrap(), Some(vec![]));
}

#[test]
fn config_errors() {
    assert!(matches!(
        config_service_dirs("services:\n  - /srv/a\n  - 3\n"),
        Err(LoadError::PathNotString)
    ));
    assert!(matches!(config_service_dirs("- /srv/a\n"), Err(LoadError::ConfigNotList)));
    assert!(matches!(config_service_dirs("services: 3\n"), Err(LoadError::ConfigNotList)));
    match config_service_dirs("[unclosed") {
        Err(LoadError::ConfigParse(m)) => assert!(!m.is_empty()),
        other => panic!("unexpected {:?}", other),
    }
    assert_eq!(
        LoadError::PathNotString.message(),
        "Service path is not a string in config file: /etc/justrund/config.yaml"
    );
    assert_eq!(LoadError::ConfigParse("bad".to_string()).message(), "Failed to parse config file: bad");
    assert_eq!(
        LoadError::ServiceParse("bad".to_string()).message(),
        "Failed to parse service config file: bad"
    );
}

#[test]
fn service_dirs_reads_documents() {
    let docs = vec![YamlValue::Hash(vec![(
        YamlValue::Str("services".to_string()),
        YamlValue::Array(vec![YamlValue::Str("/x".to_string())]),
    )])];
    assert_eq!(service_dirs(&docs).unwrap(), Some(vec!["/x".to_string()]));
    assert_eq!(service_dirs(&vec![]).unwrap(), None);
}

#[test]
fn service_file_documents_become_services() {
    let text = "name: a\nstart: run a\n---\nstart: nameless\n---\nname: c\nstart: run c\nenabled: false\n";
    let (services, rejected) = services_from_file("/srv/justrun.yaml", text).unwrap();
    assert_eq!(services.len(), 2);
    assert_eq!(services[0].name(), "a");
    assert_eq!(services[1].name(), "c");
    assert_eq!(rejected.len(), 1);
    assert_eq!(rejected[0].0, 1);
    assert!(matches!(rejected[0].1, ServiceError::MissingName));
    assert!(matches!(services_from_file("p", "a: [b"), Err(LoadError::ServiceParse(_))));
}

#[test]
fn readme_example_service() {
    let (services, rejected) =
        services_from_file("/srv/example/justrun.yaml", "name: example\nstart: 'echo \"Hello, world!\"'\n")
            .unwrap();
    assert!(rejected.is_empty());
    assert_eq!(services[0].name(), "example");
    assert_eq!(
        services[0].start_plan().unwrap(),
        Some(vec!["echo".to_string(), "\"Hello,".to_string(), "world!\"".to_string()])
    );
}

#[test]
fn new_maintainer_is_empty() {
    let m = Maintainer::new();
    assert!(m.services().is_empty());
    assert!(matches!(m.log("x"), Err(MaintainerError::NotFound(n)) if n == "x"));
}

#[test]
fn log_finds_the_first_service_by_name() {
    let mut m = Maintainer::new();
    load(
        &mut m,
        &[("/one/justrun.yaml", "name: a\nstart: x\n"), ("/two/justrun.yaml", "name: a\nstart: y\n")],
    );
    let found = m.log("a").unwrap();
    assert!(found.status().contains("/one/justrun.yaml"));
    assert_eq!(m.position("a"), Some(0));
    assert_eq!(m.position("b"), None);
    match m.log("b") {
        Err(e) => assert_eq!(e.message(), "Service not found: b"),
        Ok(_) => panic!("found a service that does not exist"),
    }
}

#[test]
fn start_all_launches_in_order_and_skips_idle_services() {
    let mut m = Maintainer::new();
    load(
        &mut m,
        &[(
            "/s/justrun.yaml",
            "name: a\nstart: run a\n---\nname: b\nstart: run b\nenabled: false\n---\nname: c\nstart: run c\n",
        )],
    );
    let mut run = StartAll::new();
    let a = m.start_all(&mut run, StartEvent::Begin);
    assert!(matches!(&a, StartAction::Spawn(0, v) if v == &vec!["run".to_string(), "a".to_string()]));
    let c = m.start_all(&mut run, StartEvent::Spawned(100));
    assert!(matches!(&c, StartAction::Spawn(2, v) if v == &vec!["run".to_string(), "c".to_string()]));
    let done = m.start_all(&mut run, StartEvent::Spawned(102));
    assert!(matches!(done, StartAction::Done));
    assert_eq!(m.services()[0].pid(), Some(100));
    assert_eq!(m.services()[1].state(), ServiceState::Loaded);
    assert_eq!(m.services()[2].pid(), Some(102));
    let mut again = StartAll::new();
    assert!(matches!(m.start_all(&mut again, StartEvent::Begin), StartAction::Done));
}

#[test]
fn start_all_stops_at_the_first_failure() {
    let mut m = Maintainer::new();
    load(&mut m, &[("/s/justrun.yaml", "name: a\nstart: run a\n---\nname: b\nstart: run b\n")]);
    let mut run = StartAll::new();
    assert!(matches!(m.start_all(&mut run, StartEvent::Begin), StartAction::Spawn(0, _)));
    let failed = m.start_all(&mut run, StartEvent::SpawnFailed("not found".to_string()));
    match failed {
        StartAction::Failed(e) => assert_eq!(e.message(), "Failed to spawn command: not found"),
        _ => panic!("the run went on after a failure"),
    }
    assert_eq!(m.services()[0].state(), ServiceState::Loaded);
    assert_eq!(m.services()[1].state(), ServiceState::Loaded);
}

#[test]
fn service_mut_changes_one_service() {
    let mut m = Maintainer::new();
    load(&mut m, &[("/s/justrun.yaml", "name: a\nstart: x\n---\nname: b\nstart: y\n")]);
    m.service_mut(1).start(9);
    assert_eq!(m.services()[1].pid(), Some(9));
    assert_eq!(m.services()[0].pid(), None);
}

#[test]
fn start_all_stops_at_an_empty_command() {
    let mut m = Maintainer::new();
    load(&mut m, &[("/s/justrun.yaml", "name: a\nstart: '   '\n---\nname: b\nstart: run b\n")]);
    let mut run = StartAll::new();
    match m.start_all(&mut run, StartEvent::Begin) {
        StartAction::Failed(e) => {
            assert!(matches!(e, ServiceError::EmptyCommand));
            assert_eq!(e.message(), "Failed to spawn command: the command is empty");
        }
        _ => panic!("an empty command was spawned"),
    }
    assert_eq!(m.services()[1].state(), ServiceState::Loaded);
}

#[test]
fn load_reads_each_registered_directory() {
    let mut m = Maintainer::new();
    let mut run = Loading::new();
    let config = "services:\n  - /srv/a\n  - /srv/missing\n  - /srv/b/\n".to_string();
    let a = m.load(&mut run, LoadEvent::Config(config));
    assert!(matches!(&a, LoadAction::Read(p) if p == "/srv/a/justrun.yaml"));
    let b = m.load(&mut run, LoadEvent::ServiceFile(Some("name: a\nstart: run a\n---\nstart: x\n".to_string())));
    assert!(matches!(&b, LoadAction::Read(p) if p == "/srv/missing/justrun.yaml"));
    assert!(m.services().is_empty());
    let c = m.load(&mut run, LoadEvent::ServiceFile(None));
    assert!(matches!(&c, LoadAction::Read(p) if p == "/srv/b/justrun.yaml"));
    let d = m.load(&mut run, LoadEvent::ServiceFile(Some("name: b\nstart: run b\n".to_string())));
    assert!(matches!(d, LoadAction::Done));
    assert_eq!(m.services().len(), 2);
    assert_eq!(m.services()[0].name(), "a");
    assert_eq!(m.services()[1].name(), "b");
    assert_eq!(run.skipped().len(), 1);
    assert_eq!(run.skipped()[0].0, "/srv/a/justrun.yaml");
    assert_eq!(run.skipped()[0].1, 1);
}

#[test]
fn load_stops_on_a_bad_service_file() {
    let mut m = Maintainer::new();
    load(&mut m, &[("/old/justrun.yaml", "name: old\nstart: x\n")]);
    let mut run = Loading::new();
    m.load(&mut run, LoadEvent::Config("services: [/srv/a]\n".to_string()));
    let r = m.load(&mut run, LoadEvent::ServiceFile(Some("a: [b".to_string())));
    assert!(matches!(r, LoadAction::Failed(LoadError::ServiceParse(_))));
    assert_eq!(m.services()[0].name(), "old");
}

#[test]
fn load_of_an_empty_configuration_keeps_the_services() {
    let mut m = Maintainer::new();
    load(&mut m, &[("/old/justrun.yaml", "name: old\nstart: x\n")]);
    let mut run = Loading::new();
    assert!(matches!(m.load(&mut run, LoadEvent::Config(String::new())), LoadAction::Done));
    assert_eq!(m.services().len(), 1);
    let mut run = Loading::new();
    assert!(matches!(m.load(&mut run, LoadEvent::Config("services: []\n".to_string())), LoadAction::Done));
    assert!(m.services().is_empty());
}

#[test]
fn the_daemon_loads_what_registering_wrote() {
    let written = registration("services: []\n", "/srv/a", true).unwrap();
    assert_eq!(config_service_dirs(&written).unwrap(), Some(vec!["/srv/a".to_string()]));
    let mut m = Maintainer::new();
    let mut run = Loading::new();
    let a = m.load(&mut run, LoadEvent::Config(written));
    assert!(matches!(&a, LoadAction::Read(p) if p == "/srv/a/justrun.yaml"));
    let done = m.load(&mut run, LoadEvent::ServiceFile(Some("name: example\nstart: echo hi\n".to_string())));
    assert!(matches!(done, LoadAction::Done));
    assert_eq!(m.services().len(), 1);
    assert_eq!(m.services()[0].name(), "example");
}

#[test]
fn load_meets_a_bad_entry_at_its_turn() {
    let mut m = Maintainer::new();
    let mut run = Loading::new();
    let config = "services:\n  - /srv/a\n  - 3\n".to_string();
    let a = m.load(&mut run, LoadEvent::Config(config));
    assert!(matches!(&a, LoadAction::Read(p) if p == "/srv/a/justrun.yaml"));
    let r = m.load(&mut run, LoadEvent::ServiceFile(Some("a: [b".to_string())));
    assert!(matches!(r, LoadAction::Failed(LoadError::ServiceParse(_))));

    let mut run = Loading::new();
    let config = "services:\n  - /srv/a\n  - 3\n".to_string();
    m.load(&mut run, LoadEvent::Config(config));
    let r = m.load(&mut run, LoadEvent::ServiceFile(Some("name: a\nstart: x\n".to_string())));
    assert!(matches!(r, LoadAction::Failed(LoadError::PathNotString)));
    assert!(m.services().is_empty());
}
