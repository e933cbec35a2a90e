use justrun::paths::{join, result_file, result_path, service_config_path, CONFIG, PID, RESULT_BASE, SOCKET, TMP_PATHS};

#[test]
fn join_adds_a_separator_only_when_needed() {
    assert_eq!(join("/srv/app", "justrun.yaml"), "/srv/app/justrun.yaml");
    assert_eq!(join("/srv/app/", "justrun.yaml"), "/srv/app/justrun.yaml");
    assert_eq!(join("", "justrun.yaml"), "justrun.yaml");
    for base in ["/srv/app", "/srv/app/", "", "rel", "/"] {
        for name in ["x.yaml", "", "/abs/y", "d/z"] {
            let expected = std::path::Path::new(base).join(name).into_os_string().into_string().unwrap();
            assert_eq!(join(base, name), expected);
        }
    }
}

#[test]
fn service_config_path_names_the_service_file() {
    assert_eq!(service_config_path("/home/u/app"), "/home/u/app/justrun.yaml");
}

#[test]
fn result_path_is_under_the_result_directory() {
    assert_eq!(result_path(1700000000), "/tmp/justrund/results/1700000000");
    assert!(result_path(5).starts_with(RESULT_BASE));
}

#[test]
fn daemon_files() {
    assert_eq!(PID, "/tmp/justrund/pid");
    assert_eq!(SOCKET, "/tmp/justrund/socket");
    assert_eq!(TMP_PATHS, [PID, SOCKET]);
    assert_eq!(CONFIG, "/etc/justrund/config.yaml");
}

#[test]
fn result_file_accepts_only_numeric_stamps() {
    assert_eq!(result_file("1700000000"), Some("/tmp/justrund/results/1700000000".to_string()));
    assert_eq!(result_file(""), None);
    assert_eq!(result_file("/etc/passwd"), None);
    assert_eq!(result_file("12a"), None);
}
