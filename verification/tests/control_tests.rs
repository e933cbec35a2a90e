use justrun::control::{
    edit_registration, parse_request, received_message, registration, request_message, Command,
    RegistrationError, RequestError, Verb,
};
use justrun::yaml::YamlValue;

fn s(t: &str) -> YamlValue {
    YamlValue::Str(t.to_string())
}

#[test]
fn request_messages_carry_stamp_verb_and_name() {
    let name = "web".to_string();
    assert_eq!(request_message(17, &Command::Start { name: name.clone() }), Some("17 start web".to_string()));
    assert_eq!(request_message(17, &Command::Stop { name: name.clone() }), Some("17 stop web".to_string()));
    assert_eq!(request_message(3, &Command::Restart { name: name.clone() }), Some("3 restart web".to_string()));
    assert_eq!(request_message(0, &Command::Status { name }), Some("0 status web".to_string()));
    assert_eq!(request_message(5, &Command::Restartd), Some("5 restartd none".to_string()));
    assert_eq!(request_message(5, &Command::Reg), None);
    assert_eq!(request_message(5, &Command::Unreg), None);
    assert_eq!(request_message(5, &Command::Init), None);
}

#[test]
fn daemon_reads_stamp_verb_and_argument() {
    let r = parse_request("17 start web").unwrap();
    assert_eq!(r.stamp, "17");
    assert_eq!(r.verb, Verb::Start);
    assert_eq!(r.arg, "web");
    let r = parse_request("  9   status   db extra ").unwrap();
    assert_eq!(r.verb, Verb::Status);
    assert_eq!(r.arg, "db");
    assert_eq!(parse_request("1 stop x").unwrap().verb, Verb::Stop);
    assert_eq!(parse_request("1 restart x").unwrap().verb, Verb::Restart);
    assert_eq!(parse_request("1 restartd none").unwrap().verb, Verb::Restartd);
}

#[test]
fn daemon_rejects_short_and_unknown_requests() {
    match parse_request("1 start") {
        Err(e) => {
            assert!(matches!(&e, RequestError::Invalid(d) if d == "1 start"));
            assert_eq!(e.message(), "Invalid command: 1 start");
        }
        Ok(_) => panic!("accepted a request without argument"),
    }
    match parse_request("1 jump high") {
        Err(e) => {
            assert!(matches!(&e, RequestError::Unknown(w) if w == "jump"));
            assert_eq!(e.message(), "Unknown command: jump");
        }
        Ok(_) => panic!("accepted an unknown verb"),
    }
}

#[test]
fn daemon_understands_every_tool_request() {
    let name = "web".to_string();
    let cases = vec![
        (Command::Start { name: name.clone() }, Verb::Start, "web"),
        (Command::Stop { name: name.clone() }, Verb::Stop, "web"),
        (Command::Restart { name: name.clone() }, Verb::Restart, "web"),
        (Command::Status { name }, Verb::Status, "web"),
        (Command::Restartd, Verb::Restartd, "none"),
    ];
    for (command, verb, arg) in cases {
        let message = request_message(1700000000, &command).unwrap();
        let request = parse_request(&message).unwrap();
        assert_eq!(request.stamp, "1700000000");
        assert_eq!(request.verb, verb);
        assert_eq!(request.arg, arg);
    }
}

#[test]
fn received_messages_are_trimmed() {
    assert_eq!(received_message("  start web \n"), Some("start web".to_string()));
    assert_eq!(received_message(" \n\t "), None);
    assert_eq!(received_message(""), None);
}

#[test]
fn register_appends_and_unregister_removes_every_copy() {
    let config = YamlValue::Hash(vec![
        (s("other"), YamlValue::Integer(1)),
        (s("services"), YamlValue::Array(vec![s("/a"), YamlValue::Integer(2), s("/a"), s("/b")])),
    ]);
    let registered = edit_registration(config, "/c", true);
    assert_eq!(
        registered,
        YamlValue::Hash(vec![
            (s("other"), YamlValue::Integer(1)),
            (s("services"), YamlValue::Array(vec![s("/a"), YamlValue::Integer(2), s("/a"), s("/b"), s("/c")])),
        ])
    );
    let unregistered = edit_registration(registered, "/a", false);
    assert_eq!(
        unregistered,
        YamlValue::Hash(vec![
            (s("other"), YamlValue::Integer(1)),
            (s("services"), YamlValue::Array(vec![YamlValue::Integer(2), s("/b"), s("/c")])),
        ])
    );
}

#[test]
fn unregister_undoes_register() {
    let config = YamlValue::Hash(vec![(s("services"), YamlValue::Array(vec![s("/a")]))]);
    let back = edit_registration(edit_registration(config, "/z", true), "/z", false);
    assert_eq!(back, YamlValue::Hash(vec![(s("services"), YamlValue::Array(vec![s("/a")]))]));
}

#[test]
fn registration_rewrites_the_configuration_text() {
    let text = registration("services: []\n", "/srv/app", true).unwrap();
    assert_eq!(text, "---\nservices:\n  - /srv/app");
    let back = registration(&text, "/srv/app", false).unwrap();
    assert_eq!(back, "---\nservices: []");
}

#[test]
fn registration_errors() {
    assert!(matches!(registration("", "/d", true), Err(RegistrationError::NoDocument)));
    assert!(matches!(registration("- a\n", "/d", true), Err(RegistrationError::NoServiceList)));
    assert!(matches!(registration("services: 3\n", "/d", true), Err(RegistrationError::NoServiceList)));
    assert!(matches!(registration("services: [", "/d", true), Err(RegistrationError::Parse(_))));
}

#[test]
fn surrounding_white_space_does_not_change_a_request() {
    for data in ["  5 stop web\n", "\t5 status db  ", " 5 x y ", "   "] {
        let trimmed = received_message(data).unwrap_or_default();
        match (parse_request(data), parse_request(&trimmed)) {
            (Ok(a), Ok(b)) => {
                assert_eq!(a.verb, b.verb);
                assert_eq!(a.arg, b.arg);
            }
            (Err(RequestError::Unknown(a)), Err(RequestError::Unknown(b))) => assert_eq!(a, b),
            (Err(RequestError::Invalid(_)), Err(RequestError::Invalid(_))) => {}
            _ => panic!("trimming changed how {:?} is read", data),
        }
    }
}
