use clipkit::command::all_commands;
use clipkit::command::lookup;
use clipkit::dispatch;
use clipkit::execute;
use clipkit::Command;
use clipkit::InputKind;
use clipkit::TransformError;

#[test]
fn dispatch_unknown_command() {
    assert_eq!(dispatch("no-such-command", None), Err(TransformError::UnknownCommand));
}

#[test]
fn dispatch_resolves_registered_name() {
    assert_eq!(dispatch("binary-encode", Some("A")).unwrap(), "01000001");
}

#[test]
fn execute_fails_without_required_input() {
    assert_eq!(
        execute(&Command::BinaryDecode, None),
        Err(TransformError::InputUnavailable)
    );
    assert_eq!(execute(&Command::Spongebob, None), Err(TransformError::InputUnavailable));
}

#[test]
fn execute_runs_input_free_command_without_input() {
    assert!(execute(&Command::Timestamp, None).is_ok());
    assert!(execute(&Command::Uuid4, None).is_ok());
}

#[test]
fn execute_ip_trims_the_fetched_body() {
    assert_eq!(execute(&Command::Ip, Some("  93.184.216.34\n")).unwrap(), "93.184.216.34");
}

#[test]
fn lookup_finds_each_registered_name() {
    assert_eq!(lookup("config-espanso"), Some(Command::ConfigEspanso));
    assert_eq!(lookup("binary-decode"), Some(Command::BinaryDecode));
    assert_eq!(lookup("binary-encode"), Some(Command::BinaryEncode));
    assert_eq!(lookup("format-json"), Some(Command::FormatJson));
    assert_eq!(lookup("ip"), Some(Command::Ip));
    assert_eq!(lookup("password"), Some(Command::Password));
    assert_eq!(lookup("reddit-top"), Some(Command::RedditTop));
    assert_eq!(lookup("spongebob"), Some(Command::Spongebob));
    assert_eq!(lookup("timestamp"), Some(Command::Timestamp));
    assert_eq!(lookup("uuid4"), Some(Command::Uuid4));
    assert_eq!(lookup("uuid7"), Some(Command::Uuid7));
    assert_eq!(lookup("uuid8"), None);
}

#[test]
fn registry_round_trips_names() {
    for cmd in all_commands() {
        assert_eq!(lookup(cmd.name()), Some(cmd));
    }
}

#[test]
fn registry_declaration_order_is_stable() {
    let names: Vec<&str> = all_commands().iter().map(|c| c.name()).collect();
    assert_eq!(
        names,
        vec![
            "config-espanso",
            "binary-decode",
            "binary-encode",
            "format-json",
            "ip",
            "password",
            "reddit-top",
            "spongebob",
            "timestamp",
            "uuid4",
            "uuid7",
        ]
    );
}

#[test]
fn input_kinds_match_each_command() {
    assert_eq!(Command::ConfigEspanso.input_kind(), InputKind::ExecPath);
    assert_eq!(Command::BinaryDecode.input_kind(), InputKind::Clipboard);
    assert_eq!(Command::BinaryEncode.input_kind(), InputKind::Clipboard);
    assert_eq!(Command::FormatJson.input_kind(), InputKind::Clipboard);
    assert_eq!(Command::Ip.input_kind(), InputKind::Network);
    assert_eq!(Command::Password.input_kind(), InputKind::Clipboard);
    assert_eq!(Command::RedditTop.input_kind(), InputKind::Clipboard);
    assert_eq!(Command::Spongebob.input_kind(), InputKind::Clipboard);
    assert_eq!(Command::Timestamp.input_kind(), InputKind::NoInput);
    assert_eq!(Command::Uuid4.input_kind(), InputKind::NoInput);
    assert_eq!(Command::Uuid7.input_kind(), InputKind::NoInput);
}

#[test]
fn dispatch_surfaces_transformation_failures() {
    assert_eq!(dispatch("binary-decode", Some("22")), Err(TransformError::InvalidEncoding));
    assert_eq!(dispatch("format-json", Some("{")), Err(TransformError::InvalidJson));
    assert_eq!(dispatch("reddit-top", Some("::")), Err(TransformError::InvalidUrl));
}

#[test]
fn error_messages_name_each_failure() {
    assert_eq!(TransformError::UnknownCommand.message(), "unknown command");
    assert_eq!(TransformError::InputUnavailable.message(), "unable to read input");
    assert_eq!(TransformError::InvalidEncoding.message(), "invalid binary encoding");
    assert_eq!(TransformError::InvalidJson.message(), "unable to parse json, check input");
    assert_eq!(TransformError::InvalidUrl.message(), "unable to parse url, check input");
    assert_eq!(TransformError::NetworkError.message(), "network request failed");
    assert_eq!(TransformError::OutputUnavailable.message(), "unable to write output");
}
