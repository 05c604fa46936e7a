use denial::cli::{tool_failure, verify_checkout_revision};
use denial::cli::{check_response, check_response_size, next_request_id, ResponseEnvelope};
use denial::cli::{markers_compatible, safe_relative_path, validate_source_marker, UiSourceMarker};
use denial::cli::{
    bounded_tool_output, lexical_absolute, mode_label, operation_label, parse_command,
    parse_switch, ui_action_progress, ui_request_plan, validate_acknowledgement, yes_no, Command,
    LexicalPathError, Options, UiActionProgress,
};

fn args(words: &[&str]) -> Vec<Vec<u8>> {
    words.iter().map(|w| w.as_bytes().to_vec()).collect()
}

#[test]
fn options_are_read_before_the_command() {
    let options = Options::parse(&args(&["--json", "--no-wait", "--socket", "/run/s", "ui", "live", "on"])).unwrap();
    assert!(options.json);
    assert!(!options.wait);
    assert_eq!(options.socket, Some(b"/run/s".to_vec()));
    assert!(matches!(options.command, Command::UiLive(true)));
    let help = Options::parse(&args(&["-h", "bogus"])).unwrap();
    assert!(matches!(help.command, Command::Help));
    let version = Options::parse(&args(&["--version"])).unwrap();
    assert!(matches!(version.command, Command::Version));
}

#[test]
fn option_errors_carry_the_help_hint() {
    assert_eq!(
        Options::parse(&args(&["--socket"])).unwrap_err().message,
        "--socket requires a path; run 'denialctl --help'"
    );
    assert_eq!(
        Options::parse(&args(&["--frobnicate"])).unwrap_err().message,
        "unknown option --frobnicate; run 'denialctl --help'"
    );
    assert_eq!(
        Options::parse(&args(&[])).unwrap_err().message,
        "a command is required; run 'denialctl --help'"
    );
}

#[test]
fn commands_are_recognised() {
    assert!(matches!(parse_command(&args(&["status"])).unwrap(), Command::Status));
    assert!(matches!(parse_command(&args(&["output", "status"])).unwrap(), Command::Outputs));
    assert!(matches!(parse_command(&args(&["ui"])).unwrap(), Command::UiStatus));
    assert!(matches!(parse_command(&args(&["ui", "setup"])).unwrap(), Command::UiSetup(None)));
    match parse_command(&args(&["ui", "setup", "/home/u/DenialUI"])).unwrap() {
        Command::UiSetup(Some(path)) => assert_eq!(path, "/home/u/DenialUI"),
        other => panic!("unexpected {other:?}"),
    }
    match parse_command(&args(&["ui", "profile"])).unwrap() {
        Command::UiAction { method, expected_mode } => {
            assert_eq!(method, "ui.build");
            assert_eq!(expected_mode, Some("custom_optimized"));
        }
        other => panic!("unexpected {other:?}"),
    }
    assert!(matches!(parse_command(&args(&["ui", "dev", "off"])).unwrap(), Command::UiLive(false)));
    assert!(matches!(parse_command(&args(&["ui", "auto-reload", "1"])).unwrap(), Command::UiAutoReload(true)));
    assert!(matches!(parse_command(&args(&["ui", "uri"])).unwrap(), Command::UiVmService));
    assert_eq!(
        parse_command(&args(&["ui", "fly", "away"])).unwrap_err().message,
        "unknown command ui fly away; run 'denialctl --help'"
    );
    assert_eq!(
        parse_command(&[vec![0xff]]).unwrap_err().message,
        "command arguments must be valid UTF-8; run 'denialctl --help'"
    );
}

#[test]
fn switches_accept_common_spellings() {
    for on in ["on", "enable", "enabled", "true", "1"] {
        assert_eq!(parse_switch(on).unwrap(), true);
    }
    for off in ["off", "disable", "disabled", "false", "0"] {
        assert_eq!(parse_switch(off).unwrap(), false);
    }
    assert_eq!(
        parse_switch("maybe").unwrap_err().message,
        "expected on or off, got \"maybe\"; run 'denialctl --help'"
    );
}

#[test]
fn paths_are_normalised_lexically() {
    assert_eq!(lexical_absolute(b"/home/u/./a/../DenialUI/").unwrap(), b"/home/u/DenialUI".to_vec());
    assert_eq!(lexical_absolute(b"relative"), Err(LexicalPathError::NotAbsolute));
    assert_eq!(lexical_absolute(b"/.."), Err(LexicalPathError::EscapesRoot));
    assert_eq!(lexical_absolute(b"/a/.."), Err(LexicalPathError::NamesRoot));
}

#[test]
fn tool_output_prefers_non_blank_primary() {
    assert_eq!(bounded_tool_output(b"  error: x \n", b"fallback"), "error: x");
    assert_eq!(bounded_tool_output(b" \n\t", b" fallback \n"), "fallback");
    let long = vec![b'a'; 70_000];
    assert_eq!(bounded_tool_output(&long, b"").len(), 65_536);
}

#[test]
fn acknowledgements_must_match() {
    assert!(validate_acknowledgement(7, 7).is_ok());
    assert_eq!(
        validate_acknowledgement(8, 7).unwrap_err().message,
        "compositor acknowledged UI request 7, expected 8"
    );
}

#[test]
fn labels_for_people() {
    assert_eq!(mode_label("live_development"), "Live development");
    assert_eq!(mode_label("something_else"), "something_else");
    assert_eq!(operation_label("hot_restarting"), "Hot restarting");
    assert_eq!(operation_label("idle"), "Idle");
    assert_eq!(yes_no(true), "yes");
    assert_eq!(yes_no(false), "no");
}

#[test]
fn ui_actions_wait_for_their_mode() {
    assert!(matches!(ui_action_progress("boom", "x", "idle", None), UiActionProgress::Failed(m) if m == "boom"));
    assert!(matches!(ui_action_progress("", "x", "idle", None), UiActionProgress::Done));
    assert!(matches!(
        ui_action_progress("", "live_development", "switching_runtime", Some("live_development")),
        UiActionProgress::Waiting
    ));
    assert!(matches!(
        ui_action_progress("", "live_development", "idle", Some("live_development")),
        UiActionProgress::Done
    ));
    let plan = ui_request_plan(&Command::UiLive(false), true).unwrap();
    assert_eq!(plan.method, "ui.live.disable");
    assert_eq!(plan.expected_mode, Some("official_optimized"));
    let plan = ui_request_plan(&Command::UiLive(true), false).unwrap();
    assert_eq!(plan.expected_mode, None);
    assert!(ui_request_plan(&Command::Status, true).is_none());
}

fn marker() -> UiSourceMarker {
    UiSourceMarker {
        schema_version: 1,
        ui_development_api: 1,
        flutter_generation: "3.44.7.denial1".to_owned(),
        source_ref: "refs/tags/v1.2.3".to_owned(),
        source_revision: "0123456789abcdef0123456789ABCDEF01234567".to_owned(),
        workspace: "dart_shell".to_owned(),
    }
}

#[test]
fn source_markers_are_checked_in_order() {
    assert!(validate_source_marker(&marker()).is_ok());
    let mut m = marker();
    m.schema_version = 2;
    assert_eq!(validate_source_marker(&m).unwrap_err().message, "unsupported UI source template schema 2");
    let mut m = marker();
    m.flutter_generation.clear();
    assert_eq!(
        validate_source_marker(&m).unwrap_err().message,
        "UI source template marker identifies an unsupported development generation"
    );
    let mut m = marker();
    m.source_revision.pop();
    assert_eq!(
        validate_source_marker(&m).unwrap_err().message,
        "UI source template marker contains an invalid Git revision"
    );
    let mut m = marker();
    m.source_ref = "-delete".to_owned();
    assert_eq!(
        validate_source_marker(&m).unwrap_err().message,
        "UI source template marker contains an invalid Git ref"
    );
    let mut m = marker();
    m.source_ref = "a b".to_owned();
    assert!(validate_source_marker(&m).is_err());
    let mut m = marker();
    m.source_ref = "x".repeat(256);
    assert!(validate_source_marker(&m).is_err());
}

#[test]
fn markers_must_share_a_generation() {
    let mut other = marker();
    assert!(markers_compatible(&other, &marker()));
    other.source_ref = "main".to_owned();
    assert!(markers_compatible(&other, &marker()));
    other.flutter_generation = "4".to_owned();
    assert!(!markers_compatible(&other, &marker()));
}

#[test]
fn workspace_paths_stay_inside_the_tree() {
    assert!(safe_relative_path(b"dart_shell"));
    assert!(safe_relative_path(b"a/./b/"));
    assert!(!safe_relative_path(b""));
    assert!(!safe_relative_path(b"/abs"));
    assert!(!safe_relative_path(b"./a"));
    assert!(!safe_relative_path(b"."));
    assert!(!safe_relative_path(b"a/../b"));
}

fn envelope() -> ResponseEnvelope {
    ResponseEnvelope { version: 1, id: Some(7), ok: true, has_result: true, error: None }
}

#[test]
fn responses_must_answer_the_request() {
    assert!(check_response(&envelope(), 7).is_ok());
    let mut e = envelope();
    e.version = 2;
    assert_eq!(check_response(&e, 7).unwrap_err().message, "compositor returned protocol version 2, expected 1");
    assert_eq!(
        check_response(&envelope(), 8).unwrap_err().message,
        "compositor returned response id Some(7), expected 8"
    );
    let mut e = envelope();
    e.id = None;
    assert_eq!(check_response(&e, 7).unwrap_err().message, "compositor returned response id None, expected 7");
    let mut e = envelope();
    e.ok = false;
    assert_eq!(
        check_response(&e, 7).unwrap_err().message,
        "unknown: the compositor rejected the request without details"
    );
    e.error = Some(("busy".to_owned(), "try later".to_owned()));
    assert_eq!(check_response(&e, 7).unwrap_err().message, "busy: try later");
    let mut e = envelope();
    e.has_result = false;
    assert_eq!(check_response(&e, 7).unwrap_err().message, "successful compositor response has no result");
    assert!(check_response_size(4 * 1024 * 1024).is_ok());
    assert!(check_response_size(4 * 1024 * 1024 + 1).is_err());
    assert_eq!(next_request_id(1), 2);
    assert_eq!(next_request_id(u32::MAX), 1);
}

#[test]
fn normalising_twice_changes_nothing() {
    for path in [&b"/a/./b/../c//d/"[..], b"/x", b"/a/b/c/../../d"] {
        let once = lexical_absolute(path).unwrap();
        assert_eq!(lexical_absolute(&once).unwrap(), once);
    }
}

#[test]
fn tool_failures_and_checkout_revisions() {
    assert_eq!(
        tool_failure("could not clone", "exit status: 128", "fatal: no route").message,
        "could not clone: exit status: 128: fatal: no route"
    );
    assert_eq!(tool_failure("could not clone", "exit status: 1", "").message, "could not clone: exit status: 1");
    let revision = "0123456789abcdef0123456789abcdef01234567";
    assert!(verify_checkout_revision(&format!("{revision}\n"), revision).is_ok());
    assert_eq!(
        verify_checkout_revision(" abc \n", revision).unwrap_err().message,
        format!("cloned Denial checkout resolved to abc, expected {revision}")
    );
}
