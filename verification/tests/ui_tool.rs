use denial::ui_tool::{endpoint_refusal, endpoint_uri, EndpointRefusal};
use denial::ui_tool::{seed_matches_generation, validate_engine_exports};
use denial::ui_tool::{assemble_arguments, redundant_debug_files, PreparedRuntime};
use denial::ui_tool::{
    attach_arguments, attach_with_browser_devtools, contains_bytes, expect_at_most_one_workspace,
    expect_no_arguments, is_flutter_passthrough_executable, parse_tool_command, require_absolute,
    tool_lexical_absolute, valid_vm_service_uri, workspace_text, ToolCommand, ToolError,
};

#[test]
fn tool_commands_parse() {
    assert_eq!(parse_tool_command(Some(b"prepare-profile")).unwrap(), ToolCommand::PrepareProfile);
    assert_eq!(parse_tool_command(Some(b"-V")).unwrap(), ToolCommand::Version);
    assert_eq!(parse_tool_command(Some(b"--help")).unwrap(), ToolCommand::Help);
    let missing = parse_tool_command(None).unwrap_err();
    assert!(missing.usage);
    assert_eq!(missing.text(), "a command is required\nTry 'denial-ui --help'.");
    assert_eq!(parse_tool_command(Some(&[0xc3])).unwrap_err().message, "commands must be valid UTF-8");
    assert_eq!(parse_tool_command(Some(b"fly")).unwrap_err().message, "unknown command \"fly\"");
    assert_eq!(ToolError::new("plain").text(), "plain");
}

#[test]
fn argument_counts_are_checked() {
    assert!(expect_no_arguments(0).is_ok());
    assert_eq!(expect_no_arguments(1).unwrap_err().message, "this command accepts no arguments");
    assert!(expect_at_most_one_workspace(1).is_ok());
    assert!(expect_at_most_one_workspace(2).is_err());
}

#[test]
fn passthrough_names() {
    assert!(is_flutter_passthrough_executable(b"flutter"));
    assert!(is_flutter_passthrough_executable(b"denial-flutter"));
    assert!(!is_flutter_passthrough_executable(b"denial-ui"));
}

#[test]
fn absolute_paths_only() {
    assert!(require_absolute("bundle", b"/x").is_ok());
    assert_eq!(require_absolute("bundle", b"x").unwrap_err().message, "bundle path must be absolute: x");
    assert_eq!(tool_lexical_absolute(b"/a/./b/..").unwrap(), b"/a".to_vec());
    assert_eq!(tool_lexical_absolute(b"/a/..").unwrap(), b"/".to_vec());
    assert_eq!(tool_lexical_absolute(b"/..").unwrap_err().message, "path escapes the filesystem root: /..");
}

#[test]
fn byte_search_ignores_empty_needles() {
    assert!(contains_bytes(b"FlutterEngineRun\0", b"Run\0"));
    assert!(!contains_bytes(b"abc", b""));
    assert!(!contains_bytes(b"ab", b"abc"));
}

#[test]
fn attach_adds_browser_devtools_once() {
    let args = vec![b"attach".to_vec(), b"-d".to_vec()];
    assert_eq!(attach_with_browser_devtools(args), vec![b"attach".to_vec(), b"--devtools".to_vec(), b"-d".to_vec()]);
    let chosen = vec![b"attach".to_vec(), b"--no-devtools".to_vec()];
    assert_eq!(attach_with_browser_devtools(chosen.clone()), chosen);
    let other = vec![b"run".to_vec()];
    assert_eq!(attach_with_browser_devtools(other.clone()), other);
    assert_eq!(
        attach_arguments(true, "http://127.0.0.1:1/x"),
        vec!["attach", "--devtools", "--profile", "--debug-url", "http://127.0.0.1:1/x"]
    );
}

#[test]
fn vm_service_uris_are_loopback_with_port_and_path() {
    assert!(valid_vm_service_uri("http://127.0.0.1:8181/abc=/"));
    assert!(!valid_vm_service_uri("http://127.0.0.1:0/abc"));
    assert!(!valid_vm_service_uri("http://127.0.0.1:65536/abc"));
    assert!(!valid_vm_service_uri("http://127.0.0.1:8181/"));
    assert!(!valid_vm_service_uri("http://127.0.0.1:/abc"));
    assert!(!valid_vm_service_uri("http://localhost:8181/abc"));
    assert!(!valid_vm_service_uri("http://127.0.0.1:81a/abc"));
    assert!(!valid_vm_service_uri("http://127.0.0.1:8181/a b"));
}

#[test]
fn workspace_paths_are_bounded_text() {
    assert_eq!(workspace_text(b"/home/u/w").as_deref(), Some("/home/u/w"));
    assert!(workspace_text(&[0x2f, 0xff]).is_none());
    assert!(workspace_text(b"/a\0b").is_none());
    assert!(workspace_text(&vec![b'a'; 4097]).is_none());
}

#[test]
fn assemble_arguments_follow_the_build_mode() {
    assert_eq!(
        assemble_arguments(PreparedRuntime::Profile, "/tmp/out"),
        vec![
            "assemble",
            "--output=/tmp/out",
            "-dTargetFile=lib/main.dart",
            "-dBuildMode=profile",
            "-dTargetPlatform=linux-x64",
            "-dDartObfuscation=false",
            "-dTrackWidgetCreation=false",
            "-dTreeShakeIcons=true",
            "profile_bundle_linux-x64_assets",
        ]
    );
    assert_eq!(assemble_arguments(PreparedRuntime::Debug, "o")[3], "-dBuildMode=debug");
    assert_eq!(assemble_arguments(PreparedRuntime::Debug, "o")[8], "copy_flutter_bundle");
    assert_eq!(PreparedRuntime::Debug.build_mode(), "debug");
    assert_eq!(redundant_debug_files(), vec!["vm_snapshot_data", "isolate_snapshot_data", ".last_build_id"]);
}

#[test]
fn engines_must_export_the_embedder_entry_points() {
    let good = b"..FlutterEngineGetProcAddresses\0..DenialFlutterEngineScheduleFrameForExternalTextures\0..";
    assert!(validate_engine_exports(good, "debug", "/e.so").is_ok());
    assert_eq!(
        validate_engine_exports(b"FlutterEngineGetProcAddresses", "debug", "/e.so").unwrap_err().message,
        "debug engine does not export FlutterEngineGetProcAddresses: /e.so"
    );
    assert_eq!(
        validate_engine_exports(b"FlutterEngineGetProcAddresses\0", "profile", "/p.so").unwrap_err().message,
        "profile engine does not export DenialFlutterEngineScheduleFrameForExternalTextures: /p.so"
    );
}

#[test]
fn dependency_seed_names_the_pinned_generation() {
    assert!(seed_matches_generation(b"3.44.7.denial1\n"));
    assert!(seed_matches_generation(b"  3.44.7.denial1"));
    assert!(!seed_matches_generation(b"3.44.6"));
}

#[test]
fn endpoint_file_must_be_private_to_the_user() {
    assert_eq!(endpoint_refusal(true, 1000, 1000, 0o100600), None);
    assert_eq!(endpoint_refusal(false, 1000, 1000, 0o600), Some(EndpointRefusal::NotRegularFile));
    assert_eq!(endpoint_refusal(true, 0, 1000, 0o600), Some(EndpointRefusal::NotOwned));
    assert_eq!(endpoint_refusal(true, 1000, 1000, 0o644), Some(EndpointRefusal::NotPrivate));
}

#[test]
fn endpoint_document_holds_only_a_valid_uri() {
    let uri = "http://127.0.0.1:8181/abc=/".to_owned();
    let good = vec![("uri".to_owned(), Some(uri.clone()))];
    assert_eq!(endpoint_uri(&good), Some(uri.clone()));
    let extra = vec![("uri".to_owned(), Some(uri.clone())), ("pid".to_owned(), None)];
    assert_eq!(endpoint_uri(&extra), None);
    assert_eq!(endpoint_uri(&[("url".to_owned(), Some(uri))]), None);
    assert_eq!(endpoint_uri(&[("uri".to_owned(), None)]), None);
    let remote = vec![("uri".to_owned(), Some("http://10.0.0.1:8181/abc/".to_owned()))];
    assert_eq!(endpoint_uri(&remote), None);
    assert_eq!(endpoint_uri(&[]), None);
}
