use denial::authentication::settings::password_verdict;
use denial::authentication::settings::{
        check_enrollment, session_user_id, settings_command, EnrollRefusal, SettingsCommand,
    };
use std::time::Duration;

use denial::authentication::fingerprint::{
    WAKE_SETTLE_NANOS, classify_status, fingerprint_retry, unavailable_retry, RetryState, Verification,
    MAX_UNAVAILABLE_RETRY_MS,
};
use denial::authentication::session::{AuthenticationSession, PendingUnlock, WorkItem};
use denial::authentication::settings::{
    PasswordConversation, authenticate_password, read_bounded_line, AuthenticationBackend, Conversation, LineError,
    UnavailableBackend,
};
use denial::authentication::{
    cooldown_for, decode, sanitize_message, AuthenticationCommand, AuthenticationDecodeError,
    AuthenticationEventKind, BackendResult, PromptStyle, SecureString, KIND_FINGERPRINT_FEEDBACK,
};

fn ms(value: u64) -> Duration {
    Duration::from_millis(value)
}

#[test]
fn only_completed_match_authenticates() {
    assert_eq!(
        classify_status("verify-match", true),
        Some(Verification::Match)
    );
    assert_eq!(
        classify_status("verify-match", false),
        Some(Verification::Unavailable)
    );
    assert_eq!(
        classify_status("verify-no-match", true),
        Some(Verification::NoMatch)
    );
    for status in [
        "verify-disconnected",
        "verify-unknown-error",
        "enroll-completed",
        "",
        "match",
    ] {
        assert_eq!(
            classify_status(status, true),
            Some(Verification::Unavailable)
        );
    }
    assert_eq!(classify_status("verify-retry-scan", false), None);
    assert_eq!(
        classify_status("verify-retry-scan", true),
        Some(Verification::Unavailable)
    );
}

#[test]
fn unavailable_backoff_is_bounded_and_independent_of_rejected_scans() {
    let max_unavailable_retry = ms(MAX_UNAVAILABLE_RETRY_MS);
    assert_eq!(ms(unavailable_retry(1)), Duration::from_secs(1));
    assert_eq!(ms(unavailable_retry(2)), Duration::from_secs(2));
    assert_eq!(ms(unavailable_retry(3)), Duration::from_secs(4));
    assert_eq!(ms(unavailable_retry(6)), max_unavailable_retry);
    assert_eq!(ms(unavailable_retry(u32::MAX)), max_unavailable_retry);
    assert_eq!(ms(fingerprint_retry(1)), Duration::from_millis(150));
    assert_eq!(ms(fingerprint_retry(4)), Duration::from_millis(150));
    assert_eq!(ms(fingerprint_retry(5)), Duration::from_millis(750));
    assert_eq!(ms(fingerprint_retry(u32::MAX)), Duration::from_secs(30));
    assert_eq!(ms(cooldown_for(1)), Duration::from_millis(750));
    assert_eq!(ms(cooldown_for(u32::MAX)), Duration::from_secs(30));
}

struct PasswordBackend {
    prompt: bool,
}

impl AuthenticationBackend for PasswordBackend {
    fn available(&self) -> bool {
        true
    }

    fn unavailable_reason(&self) -> String {
        String::new()
    }

    fn authenticate<C: Conversation>(&mut self, _: &str, conversation: &mut C) -> BackendResult {
        if !self.prompt {
            return BackendResult::Success;
        }
        if conversation
            .converse(PromptStyle::EchoOff, "Password:")
            .is_some_and(|secret| secret.as_bytes() == b"correct")
        {
            BackendResult::Success
        } else {
            BackendResult::Failure
        }
    }
}

/// Checks `password` for "user" through `backend`, as the settings helper does.
fn attempt<B: AuthenticationBackend>(backend: &mut B, password: &[u8]) -> BackendResult {
    authenticate_password(
        |mut conversation| {
            let result = backend.authenticate("user", &mut conversation);
            (conversation, result)
        },
        &SecureString::new(password),
    )
}

#[test]
fn gate_requires_a_real_password_check_even_when_elevation_is_passwordless() {
    let mut backend = PasswordBackend { prompt: false };
    assert_eq!(
        attempt(&mut backend, b"anything"),
        BackendResult::Failure
    );
    backend.prompt = true;
    assert_eq!(
        attempt(&mut backend, b"wrong"),
        BackendResult::Failure
    );
    assert_eq!(
        attempt(&mut backend, b"correct"),
        BackendResult::Success
    );
    assert_eq!(
        attempt(&mut backend, b""),
        BackendResult::Failure
    );
}

#[test]
fn input_is_bounded_and_preserves_command_boundaries() {
    let mut input = &b"password\n{\"command\":\"list\"}\n"[..];
    assert_eq!(read_bounded_line(&mut input).unwrap().unwrap(), b"password");
    assert_eq!(
        read_bounded_line(&mut input).unwrap().unwrap(),
        b"{\"command\":\"list\"}"
    );
    assert!(read_bounded_line(&mut &vec![b'x'; 4097][..]).is_err());
    assert!(read_bounded_line(&mut &b"unterminated"[..]).is_err());
}

#[test]
fn line_reader_distinguishes_end_of_input_from_truncation() {
    let mut empty = &b""[..];
    assert_eq!(read_bounded_line(&mut empty), Ok(None));
    let mut truncated = &b"abc"[..];
    assert_eq!(read_bounded_line(&mut truncated), Err(LineError::UnexpectedEof));
    assert!(truncated.is_empty());
    let long = vec![b'y'; 4096];
    let mut exact = &long[..];
    assert_eq!(read_bounded_line(&mut exact), Err(LineError::UnexpectedEof));
    let longer = vec![b'y'; 4097];
    let mut over = &longer[..];
    assert_eq!(read_bounded_line(&mut over), Err(LineError::InvalidData));
    assert_eq!(over.len(), 4097);
    let mut line = vec![b'z'; 4095];
    line.push(b'\n');
    let mut fits = &line[..];
    assert_eq!(read_bounded_line(&mut fits).unwrap().unwrap().len(), 4095);
}

#[test]
fn unavailable_backend_never_authenticates() {
    let mut backend = UnavailableBackend {
        reason: "no PAM".into(),
    };
    assert!(!backend.available());
    assert_eq!(backend.unavailable_reason(), "no PAM");
    assert_eq!(
        attempt(&mut backend, b"secret"),
        BackendResult::Failure
    );
}

fn packet(kind: u8, flags: u8, attempt: u64, argument: u32, payload: &[u8]) -> Vec<u8> {
    let mut bytes = b"DAUT".to_vec();
    bytes.extend_from_slice(&1u16.to_le_bytes());
    bytes.push(kind);
    bytes.push(flags);
    bytes.extend_from_slice(&attempt.to_le_bytes());
    bytes.extend_from_slice(&argument.to_le_bytes());
    bytes.extend_from_slice(&(payload.len() as u32).to_le_bytes());
    bytes.extend_from_slice(payload);
    bytes
}

#[test]
fn decode_accepts_each_command_and_rejects_each_malformation() {
    assert!(matches!(decode(&packet(1, 0, 0, 0, b"")), Ok(AuthenticationCommand::Synchronize)));
    assert!(matches!(decode(&packet(2, 0, 0, 0, b"")), Ok(AuthenticationCommand::Lock)));
    assert!(matches!(decode(&packet(3, 0, 0, 0, b"")), Ok(AuthenticationCommand::Begin)));
    match decode(&packet(4, 0, 9, 2, b"pw")) {
        Ok(AuthenticationCommand::Respond {
            attempt_id,
            prompt_sequence,
            response,
        }) => {
            assert_eq!(attempt_id, 9);
            assert_eq!(prompt_sequence, 2);
            assert_eq!(response.as_bytes(), b"pw");
        }
        _ => panic!("respond packet was not decoded"),
    }
    assert!(matches!(
        decode(&packet(5, 0, 7, 0, b"")),
        Ok(AuthenticationCommand::Cancel { attempt_id: 7 })
    ));
    assert_eq!(
        decode(&[0u8; 10]).err(),
        Some(AuthenticationDecodeError::InvalidSize(10))
    );
    let mut bad_magic = packet(1, 0, 0, 0, b"");
    bad_magic[0] = b'X';
    assert_eq!(decode(&bad_magic).err(), Some(AuthenticationDecodeError::InvalidMagic));
    let mut bad_version = packet(1, 0, 0, 0, b"");
    bad_version[4] = 2;
    assert_eq!(
        decode(&bad_version).err(),
        Some(AuthenticationDecodeError::UnsupportedVersion(2))
    );
    assert_eq!(
        decode(&packet(1, 4, 0, 0, b"")).err(),
        Some(AuthenticationDecodeError::InvalidFlags(4))
    );
    let mut bad_length = packet(4, 0, 9, 2, b"pw");
    bad_length[20] = 3;
    assert_eq!(
        decode(&bad_length).err(),
        Some(AuthenticationDecodeError::InvalidPayloadLength(3))
    );
    assert_eq!(
        decode(&packet(4, 0, 9, 2, b"p\0")).err(),
        Some(AuthenticationDecodeError::EmbeddedNul)
    );
    assert_eq!(
        decode(&packet(1, 0, 1, 0, b"")).err(),
        Some(AuthenticationDecodeError::UnexpectedMetadata)
    );
    assert_eq!(
        decode(&packet(9, 0, 0, 0, b"")).err(),
        Some(AuthenticationDecodeError::UnsupportedKind(9))
    );
}

#[test]
fn status_messages_are_bounded_and_have_a_default() {
    assert_eq!(sanitize_message(""), "Authenticate to unlock");
    assert_eq!(sanitize_message(" \n\r"), "Authenticate to unlock");
    assert_eq!(sanitize_message("Password:\x07 \n"), "Password:");
    assert_eq!(sanitize_message("a\tb\nc"), "a\tb\nc");
    let long = "é".repeat(600);
    assert_eq!(sanitize_message(&long).len(), 1024);
}

#[test]
fn cooldown_doubles_from_the_second_failure() {
    assert_eq!(cooldown_for(0), 750);
    assert_eq!(cooldown_for(2), 1500);
    assert_eq!(cooldown_for(6), 24_000);
    assert_eq!(cooldown_for(7), 30_000);
}

#[test]
fn retry_counts_restart_with_each_lock_epoch() {
    let mut retry = RetryState::new();
    retry.observe_epoch(1);
    assert_eq!(retry.after_result(Verification::NoMatch), 150);
    assert_eq!(retry.after_result(Verification::Unavailable), 1000);
    assert_eq!(retry.after_result(Verification::Unavailable), 2000);
    assert_eq!(retry.failures, 1);
    retry.observe_epoch(2);
    assert_eq!(retry.failures, 0);
    assert_eq!(retry.unavailable_attempts, 0);
}

const NOW: u64 = 50_000_000_000;

#[test]
fn only_a_current_successful_attempt_unlocks() {
    let mut session = AuthenticationSession::new(true, true, String::new());
    session.begin(NOW);
    let work = session.take_pending_work().unwrap();
    assert!(session.state.busy);
    session.finish_attempt(work, BackendResult::Failure, NOW);
    assert!(session.locked());
    assert_eq!(session.state.failure_count, 1);
    assert_eq!(session.snapshot(NOW).cooldown_ms, 750);
    session.begin(NOW);
    assert!(session.take_pending_work().is_none());
    session.begin(NOW + 750_000_000);
    let work = session.take_pending_work().unwrap();
    session.finish_attempt(work, BackendResult::Success, NOW + 750_000_000);
    assert!(!session.locked());
    assert!(session.security_gate_locked());
    session.acknowledge_unlocked_boundary();
    assert!(!session.security_gate_locked());
}

#[test]
fn fingerprint_cancels_password_prompt_and_invalidates_its_late_success() {
    let mut session = AuthenticationSession::new(true, true, String::new());
    session.begin(NOW);
    let work: WorkItem = session.take_pending_work().unwrap();
    let sequence = session
        .begin_prompt(work, PromptStyle::EchoOff, "Password:", NOW)
        .unwrap();
    let epoch = session.locked_epoch().unwrap();
    assert!(session.complete_match(epoch));
    assert_eq!(session.state.fingerprint_unlock, Some(PendingUnlock::Validated));
    assert!(session.state.prompt.is_none());
    assert!(session.finish_prompt(work, sequence, false).is_none());
    session.finish_attempt(work, BackendResult::Success, NOW);
    assert!(session.locked());
    assert!(!session.advance_pending_unlock(NOW, true));
    assert!(!session.locked());
    let mut unlocked = false;
    while let Some(event) = session.try_event() {
        if let AuthenticationEventKind::Result { success: true, .. } = event.kind {
            assert_eq!(event.message, "Fingerprint recognized");
            unlocked = true;
        }
    }
    assert!(unlocked);
}

#[test]
fn screen_off_match_waits_for_wake_frame_then_settles() {
    let mut session = AuthenticationSession::new(true, true, String::new());
    let epoch = session.locked_epoch().unwrap();
    assert!(session.complete_match(epoch));
    assert!(session.advance_pending_unlock(NOW, false));
    assert!(!session.advance_pending_unlock(NOW, true));
    assert!(session.locked());
    assert!(!session.advance_pending_unlock(NOW + 149_000_000, true));
    assert!(session.locked());
    assert!(!session.advance_pending_unlock(NOW + 150_000_000, true));
    assert!(!session.locked());
}

#[test]
fn relock_revokes_a_validated_match_and_stale_epochs_are_ignored() {
    let mut session = AuthenticationSession::new(true, true, String::new());
    let epoch = session.locked_epoch().unwrap();
    assert!(!session.publish_no_match(epoch + 1, NOW));
    assert!(session.publish_no_match(epoch, NOW));
    assert!(session.complete_match(epoch));
    session.lock(NOW);
    assert!(!session.advance_pending_unlock(NOW, true));
    assert!(session.locked());
    assert!(!session.complete_match(epoch));
}

#[test]
fn event_queue_keeps_the_newest_sixty_four() {
    let mut session = AuthenticationSession::new(true, true, String::new());
    for _ in 0..70 {
        session.synchronize(NOW);
    }
    let mut count = 0;
    while session.try_event().is_some() {
        count += 1;
    }
    assert_eq!(count, 64);
    assert!(!session.has_pending_events());
}

#[test]
fn events_encode_their_header_and_payload() {
    let mut session = AuthenticationSession::new(true, false, "No PAM".into());
    session.synchronize(NOW);
    let event = session.try_event().unwrap();
    let bytes = event.encode();
    assert_eq!(&bytes[..4], b"DAUT");
    assert_eq!(bytes[6], 0x81);
    assert_eq!(bytes[7], 1);
    assert_eq!(&bytes[20..24], &6u32.to_le_bytes());
    assert_eq!(&bytes[24..], b"No PAM");
}

fn session(locked: bool) -> AuthenticationSession {
    AuthenticationSession::new(locked, false, "test".to_owned())
}

#[test]
fn rejection_feedback_is_advisory_and_stale_epochs_are_ignored() {
    let mut session = session(true);
    let before = (
        session.state.generation,
        session.state.busy,
        session.state.failure_count,
    );
    assert!(session.publish_no_match(0, NOW));
    let event = session.try_event().unwrap();
    assert_eq!(event.kind, AuthenticationEventKind::FingerprintFeedback);
    assert_eq!(event.encode()[6], KIND_FINGERPRINT_FEEDBACK);
    assert_eq!(event.message, "no-match");
    assert!(session.locked());
    assert_eq!(
        (
            session.state.generation,
            session.state.busy,
            session.state.failure_count
        ),
        before
    );
    session.lock(NOW);
    while session.try_event().is_some() {}
    assert!(!session.publish_no_match(0, NOW));
    assert!(session.try_event().is_none());
}

#[test]
fn match_unlocks_once_and_preserves_compositor_gate() {
    let mut session = session(true);
    assert!(session.complete_match(0));
    assert!(session.locked());
    assert!(session.try_event().is_none());
    assert!(!session.advance_pending_unlock(NOW, true));
    assert!(!session.locked());
    assert!(session.security_gate_locked());
    assert!(!session.complete_match(0));
    session.acknowledge_unlocked_boundary();
    assert!(!session.security_gate_locked());
}

#[test]
fn screen_off_match_waits_for_wake_frame_then_settles_before_unlock() {
    let mut session = session(true);
    let now = NOW;
    assert!(!session.advance_pending_unlock(now, false));
    assert!(session.complete_match(0));
    assert!(session.advance_pending_unlock(now, false));
    assert!(session.locked());
    assert!(session.security_gate_locked());
    assert!(session.try_event().is_none());
    let presented = now + 1_000_000_000;
    assert!(session.advance_pending_unlock(presented, false));
    assert!(!session.advance_pending_unlock(presented, true));
    session.advance_pending_unlock(presented + WAKE_SETTLE_NANOS / 2, true);
    assert!(session.locked());
    assert!(session.try_event().is_none());
    session.advance_pending_unlock(presented + WAKE_SETTLE_NANOS, true);
    assert!(!session.locked());
    assert!(session.security_gate_locked());
    let event = session.try_event().unwrap();
    assert_eq!(
        event.kind,
        AuthenticationEventKind::Result {
            success: true,
            cancelled: false
        }
    );
    session.advance_pending_unlock(presented + 2_000_000_000, true);
    assert!(session.try_event().is_none());
}

#[test]
fn relock_invalidates_a_validated_match_during_display_wake() {
    let mut session = session(true);
    let now = NOW;
    assert!(session.complete_match(0));
    assert!(session.advance_pending_unlock(now, false));
    session.advance_pending_unlock(now, true);
    session.lock(now);
    while session.try_event().is_some() {}
    session.advance_pending_unlock(now + 1_000_000_000, true);
    assert!(session.locked());
    assert!(session.security_gate_locked());
    assert!(session.try_event().is_none());
}

#[test]
fn relock_and_shutdown_reject_late_match() {
    let mut session = session(true);
    session.lock(NOW);
    assert!(!session.complete_match(0));
    assert!(session.locked());
    session.state.stopping = true;
    assert!(!session.complete_match(1));
    assert!(session.locked());
}

#[test]
fn settings_commands_and_enrollment_checks() {
    assert_eq!(settings_command(Some("list")), SettingsCommand::List);
    assert_eq!(settings_command(Some("enroll")), SettingsCommand::Enroll);
    assert_eq!(settings_command(Some("cancel")), SettingsCommand::Cancel);
    assert_eq!(settings_command(Some("delete")), SettingsCommand::Stop);
    assert_eq!(settings_command(None), SettingsCommand::Stop);
    let enrolled = vec!["right-index-finger".to_owned()];
    assert_eq!(check_enrollment("left-thumb", &enrolled), Ok(()));
    assert_eq!(check_enrollment("right-index-finger", &enrolled), Err(EnrollRefusal::AlreadyEnrolled));
    assert_eq!(check_enrollment("nose", &enrolled), Err(EnrollRefusal::InvalidFinger));
    assert_eq!(EnrollRefusal::InvalidFinger.code(), "invalid-finger");
    assert_eq!(EnrollRefusal::AlreadyEnrolled.code(), "already-enrolled");
    assert_eq!(session_user_id("1000"), Some(1000));
    assert_eq!(session_user_id("0"), None);
    assert_eq!(session_user_id("x"), None);
}

#[test]
fn password_verdict_needs_a_prompt_and_a_password() {
    let password = SecureString::new(b"secret");
    let empty = SecureString::new(b"");
    assert_eq!(password_verdict(BackendResult::Success, true, &password), BackendResult::Success);
    assert_eq!(password_verdict(BackendResult::Error, true, &password), BackendResult::Error);
    assert_eq!(password_verdict(BackendResult::Success, false, &password), BackendResult::Failure);
    assert_eq!(password_verdict(BackendResult::Success, true, &empty), BackendResult::Failure);
    let mut backend = UnavailableBackend { reason: "no PAM".to_owned() };
    assert!(!backend.available());
    assert_eq!(backend.unavailable_reason(), "no PAM");
}

#[test]
fn password_conversation_answers_only_hidden_prompts_with_the_password() {
    let mut conversation = PasswordConversation::new(&SecureString::new(b"hunter2"));
    assert_eq!(conversation.password(), b"hunter2");
    assert!(!conversation.prompted());
    let info = conversation.converse(PromptStyle::Info, "Touch the sensor").unwrap();
    assert!(info.as_bytes().is_empty());
    assert!(!conversation.prompted());
    let answer = conversation.converse(PromptStyle::EchoOff, "Password:").unwrap();
    assert_eq!(answer.as_bytes(), b"hunter2");
    assert!(conversation.prompted());
    assert!(!conversation.cancelled());
}
