use denial::clipboard::content::{sanitize_metadata, text_preview, validate_image};
use denial::clipboard::image::{jpeg_dimensions, png_dimensions, valid_image_dimensions, webp_dimensions};
use denial::clipboard::manager::ClipboardManager;
use denial::clipboard::mime::{mime_kind, select_capture_representations};
use denial::clipboard::protocol::decode_request;
use denial::clipboard::{
    ClipboardAction, ClipboardContentKind, ClipboardError, ClipboardOrigin, ClipboardSelection,
    ClipboardSourceIdentity, MAX_REQUEST_BYTES,
};

fn png(width: u32, height: u32) -> Vec<u8> {
    let mut d = vec![0x89, 0x50, 0x4e, 0x47, 0x0d, 0x0a, 0x1a, 0x0a];
    d.extend_from_slice(&13u32.to_be_bytes());
    d.extend_from_slice(b"IHDR");
    d.extend_from_slice(&width.to_be_bytes());
    d.extend_from_slice(&height.to_be_bytes());
    d.extend_from_slice(&[8, 6, 0, 0, 0]);
    d.extend_from_slice(&[0, 0, 0, 0]);
    d.extend_from_slice(&0u32.to_be_bytes());
    d.extend_from_slice(b"IEND");
    d.extend_from_slice(&[0, 0, 0, 0]);
    d
}

fn request(command: u8, body: &[u8]) -> Vec<u8> {
    let mut p = b"DCLP".to_vec();
    p.extend_from_slice(&1u16.to_le_bytes());
    p.push(command);
    p.push(0);
    p.extend_from_slice(body);
    p
}

fn error_status(response: &[u8]) -> Option<u8> {
    if response.len() >= 8 && &response[0..4] == b"DCLS" && response[6] == 255 {
        Some(response[7])
    } else {
        None
    }
}

#[test]
fn text_reads_back_and_publishes() {
    let mut clipboard = ClipboardManager::new();
    let id = clipboard.set_text("hello").unwrap();
    assert_eq!(clipboard.current_text().as_deref(), Some("hello"));
    assert!(clipboard.has_strings());
    let actions = clipboard.take_actions();
    assert_eq!(actions.len(), 1);
    assert!(matches!(actions[0], ClipboardAction::Publish { item_id, paste: false, .. } if item_id == id));
    assert!(clipboard.take_actions().is_empty());
    assert_eq!(
        clipboard.retained_data(id, "text/plain;charset=utf-8").as_deref(),
        Some(&b"hello"[..])
    );
}

#[test]
fn same_text_keeps_its_history_entry() {
    let mut clipboard = ClipboardManager::new();
    let first = clipboard.set_text("same").unwrap();
    let second = clipboard.set_text("same").unwrap();
    assert_eq!(first, second);
    let other = clipboard.set_text("other").unwrap();
    assert_ne!(other, first);
    let again = clipboard.set_text("same").unwrap();
    assert_ne!(again, other);
}

#[test]
fn text_errors() {
    let mut clipboard = ClipboardManager::new();
    assert_eq!(clipboard.set_text("a\0b"), Err(ClipboardError::Unsupported));
    let huge = "x".repeat(1_048_577);
    assert_eq!(clipboard.set_text(&huge), Err(ClipboardError::TooLarge));
    assert_eq!(clipboard.set_image_png(b"not a png".to_vec()), Err(ClipboardError::Unsupported));
    clipboard.set_locked(true);
    assert_eq!(clipboard.set_text("locked"), Err(ClipboardError::Locked));
}

#[test]
fn locked_history_is_unavailable() {
    let mut clipboard = ClipboardManager::new();
    let id = clipboard.set_text("secret").unwrap();
    let revision = clipboard.revision();
    clipboard.set_locked(true);
    assert!(clipboard.revision() > revision);
    assert_eq!(clipboard.current_text(), None);
    assert!(clipboard.retained_data(id, "text/plain;charset=utf-8").is_none());
    assert!(clipboard.drag_payload(id).is_none());
    let response = clipboard.handle_control_packet(&request(2, &id.to_le_bytes()));
    assert_eq!(error_status(&response), Some(3));
    clipboard.set_locked(false);
    assert_eq!(clipboard.current_text().as_deref(), Some("secret"));
}

#[test]
fn png_screenshots_are_kept_with_dimensions() {
    let mut clipboard = ClipboardManager::new();
    let id = clipboard.set_image_png(png(3, 2)).unwrap();
    assert_eq!(clipboard.current_text(), None);
    let payload = clipboard.drag_payload(id).unwrap();
    assert_eq!(payload.item_id, id);
    assert_eq!(payload.representations.len(), 1);
    assert_eq!(payload.representations[0].0, "image/png");
}

#[test]
fn external_selection_is_captured_into_history() {
    let mut clipboard = ClipboardManager::new();
    let offered = vec!["text/html".to_owned(), "text/plain;charset=utf-8".to_owned()];
    let source = ClipboardSourceIdentity::bounded("org.example.Editor", "Draft");
    let plan = clipboard
        .observe_external_selection(ClipboardOrigin::Wayland, &offered, source)
        .unwrap();
    assert!(clipboard.capture_is_current(plan.epoch));
    assert!(clipboard.has_pending_capture());
    assert_eq!(plan.representations[0].mime_type, "text/plain;charset=utf-8");
    for representation in &plan.representations {
        let data = if representation.mime_type == "text/html" {
            b"<b>copied</b>".to_vec()
        } else {
            b"copied".to_vec()
        };
        clipboard.finish_capture(plan.epoch, &representation.mime_type, Some(data));
    }
    assert!(!clipboard.has_pending_capture());
    assert_eq!(clipboard.current_text().as_deref(), Some("copied"));
}

#[test]
fn stale_capture_is_ignored() {
    let mut clipboard = ClipboardManager::new();
    let offered = vec!["text/plain".to_owned()];
    let first = clipboard.observe_external_selection(ClipboardOrigin::X11, &offered, None).unwrap();
    let second = clipboard.observe_external_selection(ClipboardOrigin::X11, &offered, None).unwrap();
    assert!(!clipboard.capture_is_current(first.epoch));
    clipboard.finish_capture(first.epoch, "text/plain", Some(b"old".to_vec()));
    assert!(clipboard.has_pending_capture());
    clipboard.finish_capture(second.epoch, "text/plain", Some(b"new".to_vec()));
    assert_eq!(clipboard.current_text().as_deref(), Some("new"));
}

#[test]
fn empty_offer_clears_and_locked_offer_is_not_captured() {
    let mut clipboard = ClipboardManager::new();
    assert!(clipboard.observe_external_selection(ClipboardOrigin::Wayland, &[], None).is_none());
    clipboard.set_locked(true);
    let offered = vec!["text/plain".to_owned()];
    assert!(clipboard.observe_external_selection(ClipboardOrigin::Wayland, &offered, None).is_none());
    assert!(!clipboard.has_pending_capture());
}

#[test]
fn control_requests_are_validated() {
    let mut clipboard = ClipboardManager::new();
    let oversized = vec![0u8; MAX_REQUEST_BYTES + 1];
    assert_eq!(error_status(&clipboard.handle_control_packet(&oversized)), Some(4));
    assert_eq!(error_status(&clipboard.handle_control_packet(b"garbage!")), Some(1));
    assert_eq!(error_status(&clipboard.handle_control_packet(&request(2, &99u64.to_le_bytes()))), Some(2));
    assert_eq!(decode_request(&request(5, &[])).is_ok(), true);
    assert_eq!(decode_request(&request(5, &[1])).err(), Some(ClipboardError::BadRequest));
    assert_eq!(decode_request(&request(9, &[])).err(), Some(ClipboardError::BadRequest));
    let snapshot = clipboard.handle_control_packet(&request(0, &[0, 0]));
    assert_eq!(&snapshot[0..4], b"DCLS");
    assert_eq!(snapshot[6], 1);
    assert_eq!(snapshot[7], 0);
}

#[test]
fn pinned_entries_survive_clear() {
    let mut clipboard = ClipboardManager::new();
    let keep = clipboard.set_text("keep").unwrap();
    let drop = clipboard.set_text("drop").unwrap();
    let mut body = keep.to_le_bytes().to_vec();
    body.push(1);
    let ack = clipboard.handle_control_packet(&request(3, &body));
    assert_eq!(ack[6], 0);
    clipboard.handle_control_packet(&request(5, &[]));
    assert!(clipboard.drag_payload(keep).is_some());
    assert!(clipboard.drag_payload(drop).is_none());
}

#[test]
fn image_headers_give_dimensions() {
    assert_eq!(png_dimensions(&png(640, 480)), Some((640, 480)));
    assert_eq!(png_dimensions(&png(640, 480)[..20]), None);
    let jpeg = [
        0xff, 0xd8, 0xff, 0xc0, 0x00, 0x0b, 0x08, 0x00, 0x20, 0x00, 0x40, 0x01, 0x01, 0x11, 0x00,
        0xff, 0xd9,
    ];
    assert_eq!(jpeg_dimensions(&jpeg), Some((64, 32)));
    let mut webp = b"RIFF".to_vec();
    webp.extend_from_slice(&22u32.to_le_bytes());
    webp.extend_from_slice(b"WEBP");
    webp.extend_from_slice(b"VP8X");
    webp.extend_from_slice(&10u32.to_le_bytes());
    webp.extend_from_slice(&[0, 0, 0, 0, 99, 0, 0, 49, 0, 0]);
    assert_eq!(webp_dimensions(&webp), Some((100, 50)));
    assert!(valid_image_dimensions((16384, 4096)));
    assert!(!valid_image_dimensions((16385, 1)));
    assert!(!valid_image_dimensions((0, 1)));
    assert!(!valid_image_dimensions((16384, 16384)));
    assert_eq!(validate_image("image/png", &png(2, 2)), Some((2, 2)));
}

#[test]
fn previews_collapse_white_space() {
    assert_eq!(text_preview("  one \n\t two   three "), "one two three");
    let long = "é".repeat(600);
    assert_eq!(text_preview(&long).len(), 1024);
    assert_eq!(sanitize_metadata(" a\u{7}b\n ", 16), "ab");
}

#[test]
fn mime_types_choose_kinds_and_plan() {
    assert_eq!(mime_kind("text/plain"), Some(ClipboardContentKind::Text));
    assert_eq!(mime_kind("image/png"), Some(ClipboardContentKind::Image));
    assert_eq!(mime_kind("application/octet-stream"), None);
    let plan = select_capture_representations(&[
        "image/png".to_owned(),
        "UTF8_STRING".to_owned(),
        "application/x-secret".to_owned(),
    ]);
    assert!(plan.len() <= 4);
    assert!(plan.iter().all(|r| r.mime_type != "application/x-secret"));
}

#[test]
fn selection_helpers() {
    assert_eq!(ClipboardSelection::History { item_id: 4 }.history_item_id(), Some(4));
    assert_eq!(ClipboardSelection::Xwayland.history_item_id(), None);
    assert!(ClipboardSelection::Xwayland.is_xwayland());
    let source = ClipboardSourceIdentity::bounded("app", "Title").unwrap();
    assert_eq!(source.app_id, "app");
    assert!(ClipboardSourceIdentity::bounded("", "").is_none());
}

fn entry_count(snapshot: &[u8]) -> u16 {
    u16::from_le_bytes([snapshot[33], snapshot[34]])
}

#[test]
fn new_history_starts_at_revision_one() {
    let mut clipboard = ClipboardManager::new();
    assert_eq!(clipboard.revision(), 1);
    clipboard.set_locked(true);
    clipboard.set_locked(false);
    assert!(clipboard.revision() > 1);
}

#[test]
fn stored_entries_have_nonzero_ids() {
    let mut clipboard = ClipboardManager::new();
    let text = clipboard.set_text("first").unwrap();
    let image = clipboard.set_image_png(png(4, 4)).unwrap();
    let again = clipboard.set_text("first").unwrap();
    assert_ne!(text, 0);
    assert_ne!(image, 0);
    assert_ne!(again, 0);
}

#[test]
fn failed_set_text_changes_nothing() {
    let mut clipboard = ClipboardManager::new();
    clipboard.set_text("kept").unwrap();
    let revision = clipboard.revision();
    let actions = clipboard.take_actions();
    assert_eq!(actions.len(), 1);
    assert_eq!(clipboard.set_text("a\0b"), Err(ClipboardError::Unsupported));
    assert_eq!(clipboard.set_image_png(png(0, 4)), Err(ClipboardError::Unsupported));
    assert_eq!(clipboard.revision(), revision);
    assert!(clipboard.take_actions().is_empty());
    assert_eq!(clipboard.current_text().as_deref(), Some("kept"));
}

#[test]
fn state_packet_answers_an_empty_snapshot_request() {
    let mut clipboard = ClipboardManager::new();
    clipboard.set_text("one").unwrap();
    clipboard.set_text("two").unwrap();
    let revision = clipboard.revision();
    let state = clipboard.state_packet();
    let answer = clipboard.handle_control_packet(b"DCLP\x01\x00\x00\x00\x00\x00");
    assert_eq!(state, answer);
    assert_eq!(entry_count(&state), 2);
    assert_eq!(clipboard.revision(), revision);
}

#[test]
fn undecodable_requests_change_nothing() {
    let mut clipboard = ClipboardManager::new();
    clipboard.set_text("stay").unwrap();
    clipboard.take_actions();
    let revision = clipboard.revision();
    let mut bad_version = request(0, &[0, 0]);
    bad_version[4] = 2;
    let mut bad_flags = request(5, &[]);
    bad_flags[7] = 1;
    let mut long_query = vec![0x01, 0x01];
    long_query.extend_from_slice(&[b'a'; 257]);
    assert_eq!(error_status(&clipboard.handle_control_packet(b"XCLP\x01\x00\x05\x00")), Some(1));
    assert_eq!(error_status(&clipboard.handle_control_packet(&bad_version)), Some(1));
    assert_eq!(error_status(&clipboard.handle_control_packet(&request(8, &[]))), Some(1));
    assert_eq!(error_status(&clipboard.handle_control_packet(&bad_flags)), Some(1));
    assert_eq!(error_status(&clipboard.handle_control_packet(&request(5, &[0]))), Some(1));
    assert_eq!(error_status(&clipboard.handle_control_packet(&request(2, &0u64.to_le_bytes()))), Some(1));
    assert_eq!(error_status(&clipboard.handle_control_packet(&request(0, &long_query))), Some(4));
    assert_eq!(clipboard.revision(), revision);
    assert!(clipboard.take_actions().is_empty());
    assert_eq!(clipboard.current_text().as_deref(), Some("stay"));
}

#[test]
fn paused_offer_is_not_captured() {
    let mut clipboard = ClipboardManager::new();
    clipboard.set_text("managed").unwrap();
    let ack = clipboard.handle_control_packet(&request(6, &[1]));
    assert_eq!(ack[6], 0);
    let revision = clipboard.revision();
    let offered = vec!["text/plain".to_owned()];
    assert!(clipboard.observe_external_selection(ClipboardOrigin::Wayland, &offered, None).is_none());
    assert!(!clipboard.has_pending_capture());
    assert_ne!(clipboard.revision(), revision);
    clipboard.handle_control_packet(&request(6, &[0]));
    assert_eq!(clipboard.current_text(), None);
}

#[test]
fn capture_plan_is_safe_and_ordered() {
    let offered = vec![
        "TEXT/PLAIN".to_owned(),
        "text/plain".to_owned(),
        "image/jpeg".to_owned(),
        "image/png".to_owned(),
        "text/uri-list".to_owned(),
        "text/plain;\u{1}".to_owned(),
        "t\u{e9}xt/plain".to_owned(),
    ];
    let plan = select_capture_representations(&offered);
    let mimes: Vec<&str> = plan.iter().map(|r| r.mime_type.as_str()).collect();
    assert_eq!(mimes, vec!["image/png", "TEXT/PLAIN", "text/uri-list"]);
    assert_eq!(plan[0].max_bytes, 16 * 1024 * 1024);
    assert_eq!(plan[1].max_bytes, 1024 * 1024);
    assert_eq!(plan[2].max_bytes, 1024 * 1024);
    let mut late = vec!["application/x-other".to_owned(); 256];
    late.push("text/plain".to_owned());
    assert!(select_capture_representations(&late).is_empty());
}

#[test]
fn search_ignores_ascii_case() {
    let mut clipboard = ClipboardManager::new();
    clipboard.set_text("Hello World").unwrap();
    clipboard.set_text("unrelated").unwrap();
    let mut upper = vec![5, 0];
    upper.extend_from_slice(b"WORLD");
    let mut lower = vec![5, 0];
    lower.extend_from_slice(b"world");
    let by_upper = clipboard.handle_control_packet(&request(0, &upper));
    let by_lower = clipboard.handle_control_packet(&request(0, &lower));
    assert_eq!(by_upper, by_lower);
    assert_eq!(entry_count(&by_upper), 1);
    let mut absent = vec![6, 0];
    absent.extend_from_slice(b"absent");
    assert_eq!(entry_count(&clipboard.handle_control_packet(&request(0, &absent))), 0);
}

#[test]
fn source_identity_is_cleaned_and_bounded() {
    let source = ClipboardSourceIdentity::bounded(" \u{7}org.app\u{1b} ", "  ").unwrap();
    assert_eq!(source.app_id, "org.app");
    assert_eq!(source.title, "");
    let long = ClipboardSourceIdentity::bounded(&"a".repeat(600), &"t".repeat(2000)).unwrap();
    assert_eq!(long.app_id.len(), 512);
    assert_eq!(long.title.len(), 1024);
    assert!(ClipboardSourceIdentity::bounded("\u{1}", " \t ").is_none());
}

#[test]
fn accepted_png_is_framed() {
    let good = png(7, 9);
    assert_eq!(png_dimensions(&good), Some((7, 9)));
    let mut trailing = good.clone();
    trailing.push(0);
    assert_eq!(png_dimensions(&trailing), None);
    assert_eq!(png_dimensions(&good[..good.len() - 12]), None);
    let mut wrong_first = good.clone();
    wrong_first[12..16].copy_from_slice(b"IDAT");
    assert_eq!(png_dimensions(&wrong_first), None);
    let mut clipboard = ClipboardManager::new();
    assert_eq!(clipboard.set_image_png(trailing), Err(ClipboardError::Unsupported));
    assert_eq!(clipboard.set_image_png(png(16385, 1)), Err(ClipboardError::Unsupported));
}

#[test]
fn default_history_is_new() {
    let clipboard = ClipboardManager::default();
    assert_eq!(clipboard.revision(), 1);
    assert_eq!(clipboard.current_text(), None);
    assert!(!clipboard.has_pending_capture());
}

#[test]
fn malformed_requests_get_their_status() {
    let mut clipboard = ClipboardManager::new();
    clipboard.set_text("stay").unwrap();
    let revision = clipboard.revision();
    assert_eq!(error_status(&clipboard.handle_control_packet(b"DCLP\x01\x00")), Some(1));
    assert_eq!(error_status(&clipboard.handle_control_packet(&request(6, &[2]))), Some(1));
    assert_eq!(error_status(&clipboard.handle_control_packet(&request(6, &[1, 0]))), Some(1));
    assert_eq!(error_status(&clipboard.handle_control_packet(&request(2, &[1, 0, 0]))), Some(1));
    assert_eq!(error_status(&clipboard.handle_control_packet(&request(0, &[2, 0, b'a', 0]))), Some(1));
    assert_eq!(error_status(&clipboard.handle_control_packet(&request(0, &[2, 0, 0xc3, 0x28]))), Some(1));
    assert_eq!(error_status(&clipboard.handle_control_packet(&request(0, &[4, 0, b'a']))), Some(1));
    let mut read = 1u64.to_le_bytes().to_vec();
    read.extend_from_slice(&257u16.to_le_bytes());
    read.extend_from_slice(&[b'm'; 257]);
    assert_eq!(error_status(&clipboard.handle_control_packet(&request(1, &read))), Some(4));
    assert_eq!(clipboard.revision(), revision);
    assert_eq!(clipboard.current_text().as_deref(), Some("stay"));
}

#[test]
fn only_shell_requests_queue_publications() {
    let mut clipboard = ClipboardManager::new();
    let offered = vec!["text/plain".to_owned()];
    let plan = clipboard.observe_external_selection(ClipboardOrigin::Wayland, &offered, None).unwrap();
    clipboard.finish_capture(plan.epoch, "text/plain", Some(b"from another client".to_vec()));
    assert!(clipboard.take_actions().is_empty());
    let id = clipboard.set_text("mine").unwrap();
    clipboard.take_actions();
    let ack = clipboard.handle_control_packet(&request(2, &id.to_le_bytes()));
    assert_eq!(ack[6], 0);
    let actions = clipboard.take_actions();
    assert_eq!(actions.len(), 1);
    assert!(matches!(actions[0], ClipboardAction::Publish { item_id, paste: true, .. } if item_id == id));
    assert!(clipboard.take_actions().is_empty());
}
