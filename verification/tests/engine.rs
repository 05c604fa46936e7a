use std::rc::Rc;
use denial::engine::release_or_leak;
use denial::engine::PresentFrame;
use denial::engine::{log_line, log_message_text, log_tag_text};
use denial::engine::{usable_backing_store, CompositorBackingStore};
use denial::engine::{damage_rect_count, MAX_FLUTTER_DAMAGE_RECTS};
use denial::engine::{RasterSentinel, SentinelStep};
use denial::engine::vsync_after_window;
use denial::engine::first_missing_proc;
use denial::engine::budget::{
    valid_platform_payload_length, PlatformMessageBudget, MAX_IN_FLIGHT_PLATFORM_MESSAGES,
    MAX_IN_FLIGHT_PLATFORM_MESSAGE_BYTES, MAX_PLATFORM_MESSAGE_BYTES,
};
use denial::engine::{
    check_project_paths, check_result, engine_command_line, runtime_preflight, DartRuntimeMode,
    EngineError, EngineLocale, EngineProject, HostError, RenderOutputFfiScratch, RendererBackend,
};

fn project(runtime: DartRuntimeMode, renderer: RendererBackend, cache: usize) -> EngineProject {
    EngineProject {
        engine_library: "/bundle/lib/libflutter_engine.so".to_owned(),
        assets: "/bundle/data/flutter_assets".to_owned(),
        icu_data: "/bundle/data/icudtl.dat".to_owned(),
        runtime,
        aot_library: Some("/bundle/lib/libapp.so".to_owned()),
        renderer_backend: renderer,
        resource_cache_max_bytes_threshold: cache,
    }
}

#[test]
fn renderer_names_parse_and_print() {
    assert_eq!(RendererBackend::parse("skia").unwrap(), RendererBackend::SkiaGles);
    assert_eq!("impeller".parse::<RendererBackend>().unwrap(), RendererBackend::ImpellerGles);
    assert_eq!(RendererBackend::default(), RendererBackend::ImpellerGles);
    assert_eq!(RendererBackend::SkiaGles.label(), "skia");
    assert_eq!(RendererBackend::ImpellerGles.label(), "impeller");
    let error = RendererBackend::parse("vulkan").unwrap_err();
    assert_eq!(error.value(), "vulkan");
    assert_eq!(
        error.message(),
        "unknown Flutter renderer \"vulkan\"; expected skia or impeller"
    );
    assert!(RendererBackend::parse("Skia").is_err());
}

#[test]
fn runtime_modes_choose_aot_and_vm_service() {
    assert!(DartRuntimeMode::Aot.runs_aot());
    assert!(DartRuntimeMode::AotProfile.runs_aot());
    assert!(!DartRuntimeMode::Jit.runs_aot());
    assert!(!DartRuntimeMode::Aot.exposes_vm_service());
    assert!(DartRuntimeMode::AotProfile.exposes_vm_service());
    assert!(DartRuntimeMode::Jit.exposes_vm_service());
}

#[test]
fn release_impeller_command_line() {
    let args = engine_command_line(&project(DartRuntimeMode::Aot, RendererBackend::ImpellerGles, 268435456));
    assert_eq!(
        args,
        vec![
            "deniald",
            "--enable-impeller=true",
            "--denial-gl-fbo-zero-is-no-target",
            "--resource-cache-max-bytes-threshold=268435456",
        ]
    );
}

#[test]
fn jit_skia_command_line_enables_checked_mode_and_vm_service() {
    let args = engine_command_line(&project(DartRuntimeMode::Jit, RendererBackend::SkiaGles, 0));
    assert_eq!(
        args,
        vec![
            "deniald",
            "--enable-checked-mode",
            "--enable-dart-profiling",
            "--vm-service-host=127.0.0.1",
            "--vm-service-port=0",
            "--disable-vm-service-publication",
        ]
    );
}

#[test]
fn start_checks_mode_library_and_paths() {
    let aot = project(DartRuntimeMode::Aot, RendererBackend::ImpellerGles, 0);
    assert_eq!(
        runtime_preflight(&aot, false),
        Err(HostError::RuntimeModeMismatch { project: DartRuntimeMode::Aot, engine_runs_aot: false })
    );
    assert_eq!(runtime_preflight(&aot, true), Ok(Some("/bundle/lib/libapp.so".to_owned())));
    let mut missing = aot.clone();
    missing.aot_library = None;
    assert_eq!(runtime_preflight(&missing, true), Err(HostError::MissingAotLibrary));
    let jit = project(DartRuntimeMode::Jit, RendererBackend::SkiaGles, 0);
    assert_eq!(runtime_preflight(&jit, false), Ok(None));
    assert_eq!(check_project_paths(&aot), Ok(()));
    let mut bad = aot.clone();
    bad.icu_data = "/bundle/icu\0dat".to_owned();
    assert_eq!(
        check_project_paths(&bad),
        Err(HostError::PathContainsNul { field: "ICU", path: "/bundle/icu\0dat".to_owned() })
    );
    bad.assets = "\0".to_owned();
    assert_eq!(
        check_project_paths(&bad),
        Err(HostError::PathContainsNul { field: "assets", path: "\0".to_owned() })
    );
}

#[test]
fn engine_results_map_to_errors() {
    assert_eq!(check_result("RunTask", 0), Ok(()));
    assert_eq!(
        check_result("RunTask", 2),
        Err(EngineError::Call { operation: "RunTask", result: 2 })
    );
}

#[test]
fn locale_codes_refuse_nul() {
    let locale = EngineLocale::new("en", Some("US"), None, Some("posix")).unwrap();
    assert_eq!(locale.language_code(), "en");
    assert_eq!(locale.country_code(), Some("US"));
    assert_eq!(locale.script_code(), None);
    assert_eq!(locale.variant_code(), Some("posix"));
    assert_eq!(
        EngineLocale::new("e\0n", None, None, None).unwrap_err(),
        EngineError::LocaleContainsNul("language code")
    );
    assert_eq!(
        EngineLocale::new("en", None, Some("La\0tn"), None).unwrap_err(),
        EngineError::LocaleContainsNul("script code")
    );
}

#[test]
fn payload_lengths_are_bounded() {
    assert_eq!(valid_platform_payload_length(false, MAX_PLATFORM_MESSAGE_BYTES), Some(()));
    assert_eq!(valid_platform_payload_length(false, MAX_PLATFORM_MESSAGE_BYTES + 1), None);
    assert_eq!(valid_platform_payload_length(true, 0), Some(()));
    assert_eq!(valid_platform_payload_length(true, 1), None);
}

#[test]
fn budget_counts_messages_and_bytes() {
    let mut budget = PlatformMessageBudget::new();
    let permit = budget.try_acquire(10).unwrap();
    assert_eq!(permit.bytes(), 10);
    assert_eq!(budget.in_flight_messages(), 1);
    assert_eq!(budget.in_flight_bytes(), 10);
    assert!(budget.try_acquire(MAX_IN_FLIGHT_PLATFORM_MESSAGE_BYTES).is_none());
    assert_eq!(budget.in_flight_messages(), 1);
    budget.release_permit(permit);
    assert_eq!(budget.in_flight_messages(), 0);
    assert_eq!(budget.in_flight_bytes(), 0);
    let mut permits = Vec::new();
    for _ in 0..MAX_IN_FLIGHT_PLATFORM_MESSAGES {
        permits.push(budget.try_acquire(0).unwrap());
    }
    assert!(budget.try_acquire(0).is_none());
}

#[test]
fn received_message_is_decoded_and_released() {
    let mut budget = PlatformMessageBudget::new();
    let mut message = budget
        .receive(Some(b"flutter/settings"), Some(b"{}"), 77)
        .unwrap();
    assert_eq!(message.channel, "flutter/settings");
    assert_eq!(message.data, b"{}".to_vec());
    assert_eq!(message.permit_size(), 18);
    assert_eq!(budget.in_flight_bytes(), 18);
    assert_eq!(message.take_response_handle(), 77);
    assert_eq!(message.take_response_handle(), 0);
    budget.release_message(message);
    assert_eq!(budget.in_flight_messages(), 0);
    assert_eq!(budget.in_flight_bytes(), 0);
    let reused = budget.receive(Some(b"a"), Some(b"b"), 1).unwrap();
    assert_eq!(reused.channel, "a");
    assert_eq!(reused.data, b"b".to_vec());
}

#[test]
fn undecodable_message_keeps_its_handle_but_no_content() {
    let mut budget = PlatformMessageBudget::new();
    let message = budget.receive(None, Some(b"payload"), 9).unwrap();
    assert!(message.channel.is_empty());
    assert!(message.data.is_empty());
    assert_eq!(message.permit_size(), 0);
    let mut other = message;
    assert_eq!(other.take_response_handle(), 9);
}

#[test]
fn lossy_channel_names_are_replaced() {
    let mut budget = PlatformMessageBudget::new();
    let message = budget.receive(Some(&[0x66, 0xff]), Some(b""), 1).unwrap();
    assert_eq!(message.channel, "f\u{fffd}");
}

#[test]
fn scratch_holds_exactly_the_last_records() {
    let mut scratch: RenderOutputFfiScratch<u32> = RenderOutputFfiScratch::with_capacity(4);
    assert!(scratch.records().is_empty());
    scratch.refill(&[1, 2, 3]);
    assert_eq!(scratch.records(), &[1, 2, 3]);
    scratch.refill(&[9]);
    assert_eq!(scratch.records(), &[9]);
}

#[test]
fn backing_stores_need_a_framebuffer() {
    let store = CompositorBackingStore { framebuffer: 3, format: 0x8058, user_data: 7 };
    assert_eq!(usable_backing_store(Some(store)), Some(store));
    assert_eq!(usable_backing_store(Some(CompositorBackingStore { framebuffer: 0, ..store })), None);
    assert_eq!(usable_backing_store(None), None);
}

#[test]
fn damage_arrays_are_validated() {
    assert_eq!(damage_rect_count(false, 1, false, true), None);
    assert_eq!(damage_rect_count(true, 0, true, false), Some(0));
    assert_eq!(damage_rect_count(true, 2, false, true), Some(2));
    assert_eq!(damage_rect_count(true, 2, true, true), None);
    assert_eq!(damage_rect_count(true, 2, false, false), None);
    assert_eq!(damage_rect_count(true, MAX_FLUTTER_DAMAGE_RECTS + 1, false, true), None);
}

#[test]
fn one_idle_marker_at_a_time() {
    let mut sentinel = RasterSentinel::new();
    assert_eq!(sentinel.request(0), SentinelStep::NoEngine);
    assert_eq!(sentinel.request(42), SentinelStep::Post);
    assert_eq!(sentinel.request(42), SentinelStep::AlreadyQueued);
    sentinel.settle();
    assert_eq!(sentinel.request(42), SentinelStep::Post);
}

#[test]
fn errors_read_as_messages() {
    assert_eq!(
        EngineError::Call { operation: "RunTask", result: 3 }.message(),
        "Flutter RunTask failed with result 3"
    );
    assert_eq!(
        EngineError::LocaleContainsNul("country code").message(),
        "Flutter locale country code contains a NUL byte"
    );
    assert_eq!(EngineError::PathContainsNul("/x".to_owned()).message(), "path contains a NUL byte: /x");
    assert_eq!(EngineError::NullHandle("Run").message(), "Flutter Run returned a null handle");
    assert_eq!(
        EngineError::RenderThreadShutdown.message(),
        "Flutter render-thread shutdown cleanup failed"
    );
    assert_eq!(
        HostError::RuntimeModeMismatch { project: DartRuntimeMode::AotProfile, engine_runs_aot: false }.message(),
        "Flutter project requests AotProfile, but the engine reports JIT"
    );
    assert_eq!(
        HostError::PathContainsNul { field: "ICU", path: "/a".to_owned() }.message(),
        "Flutter ICU path contains a NUL: /a"
    );
    assert_eq!(HostError::MissingAotLibrary.message(), "AOT Flutter project has no application library");
    assert_eq!(HostError::Engine(EngineError::RenderThreadShutdown).message(), "Flutter render-thread shutdown cleanup failed");
    assert_eq!(vsync_after_window(10, 5), (10, 15));
    assert_eq!(vsync_after_window(10, u128::MAX), (10, u64::MAX));
}

#[test]
fn engine_log_lines() {
    assert_eq!(log_tag_text(None), "");
    assert_eq!(log_tag_text(Some(b"io")), "io");
    assert_eq!(log_message_text(None), "");
    assert_eq!(log_message_text(Some(None)), "<oversized Flutter log message>");
    assert_eq!(log_message_text(Some(Some(&[0x68, 0x69, 0xff]))), "hi\u{fffd}");
    assert_eq!(log_line("", "ready"), "flutter: ready");
    assert_eq!(log_line("io", "ready"), "flutter[io]: ready");
}

#[test]
fn present_frames_carry_their_damage() {
    let rects = [(0u32, 0u32, 4u32, 4u32)];
    let frame = PresentFrame { framebuffer: 9, frame_damage: &rects, buffer_damage: &[] };
    assert_eq!(frame.framebuffer, 9);
    assert_eq!(frame.frame_damage.len(), 1);
    assert!(frame.buffer_damage.is_empty());
}

#[test]
fn failed_shutdown_leaks_its_owner() {
    let owner = Rc::new(());
    assert_eq!(release_or_leak(Rc::clone(&owner), Ok::<(), &str>(())), Ok(()));
    assert_eq!(Rc::strong_count(&owner), 1);
    assert_eq!(release_or_leak(Rc::clone(&owner), Err::<(), &str>("busy")), Err("busy"));
    assert_eq!(Rc::strong_count(&owner), 2);
}

#[test]
fn cleared_buffers_are_pooled_within_the_caps() {
    let mut budget = PlatformMessageBudget::new();
    budget.pool_cleared_buffers(String::new(), Vec::new(), 100);
    let (channel, payload) = budget.acquire_storage();
    assert!(channel.is_empty() && payload.is_empty());
    budget.pool_cleared_buffers(String::new(), Vec::new(), MAX_IN_FLIGHT_PLATFORM_MESSAGE_BYTES + 1);
    budget.release_storage(String::from("x"), vec![1, 2, 3]);
    assert_eq!(budget.in_flight_messages(), 0);
}

#[test]
fn first_missing_proc_is_reported() {
    assert_eq!(first_missing_proc(&[true; 19]), None);
    let mut present = [true; 19];
    present[4] = false;
    present[11] = false;
    assert_eq!(first_missing_proc(&present), Some(4));
    assert_eq!(first_missing_proc(&[]), None);
}
