use denial::runtime::encode_key_event;
use denial::engine::{DartRuntimeMode, RendererBackend, ScheduledTask};
use denial::event_loop::{
    interactive_service_work_pending, take_periodic_deadline, OperationCadence,
    BACKGROUND_MAINTENANCE_INTERVAL_NANOS, BACKGROUND_SERVICE_INTERVAL_NANOS,
};
use denial::runtime::leases::{WindowCloseTextureLeases, WindowTextures, window_texture_map};
use denial::runtime::locale::{locale_environment_variables, locale_from_environment, parse_posix_locale};
use denial::runtime::{
    decode_cursor_presented, decode_window_close_complete, engine_fingerprint, project_from_bundle,
    timeline_vsync_timestamps, BundleError, BundleLayout, PlatformTaskQueue,
    FLUTTER_RESOURCE_CACHE_MAX_BYTES_THRESHOLD, PLATFORM_TASK_MAX_DISPATCH_TIMEOUT_NANOS,
};

fn task(id: u64, at: u64) -> ScheduledTask {
    ScheduledTask { runner: 1, task: id, target_time_nanos: at }
}

#[test]
fn tasks_run_by_deadline_then_arrival() {
    let mut queue: PlatformTaskQueue<()> = PlatformTaskQueue::new();
    queue.push(task(1, 300), ());
    queue.push(task(2, 100), ());
    queue.push(task(3, 100), ());
    assert_eq!(queue.dispatch_timeout(40), 60);
    assert!(queue.take_next_due(99).is_none());
    assert_eq!(queue.take_next_due(100).unwrap().task.task, 2);
    assert_eq!(queue.take_next_due(100).unwrap().task.task, 3);
    assert!(queue.take_next_due(100).is_none());
    assert_eq!(queue.dispatch_timeout(0), 300);
    assert_eq!(queue.dispatch_timeout(500), 0);
    let late = queue.take_next_due(500).unwrap();
    assert_eq!(late.task.task, 1);
    assert_eq!(late.order, 0);
    assert_eq!(queue.len(), 0);
    assert_eq!(queue.dispatch_timeout(0), PLATFORM_TASK_MAX_DISPATCH_TIMEOUT_NANOS);
}

#[test]
fn vsync_timestamps_saturate() {
    assert_eq!(timeline_vsync_timestamps(1_000, 200, 16), (800, 816));
    assert_eq!(timeline_vsync_timestamps(100, 200, 16), (0, 16));
    assert_eq!(timeline_vsync_timestamps(10, 0, u128::MAX), (10, u64::MAX));
}

#[test]
fn identifiers_are_positive_little_endian() {
    assert_eq!(decode_window_close_complete(&7u64.to_le_bytes()), Some(7));
    assert_eq!(decode_window_close_complete(&0u64.to_le_bytes()), None);
    assert_eq!(decode_window_close_complete(&[1, 0, 0]), None);
    assert_eq!(decode_cursor_presented(&0x0102_0304_0506_0708u64.to_le_bytes()), Some(0x0102_0304_0506_0708));
}

fn layout() -> BundleLayout {
    BundleLayout {
        engine_library: Some("/b/lib/libflutter_engine.so".to_owned()),
        app_library: Some("/b/lib/libapp.so".to_owned()),
        kernel_blob: "/b/data/flutter_assets/kernel_blob.bin".to_owned(),
        kernel_blob_present: false,
        assets: "/b/data/flutter_assets".to_owned(),
        assets_present: true,
        icu_data: "/b/data/icudtl.dat".to_owned(),
        icu_data_present: true,
    }
}

#[test]
fn bundle_layout_gives_project_or_first_missing_file() {
    let project = project_from_bundle(layout(), DartRuntimeMode::Aot, RendererBackend::ImpellerGles).unwrap();
    assert_eq!(project.aot_library.as_deref(), Some("/b/lib/libapp.so"));
    assert_eq!(project.resource_cache_max_bytes_threshold, FLUTTER_RESOURCE_CACHE_MAX_BYTES_THRESHOLD);
    assert_eq!(
        project_from_bundle(layout(), DartRuntimeMode::Jit, RendererBackend::SkiaGles).unwrap_err(),
        BundleError::MissingKernel("/b/data/flutter_assets/kernel_blob.bin".to_owned())
    );
    let mut jit = layout();
    jit.kernel_blob_present = true;
    jit.app_library = None;
    assert!(project_from_bundle(jit, DartRuntimeMode::Jit, RendererBackend::SkiaGles).unwrap().aot_library.is_none());
    let mut no_engine = layout();
    no_engine.engine_library = None;
    no_engine.assets_present = false;
    assert_eq!(
        project_from_bundle(no_engine, DartRuntimeMode::Aot, RendererBackend::SkiaGles).unwrap_err(),
        BundleError::MissingEngineLibrary
    );
    let mut no_icu = layout();
    no_icu.icu_data_present = false;
    assert_eq!(
        project_from_bundle(no_icu, DartRuntimeMode::AotProfile, RendererBackend::SkiaGles).unwrap_err(),
        BundleError::MissingIcuData("/b/data/icudtl.dat".to_owned())
    );
}

#[test]
fn fingerprint_is_sha256() {
    let digest = engine_fingerprint(b"abc");
    assert_eq!(
        digest,
        [
            0xba, 0x78, 0x16, 0xbf, 0x8f, 0x01, 0xcf, 0xea, 0x41, 0x41, 0x40, 0xde, 0x5d, 0xae,
            0x22, 0x23, 0xb0, 0x03, 0x61, 0xa3, 0x96, 0x17, 0x7a, 0x9c, 0xb4, 0x10, 0xff, 0x61,
            0xf2, 0x00, 0x15, 0xad
        ]
    );
}

#[test]
fn posix_locales_become_engine_locales() {
    let l = parse_posix_locale(" en_US.UTF-8@euro ").unwrap();
    assert_eq!(l.language_code(), "en");
    assert_eq!(l.country_code(), Some("US"));
    assert_eq!(l.script_code(), None);
    assert_eq!(l.variant_code(), None);
    let zh = parse_posix_locale("zh_TW").unwrap();
    assert_eq!(zh.script_code(), Some("Hant"));
    let sr = parse_posix_locale("sr-latn-RS").unwrap();
    assert_eq!(sr.script_code(), Some("Latn"));
    assert_eq!(sr.country_code(), Some("RS"));
    let es = parse_posix_locale("es_419_valencia_x").unwrap();
    assert_eq!(es.country_code(), Some("419"));
    assert_eq!(es.variant_code(), Some("valencia_x"));
    assert!(parse_posix_locale("C").is_none());
    assert!(parse_posix_locale("posix").is_none());
    assert!(parse_posix_locale("C.UTF-8").is_none());
    assert!(parse_posix_locale("").is_none());
    assert!(parse_posix_locale("e1_US").is_none());
    assert!(parse_posix_locale("english").is_none());
}

#[test]
fn environment_locale_takes_first_usable_value() {
    assert_eq!(locale_environment_variables(), vec!["LC_ALL", "LC_MESSAGES", "LANG"]);
    let l = locale_from_environment(&[None, Some("C".to_owned()), Some("de_DE.UTF-8".to_owned())]).unwrap();
    assert_eq!(l.language_code(), "de");
    assert!(locale_from_environment(&[None, None, None]).is_none());
}

#[test]
fn closing_windows_keep_textures_until_completed() {
    let mut leases = WindowCloseTextureLeases::new();
    let first = vec![(1u64, vec![10i64, 11]), (2u64, vec![11i64])];
    assert!(leases.publish_fits(&first));
    let retired = leases.publish(first, 1_000);
    assert_eq!(retired.lease_count, 0);
    assert!(leases.is_empty());
    let retired = leases.publish(vec![(2u64, vec![11i64])], 2_000);
    assert_eq!(retired.lease_count, 0);
    assert!(!leases.is_empty());
    assert!(leases.retains_texture(10));
    assert!(leases.retains_texture(11));
    let done = leases.complete(1);
    assert_eq!(done.lease_count, 1);
    assert_eq!(done.texture_ids, vec![10, 11]);
    assert!(!leases.retains_texture(10));
    assert!(!leases.retains_texture(11));
    assert_eq!(leases.complete(1).lease_count, 0);
}

#[test]
fn leases_expire_after_the_timeout() {
    let mut leases = WindowCloseTextureLeases::new();
    leases.publish(vec![(5u64, vec![50i64])], 0);
    leases.publish(vec![], 100);
    assert!(leases.expire(4_999_999_999).lease_count == 0);
    let expired = leases.expire(5_000_000_100);
    assert_eq!(expired.lease_count, 1);
    assert_eq!(expired.texture_ids, vec![50]);
    assert!(leases.is_empty());
}

#[test]
fn window_texture_map_prefers_surfaces_and_positive_ids() {
    let windows = vec![
        WindowTextures { window_id: 1, texture_id: 7, surface_texture_ids: vec![] },
        WindowTextures { window_id: 2, texture_id: 7, surface_texture_ids: vec![0, 3, u64::MAX, 4] },
        WindowTextures { window_id: 3, texture_id: 0, surface_texture_ids: vec![] },
        WindowTextures { window_id: 1, texture_id: 9, surface_texture_ids: vec![] },
    ];
    let map = window_texture_map(&windows);
    assert_eq!(map, vec![(1, vec![9]), (2, vec![3, 4]), (3, vec![])]);
}

#[test]
fn cadence_runs_each_kind_once_per_interval() {
    let mut cadence = OperationCadence::new(1_000);
    assert!(cadence.take_service_due(1_000));
    assert!(!cadence.take_service_due(1_001));
    assert_eq!(cadence.next_service, 1_000 + BACKGROUND_SERVICE_INTERVAL_NANOS);
    assert!(cadence.take_maintenance_due(5_000));
    assert_eq!(cadence.next_maintenance, 5_000 + BACKGROUND_MAINTENANCE_INTERVAL_NANOS);
    assert_eq!(cadence.limit_dispatch_timeout(1_000, u64::MAX), BACKGROUND_SERVICE_INTERVAL_NANOS);
    assert_eq!(cadence.limit_dispatch_timeout(1_000, 5), 5);
    let mut deadline = 10;
    assert!(take_periodic_deadline(u64::MAX, &mut deadline, 5));
    assert_eq!(deadline, u64::MAX);
    assert!(interactive_service_work_pending(0, 1, 0));
    assert!(!interactive_service_work_pending(0, 0, 0));
}

#[test]
fn key_events_are_glfw_json() {
    let mut out = b"stale".to_vec();
    encode_key_event(65, true, 2, 0, &mut out);
    assert_eq!(
        String::from_utf8(out.clone()).unwrap(),
        r#"{"keyCode":65,"keymap":"linux","toolkit":"glfw","scanCode":65,"modifiers":2,"type":"keydown"}"#
    );
    encode_key_event(-1, false, 0, 97, &mut out);
    assert_eq!(
        String::from_utf8(out).unwrap(),
        r#"{"keyCode":-1,"keymap":"linux","toolkit":"glfw","scanCode":-1,"modifiers":0,"type":"keyup","unicodeScalarValues":97}"#
    );
}
