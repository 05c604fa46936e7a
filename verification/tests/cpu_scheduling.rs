use denial::cpu_scheduling::{choose_registration_slot, flutter_realtime_role, helper_demotion, HelperDemotion};
use denial::cpu_scheduling::{
    background_name, background_role, decimal_suffix, flag_value_enabled, high_priority_nice,
    is_realtime_policy, is_registered_priority_thread, normal_policy_preserving_reset,
    parse_minimum, parse_u32, registered_priority_role, safe_realtime_limit,
    worker_is_background, PriorityRole, PromotionSource, RealtimeLimit,
};

#[test]
fn rejects_invalid_capacity_configuration() {
    for invalid in ["", "-1", "1025", "512.0", "max", "4294967296"] {
        assert_eq!(parse_minimum(invalid), None);
    }
    assert_eq!(parse_minimum(" 512 "), Some(512));
    assert_eq!(parse_minimum("0"), Some(0));
    assert_eq!(parse_minimum("1024"), Some(1024));
}

#[test]
fn mixed_and_unknown_workers_retain_big_default() {
    for name in [
        "deniald:zcfq0",
        "deniald:zfq0",
        "deniald:gdrv0",
        "deniald:gl0",
        "io.flutter.io",
        "io.worker.1",
        "DartWorker",
        "blocking-1",
        "deniald",
        "denial-screenco",
    ] {
        assert!(!background_name(name), "{name}");
    }
    for name in [
        "deniald:zcq0",
        "denial-priority",
        "denial-screensh",
        "Shm dropping th",
        "denial-control-",
    ] {
        assert!(background_name(name), "{name}");
    }
}

fn chars(s: &str) -> Vec<char> {
    s.chars().collect()
}

#[test]
fn decimal_parsing_follows_the_standard_library() {
    for text in ["0", "+7", "007", "4294967295", "-1", "+", "", "1 2", "4294967296", "x"] {
        assert_eq!(parse_u32(&chars(text)), text.parse::<u32>().ok(), "{text}");
    }
}

#[test]
fn numbered_compositor_queue_workers_are_background() {
    assert!(background_name("deniald:zcq12"));
    assert!(!background_name("deniald:zcq"));
    assert!(!background_name("deniald:zcq1a"));
    assert!(decimal_suffix("0123"));
    assert!(!decimal_suffix(""));
    assert!(!decimal_suffix("١"));
}

#[test]
fn batch_idle_and_lowest_nice_workers_are_background() {
    assert!(worker_is_background("io.worker.1", Some(3), None));
    assert!(worker_is_background("io.worker.1", Some(5), Some(0)));
    assert!(worker_is_background("io.worker.1", None, Some(19)));
    assert!(!worker_is_background("io.worker.1", Some(0), Some(18)));
    assert!(worker_is_background("denial-audio", None, None));
}

#[test]
fn realtime_policies_ignore_the_reset_flag() {
    assert!(is_realtime_policy(1));
    assert!(is_realtime_policy(2 | 0x4000_0000));
    assert!(!is_realtime_policy(0 | 0x4000_0000));
    assert!(!is_realtime_policy(3));
    assert_eq!(normal_policy_preserving_reset(2 | 0x4000_0000), 0x4000_0000);
    assert_eq!(normal_policy_preserving_reset(1), 0);
}

#[test]
fn realtime_is_armed_only_under_an_unlimited_hard_limit() {
    assert_eq!(safe_realtime_limit(500_000, 1_000_000), None);
    assert_eq!(safe_realtime_limit(0, u64::MAX), None);
    assert_eq!(
        safe_realtime_limit(500_000, u64::MAX),
        Some(RealtimeLimit { soft: 200_000, hard: u64::MAX })
    );
    assert_eq!(
        safe_realtime_limit(50_000, u64::MAX),
        Some(RealtimeLimit { soft: 50_000, hard: u64::MAX })
    );
}

#[test]
fn roles_round_trip_through_their_codes() {
    for role in [
        PriorityRole::Compositor,
        PriorityRole::FlutterDisplay,
        PriorityRole::FlutterRaster,
        PriorityRole::Volition,
    ] {
        assert_eq!(PriorityRole::from_code(role.code()), role);
    }
    assert_eq!(PriorityRole::from_code(9), PriorityRole::Unknown);
    assert_eq!(PriorityRole::FlutterRaster.label(), "flutter-raster");
    assert!(PriorityRole::Compositor.requests_capacity());
    assert!(!PriorityRole::Volition.requests_capacity());
    assert_eq!(PromotionSource::RtKitHighPriority.label(), "rtkit");
    assert_eq!(PromotionSource::DirectRealtime.policy(), "SCHED_RR");
    assert_eq!(PromotionSource::DirectHighPriority.policy(), "SCHED_OTHER");
}

#[test]
fn registration_slots_identify_priority_threads() {
    let slots = [0, 41, 42, 0];
    let roles = [0, 1, 3, 0];
    assert!(is_registered_priority_thread(&slots, 42));
    assert!(!is_registered_priority_thread(&slots, 7));
    assert_eq!(registered_priority_role(&slots, &roles, 42), PriorityRole::FlutterRaster);
    assert_eq!(registered_priority_role(&slots, &roles, 7), PriorityRole::Unknown);
}

#[test]
fn rtkit_minimum_bounds_the_high_priority_nice_level() {
    assert_eq!(high_priority_nice(-20), -10);
    assert_eq!(high_priority_nice(-5), -5);
    assert_eq!(high_priority_nice(0), 0);
}

#[test]
fn switches_and_worker_roles() {
    for on in ["1", " TRUE ", "yes", "On"] {
        assert!(flag_value_enabled(on), "{on}");
    }
    for off in ["0", "no", "", "enable"] {
        assert!(!flag_value_enabled(off), "{off}");
    }
    assert!(background_role("clipboard-dnd"));
    assert!(!background_role("flutter-io"));
}

#[test]
fn engine_thread_priorities_map_to_roles() {
    assert_eq!(flutter_realtime_role(2), Some(PriorityRole::FlutterDisplay));
    assert_eq!(flutter_realtime_role(3), Some(PriorityRole::FlutterRaster));
    assert_eq!(flutter_realtime_role(0), None);
    assert_eq!(flutter_realtime_role(1), None);
    assert_eq!(flutter_realtime_role(9), None);
}

#[test]
fn registration_reuses_own_slot_or_takes_first_free() {
    assert_eq!(choose_registration_slot(&[5, 0, 7], 7), Some(1));
    assert_eq!(choose_registration_slot(&[5, 7, 0], 7), Some(1));
    assert_eq!(choose_registration_slot(&[5, 6], 7), None);
}

#[test]
fn unregistered_helpers_lose_inherited_priority() {
    let rr_reset = libc::SCHED_RR | libc::SCHED_RESET_ON_FORK;
    assert_eq!(helper_demotion(true, Some(rr_reset), Some(-5)), None);
    assert_eq!(helper_demotion(false, Some(libc::SCHED_OTHER), Some(0)), None);
    assert_eq!(
        helper_demotion(false, Some(rr_reset), Some(0)),
        Some(HelperDemotion { scheduler_policy: Some(libc::SCHED_OTHER | libc::SCHED_RESET_ON_FORK), reset_nice: false })
    );
    assert_eq!(
        helper_demotion(false, None, Some(-10)),
        Some(HelperDemotion { scheduler_policy: None, reset_nice: true })
    );
}
