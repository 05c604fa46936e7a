use std::collections::BTreeMap;

use denial::dpms::requests::{collect_output_power_requests, effective_power, gesture_wakes, plan_power_requests};
use denial::dpms::{DeferredDpmsTopology, DpmsTopologyGuard, DPMS_WAKE_TOPOLOGY_GRACE_NANOS};

const NOW: u64 = 10_000_000_000;

#[test]
fn parked_output_that_vanishes_is_deferred_once() {
    let mut guard = DpmsTopologyGuard::new();
    guard.note_powered_off(1);
    let first = guard.defer_missing_outputs(NOW, &[1, 2], &[2]);
    assert_eq!(
        first,
        Some(DeferredDpmsTopology {
            missing_outputs: 1,
            grace_until: None,
            first_observation: true
        })
    );
    let second = guard.defer_missing_outputs(NOW, &[1, 2], &[2]);
    assert_eq!(second.map(|d| d.first_observation), Some(false));
    assert_eq!(guard.defer_missing_outputs(NOW, &[1, 2], &[1, 2]), None);
    assert!(!guard.deferred_removal);
}

#[test]
fn unknown_or_stray_outputs_cancel_the_guard() {
    let mut guard = DpmsTopologyGuard::new();
    guard.note_powered_off(1);
    assert_eq!(guard.defer_missing_outputs(NOW, &[1, 3], &[]), None);
    assert!(guard.parked_outputs.is_empty());
    guard.note_powered_off(1);
    assert_eq!(guard.defer_missing_outputs(NOW, &[1], &[7]), None);
    assert!(guard.parked_outputs.is_empty());
}

#[test]
fn waking_output_carries_the_grace_deadline_until_it_expires() {
    let mut guard = DpmsTopologyGuard::new();
    guard.note_powered_off(4);
    guard.note_wake(4, NOW);
    let deadline = NOW + DPMS_WAKE_TOPOLOGY_GRACE_NANOS;
    let deferred = guard.defer_missing_outputs(NOW + 1, &[4, 4], &[]).unwrap();
    assert_eq!(deferred.missing_outputs, 1);
    assert_eq!(deferred.grace_until, Some(deadline));
    assert_eq!(guard.limit_dispatch_timeout(NOW, u64::MAX), deadline - NOW);
    assert_eq!(guard.limit_dispatch_timeout(NOW, 7), 7);
    assert!(!guard.service_deadline(deadline - 1));
    assert!(guard.service_deadline(deadline));
    assert!(guard.waking_outputs.is_empty());
    assert_eq!(guard.limit_dispatch_timeout(NOW, 9), 9);
    assert!(!guard.service_deadline(deadline + 1));
}

#[test]
fn powering_off_the_last_waking_output_ends_the_grace_period() {
    let mut guard = DpmsTopologyGuard::new();
    guard.note_wake(2, NOW);
    guard.note_powered_off(2);
    assert_eq!(guard.wake_grace_until, None);
    assert!(guard.parked_outputs.contains(&2));
    guard.cancel();
    assert!(guard.parked_outputs.is_empty());
}

#[test]
fn later_power_requests_replace_earlier_ones() {
    let mut queued = BTreeMap::new();
    collect_output_power_requests(&mut queued, &[(1, false), (2, true), (1, true)]);
    assert_eq!(queued.get(&1), Some(&true));
    assert_eq!(queued.get(&2), Some(&true));
    assert!(effective_power(&queued, 1, false));
    assert!(!effective_power(&queued, 3, false));
    assert!(effective_power(&queued, 3, true));
    assert!(gesture_wakes(false, false));
    assert!(gesture_wakes(true, true));
    assert!(!gesture_wakes(true, false));
}

#[test]
fn power_batches_split_by_current_state() {
    let outputs = [(10u32, true), (11u32, false), (12u32, true)];
    let plan = plan_power_requests(&[(10, false), (11, true), (12, true), (99, false)], &outputs);
    assert_eq!(plan.missing, vec![99]);
    assert_eq!(plan.settled, vec![(12, true)]);
    assert_eq!(plan.power_on, vec![(11, 1)]);
    assert_eq!(plan.power_off, vec![(10, 0)]);
}
