use denial::presentation::{admit_session, check_presented_image, ImageRefusal, PresentedBuffer, SessionRefusal};
use denial::presentation::{normalize_presentation_pixels, Controller, FingerprintProfile};
use denial::presentation::{Phase, Session, StopReason};

const MILLI: u64 = 1_000_000;
const SECOND: u64 = 1_000_000_000;
const NOW: u64 = 7 * SECOND;

#[test]
fn acquisition_waits_for_matching_physical_frame_and_settling() {
    let now = NOW;
    let mut session = Session::default();
    let epoch = session.begin(1, now, 5 * SECOND, true).unwrap();
    assert!(!session.illumination_enabled(now, 0));
    session.presented(epoch + 1);
    assert!(!session.illumination_enabled(now, 0));
    session.presented(epoch);
    assert!(session.illumination_enabled(now, 100 * MILLI));
    assert_eq!(session.ready(now + 99 * MILLI), None);
    assert_eq!(session.ready(now + 100 * MILLI), Some(1));
    assert_eq!(session.ready(now + 101 * MILLI), None);
}

#[test]
fn release_before_scanout_revokes_queued_image_and_keeps_black_until_off() {
    let now = NOW;
    let mut session = Session::default();
    let epoch = session.begin(1, now, 5 * SECOND, true).unwrap();
    session.withdraw(1).unwrap();
    assert_ne!(session.epoch(), epoch);
    session.presented(epoch);
    assert_eq!(session.ready(now), None);
    assert_eq!(session.finish(false, true), None);
    assert_eq!(session.finish(true, false), None);
    assert_eq!(session.finish(true, true), Some((1, StopReason::Released)));
    assert_eq!(session.epoch(), 0);
}

#[test]
fn stale_release_cannot_cancel_a_new_contact_and_serials_cannot_repeat() {
    let now = NOW;
    let mut session = Session::default();
    session.begin(3, now, 5 * SECOND, false).unwrap();
    session.withdraw(3).unwrap();
    session.finish(true, false).unwrap();
    assert!(session.begin(3, now, 5 * SECOND, false).is_err());
    session.begin(4, now, 5 * SECOND, false).unwrap();
    session.withdraw(3).unwrap();
    assert_eq!(session.contact.as_ref().unwrap().phase, Phase::Preparing);
    assert!(session.withdraw(5).is_err());
}

#[test]
fn timeout_wins_over_simultaneous_ready_and_independent_wake_is_preserved() {
    let now = NOW;
    let mut session = Session::default();
    let epoch = session.begin(1, now, SECOND, true).unwrap();
    session.presented(epoch);
    session.illumination_enabled(now, SECOND);
    assert_eq!(session.ready(now + SECOND), None);
    session.independent_wake();
    assert_eq!(session.finish(true, false), Some((1, StopReason::Timeout)));
}

#[test]
fn presentation_longer_than_thirty_seconds_is_refused() {
    let mut session = Session::new();
    assert!(session.begin(1, NOW, 31 * SECOND, false).is_err());
    assert!(session.begin(1, NOW, 30 * SECOND, false).is_ok());
}

#[test]
fn a_second_contact_is_refused_while_one_is_active() {
    let mut session = Session::new();
    session.begin(1, NOW, SECOND, false).unwrap();
    assert!(session.begin(2, NOW, SECOND, false).is_err());
    assert!(session.new_client().is_err());
}

#[test]
fn presentation_copy_preserves_color_alpha_and_normalizes_orientation() {
    let original = vec![1, 2, 3, 4, 5, 6, 7, 8];
    let mut pixels = original.clone();
    normalize_presentation_pixels(&mut pixels, 1, 2, false, false).unwrap();
    assert_eq!(pixels, original);
    normalize_presentation_pixels(&mut pixels, 1, 2, true, true).unwrap();
    assert_eq!(pixels, [5, 6, 7, 255, 1, 2, 3, 255]);
    assert!(normalize_presentation_pixels(&mut pixels, 2, 2, false, false).is_err());
    assert!(normalize_presentation_pixels(&mut pixels, usize::MAX, 1, false, false).is_err());
}

#[test]
fn trusted_unlock_retains_visual_but_independent_wake_clears_it() {
    let now = 1_000_000_000u64;
    let mut controller = Controller::default();
    controller.visual_until = Some(now + 400_000_000);
    controller.ambient_until = Some(now + 3_000_000_000);
    controller.unlocked(now);
    assert!(controller.reveal_home);
    assert!(controller.visual_until.is_some());
    assert!(controller.ambient_until.is_none());
    controller.independent_wake();
    assert!(!controller.reveal_home);
    assert!(controller.visual_until.is_none());
}

#[test]
fn awake_unlock_fades_target_without_replacing_normal_home_motion() {
    let now = 1_000_000_000u64;
    let mut controller = Controller::default();
    controller.visual_until = Some(now + 400_000_000);
    controller.unlocked(now);
    assert!(controller.fade_target);
    assert!(!controller.reveal_home);
    assert!(controller.visual_until.is_some());
}

#[test]
fn fingerprint_profiles_are_validated() {
    let profile = FingerprintProfile {
        sensor: "test".to_owned(),
        output: "DSI-1".to_owned(),
        panel_name: "test".to_owned(),
        panel_width: 1220,
        panel_height: 2712,
        x: 508,
        y: 2338,
        width: 204,
        height: 204,
        max_duration_ms: 10000,
        settle_ms: 100,
        illumination_property: "HBM".to_owned(),
        illumination_on: 2,
        illumination_off: 0,
    };
    assert!(profile.validate().is_ok());
    let mut outside = profile.clone();
    outside.y = 2600;
    assert_eq!(outside.validate(), Err("invalid fingerprint profile geometry or illumination policy"));
    let mut same = profile.clone();
    same.illumination_on = 0;
    assert!(same.validate().is_err());
    let mut slow = profile.clone();
    slow.settle_ms = 10000;
    assert!(slow.validate().is_err());
    let mut negative = profile;
    negative.x = -1;
    assert!(negative.validate().is_err());
}

fn sensor_profile() -> FingerprintProfile {
    FingerprintProfile {
        sensor: "goodix".to_owned(),
        output: "DSI-1".to_owned(),
        panel_name: "panel".to_owned(),
        panel_width: 1080,
        panel_height: 2400,
        x: 440,
        y: 2000,
        width: 200,
        height: 200,
        max_duration_ms: 5000,
        settle_ms: 50,
        illumination_property: "HBM".to_owned(),
        illumination_on: 1,
        illumination_off: 0,
    }
}

#[test]
fn sessions_open_only_for_authorised_idle_clients() {
    let profile = sensor_profile();
    assert_eq!(admit_session(false, "goodix", &profile, false, false), Err(SessionRefusal::Unauthorized));
    assert_eq!(admit_session(true, "other", &profile, false, false), Err(SessionRefusal::InvalidSensor));
    assert_eq!(admit_session(true, "goodix", &profile, true, false), Err(SessionRefusal::Busy));
    assert_eq!(admit_session(true, "goodix", &profile, false, true), Err(SessionRefusal::Busy));
    assert_eq!(admit_session(true, "goodix", &profile, false, false), Ok(()));
}

#[test]
fn presented_images_cover_the_sensor() {
    let profile = sensor_profile();
    let buffer = PresentedBuffer { is_dmabuf: true, width: 200, height: 200, rgb_8888: true };
    assert_eq!(check_presented_image(&profile, 440, 2000, 200, 200, buffer), Ok(()));
    assert_eq!(check_presented_image(&profile, 441, 2000, 200, 200, buffer), Err(ImageRefusal::InvalidGeometry));
    assert_eq!(
        check_presented_image(&profile, 440, 2000, 200, 200, PresentedBuffer { is_dmabuf: false, ..buffer }),
        Err(ImageRefusal::NotDmabuf)
    );
    assert_eq!(
        check_presented_image(&profile, 440, 2000, 200, 200, PresentedBuffer { rgb_8888: false, ..buffer }),
        Err(ImageRefusal::UnsupportedBuffer)
    );
}

#[test]
fn authenticated_wake_extends_only_a_showing_ambient_scene() {
    let now = 5_000_000_000u64;
    let mut controller = Controller::default();
    controller.authenticated_wake(now);
    assert!(controller.ambient_until.is_none());
    controller.ambient_until = Some(now);
    controller.authenticated_wake(now);
    assert_eq!(controller.ambient_until, Some(now + 3_000_000_000));
    assert!(controller.active());
}
