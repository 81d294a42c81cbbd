use motionlens_core::assess::check_assess_frames;
use motionlens_core::error::Error;
use motionlens_core::gate::check_sample_plan;
use motionlens_core::sources::audit_motion_detected;

fn msg(r: Result<(), Error>) -> String {
    match r {
        Err(Error::InvalidArgument(m)) => m,
        _ => panic!("expected an invalid-argument error"),
    }
}

#[test]
fn assess_input_checks_in_order() {
    let one = vec!["ep-1".to_string()];
    assert_eq!(msg(check_assess_frames(&one, true)), "motion.assess needs at least two frame_ids");
    let mixed = vec!["ep-1".to_string(), "ep-2".to_string()];
    assert_eq!(msg(check_assess_frames(&mixed, true)), "motion.assess: all frames must belong to the same episode");
    let same = vec!["ep-1".to_string(), "ep-1".to_string()];
    assert_eq!(msg(check_assess_frames(&same, true)), "motion.assess: frame_ids must be in ascending t_ms order");
    assert!(check_assess_frames(&same, false).is_ok());
}

#[test]
fn sample_plan_needs_two_times() {
    assert_eq!(msg(check_sample_plan(1)), "sample_plan.target_times_ms must contain at least 2 entries");
    assert!(check_sample_plan(2).is_ok());
}

#[test]
fn audit_detects_any_source() {
    assert!(!audit_motion_detected(0, 0, false, 0));
    assert!(audit_motion_detected(0, 0, true, 0));
    assert!(audit_motion_detected(0, 0, false, 2));
}
