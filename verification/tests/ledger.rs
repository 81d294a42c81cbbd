use motionlens_core::error::Error;
use motionlens_core::ids::{EpisodeId, FrameId, SessionId, TriggerEventId};
use motionlens_core::ledger::{EpisodeRegistry, FrameRecord};
use motionlens_core::model::{InputMode, WaitOutcome, WaitPolicy};

type Registry = EpisodeRegistry<String, String, u32, u32, u32>;

fn registry() -> Registry {
    EpisodeRegistry::new(SessionId::from_string("ses-1".to_string()))
}

#[test]
fn started_episode_reads_back_with_start_state_only() {
    let mut r = registry();
    assert!(r.active_episode().is_none());
    let ep = r.start_episode("start".to_string());
    assert!(ep.as_str().starts_with("ep-"));
    assert!(r.active_episode().unwrap().same(&ep));
    let l = r.evidence(&ep).unwrap();
    assert_eq!(l.start_state.as_deref(), Some("start"));
    assert!(l.intent.is_none() && l.triggers.is_empty() && l.frames.is_empty() && l.observations.is_empty());
    assert!(r.require_episode(&ep).is_ok());
    assert!(r.require_active().unwrap().same(&ep));
}

#[test]
fn intent_needs_an_active_episode() {
    let mut r = registry();
    match r.set_intent("fade in".to_string()) {
        Err(Error::NoActiveEpisode(s)) => assert_eq!(s, "ses-1"),
        other => panic!("unexpected {:?}", other),
    }
    let ep = r.start_episode("s".to_string());
    r.set_intent("fade in".to_string()).unwrap();
    assert_eq!(r.evidence(&ep).unwrap().intent.as_deref(), Some("fade in"));
}

#[test]
fn unknown_episode_is_reported() {
    let mut r = registry();
    let ghost = EpisodeId::from_string("ep-missing".to_string());
    match r.evidence(&ghost) {
        Err(Error::EpisodeNotFound(s)) => assert_eq!(s, "ep-missing"),
        _ => panic!("expected EpisodeNotFound"),
    }
    match r.append_observation(&ghost, "c".into(), vec![], 0) {
        Err(Error::EpisodeNotFound(s)) => assert_eq!(s, "ep-missing"),
        _ => panic!("expected EpisodeNotFound"),
    }
    assert!(r.require_episode(&ghost).is_err());
}

#[test]
fn observations_append_in_order() {
    let mut r = registry();
    let ep = r.start_episode("s".to_string());
    let o1 = r.append_observation(&ep, "first".into(), vec![FrameId::from_string("fr-1".into())], 7).unwrap();
    let o2 = r.append_observation(&ep, "second".into(), vec![], 9).unwrap();
    assert!(o1.as_str().starts_with("ob-") && !o1.same(&o2));
    let l = r.evidence(&ep).unwrap();
    assert_eq!(l.observations.len(), 2);
    assert_eq!(l.observations[0].claim, "first");
    assert_eq!(l.observations[1].detail, 9);
    assert!(l.observations[1].observation_id.same(&o2));
    assert!(l.observations[0].evidence_frame_ids[0].same(&FrameId::from_string("fr-1".into())));
}

#[test]
fn triggers_are_recorded_then_settled() {
    let mut r = registry();
    match r.record_trigger(1, WaitPolicy::NoWait, InputMode::Js) {
        Err(Error::NoActiveEpisode(_)) => {}
        _ => panic!("expected NoActiveEpisode"),
    }
    let ep = r.start_episode("s".to_string());
    let t1 = r.record_trigger(1, WaitPolicy::UntilNextFrame, InputMode::Cdp).unwrap();
    assert!(t1.as_str().starts_with("tr-"));
    assert_eq!(r.evidence(&ep).unwrap().triggers[0].wait_outcome, WaitOutcome::NotRequested);
    r.settle_trigger(&t1, WaitOutcome::Satisfied);
    assert_eq!(r.evidence(&ep).unwrap().triggers[0].wait_outcome, WaitOutcome::Satisfied);
    // Only the last trigger is settled.
    let t2 = r.record_trigger(2, WaitPolicy::NoWait, InputMode::Js).unwrap();
    r.settle_trigger(&t1, WaitOutcome::TimedOut);
    let l = r.evidence(&ep).unwrap();
    assert_eq!(l.triggers[0].wait_outcome, WaitOutcome::Satisfied);
    assert_eq!(l.triggers[1].wait_outcome, WaitOutcome::NotRequested);
    assert!(l.triggers[1].trigger_id.same(&t2));
    let _ = TriggerEventId::new();
}

#[test]
fn frames_are_found_across_episodes() {
    let mut r = registry();
    let e1 = r.start_episode("a".to_string());
    let e2 = r.start_episode("b".to_string());
    let f1 = FrameId::from_string("fr-1".into());
    let f2 = FrameId::from_string("fr-2".into());
    assert!(r.push_frame(&e1, FrameRecord { frame_id: f1.duplicate(), episode_id: e1.duplicate(), frame: 10 }));
    assert!(r.push_frame(&e2, FrameRecord { frame_id: f2.duplicate(), episode_id: e2.duplicate(), frame: 20 }));
    assert!(!r.push_frame(&EpisodeId::from_string("ep-x".into()), FrameRecord { frame_id: f1.duplicate(), episode_id: e1.duplicate(), frame: 30 }));
    assert_eq!(r.find_frame(&f1).unwrap().frame, 10);
    assert_eq!(r.find_frame(&f2).unwrap().frame, 20);
    assert!(r.find_frame(&FrameId::from_string("fr-none".into())).is_none());
    // The active episode is the latest one.
    assert!(r.active_episode().unwrap().same(&e2));
    assert_eq!(r.evidence(&e1).unwrap().frames.len(), 1);
}
