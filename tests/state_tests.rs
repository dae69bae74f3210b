use sling::jobstate::{JobMessage, JobState};

#[test]
fn new_state_is_active() {
    let s = JobState::new(JobMessage::Starting, 3);
    assert!(s.is_active());
    assert!(!s.should_stop());
    assert_eq!(s.id(), 3);
    assert_eq!(s.state(), JobMessage::Starting);
}

#[test]
fn missing_state_is_nojob() {
    let s = JobState::missing();
    assert!(!s.is_active());
    assert!(!s.should_stop());
    assert_eq!(s.id(), 0);
    assert_eq!(s.state(), JobMessage::NoJob);
}

#[test]
fn transitions_and_stop() {
    let mut s = JobState::new(JobMessage::Starting, 1);
    s.statechange(JobMessage::Rebalancing);
    assert_eq!(s.state(), JobMessage::Rebalancing);
    s.stop();
    assert!(s.should_stop());
    assert!(s.is_active());
    assert_eq!(s.state(), JobMessage::Rebalancing);
    s.statechange(JobMessage::Stopped);
    s.set_active(false);
    assert!(!s.is_active());
    assert!(s.state().is_terminal());
    assert!(!JobMessage::Stopping.is_terminal());
    assert!(JobMessage::Error.is_terminal());
}

#[test]
fn message_names() {
    assert_eq!(JobMessage::NoRoute.as_str(), "NoRoutes");
    assert_eq!(JobMessage::TooExp.as_str(), "NoCheapRoute");
    assert_eq!(JobMessage::HTLCcapped.as_str(), "HTLCcapped");
    assert_eq!(JobMessage::NoJob.as_str(), "NoJob");
}
