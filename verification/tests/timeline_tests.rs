use timeline_server::error::Error;
use timeline_server::media::PipelineState;
use timeline_server::timeline::Timeline;

#[test]
fn new_timeline_is_empty_and_not_started() {
    let timeline = Timeline::new();
    assert_eq!(timeline.layer_count(), 0);
    assert_eq!(timeline.clip_count(), 0);
    assert_eq!(timeline.state(), PipelineState::Null);
    assert!(timeline.clip_uri(0).is_none());
}

#[test]
fn first_clip_makes_the_first_layer() {
    let mut timeline = Timeline::new();
    timeline.add_uri_clip("file:///a.mp4".to_string(), true).unwrap();
    assert_eq!(timeline.layer_count(), 1);
    assert_eq!(timeline.clip_count(), 1);
    timeline.add_uri_clip("file:///b.mp4".to_string(), true).unwrap();
    assert_eq!(timeline.layer_count(), 1);
    assert_eq!(timeline.clip_count(), 2);
}

#[test]
fn clips_keep_their_order() {
    let mut timeline = Timeline::new();
    timeline.add_uri_clip("file:///a.mp4".to_string(), true).unwrap();
    timeline.add_uri_clip("file:///b.mp4".to_string(), true).unwrap();
    timeline.add_uri_clip("file:///a.mp4".to_string(), true).unwrap();
    assert_eq!(timeline.clip_uri(0).unwrap(), "file:///a.mp4");
    assert_eq!(timeline.clip_uri(1).unwrap(), "file:///b.mp4");
    assert_eq!(timeline.clip_uri(2).unwrap(), "file:///a.mp4");
    assert!(timeline.clip_uri(3).is_none());
}

#[test]
fn accepted_play_and_pause_show_in_the_state() {
    let mut timeline = Timeline::new();
    assert_eq!(timeline.play(true), Ok(()));
    assert_eq!(timeline.state(), PipelineState::Playing);
    assert_eq!(timeline.pause(true), Ok(()));
    assert_eq!(timeline.state(), PipelineState::Paused);
}

#[test]
fn rejected_transition_is_reported_and_changes_nothing() {
    let mut timeline = Timeline::new();
    assert_eq!(timeline.play(false), Err(Error::StateTransition));
    assert_eq!(timeline.state(), PipelineState::Null);
    timeline.play(true).unwrap();
    assert_eq!(timeline.pause(false), Err(Error::StateTransition));
    assert_eq!(timeline.state(), PipelineState::Playing);
}

#[test]
fn repeated_requests_are_idempotent() {
    let mut timeline = Timeline::new();
    timeline.play(true).unwrap();
    timeline.play(true).unwrap();
    assert_eq!(timeline.state(), PipelineState::Playing);
    timeline.pause(true).unwrap();
    timeline.pause(true).unwrap();
    assert_eq!(timeline.state(), PipelineState::Paused);
}

#[test]
fn set_state_to_null_is_a_state_like_any_other() {
    let mut timeline = Timeline::new();
    timeline.play(true).unwrap();
    assert_eq!(timeline.set_state(PipelineState::Null, true), Ok(()));
    assert_eq!(timeline.state(), PipelineState::Null);
}

#[test]
fn state_changes_leave_the_clips_alone() {
    let mut timeline = Timeline::new();
    timeline.add_uri_clip("file:///a.mp4".to_string(), true).unwrap();
    timeline.play(true).unwrap();
    timeline.pause(true).unwrap();
    assert_eq!(timeline.clip_count(), 1);
    assert_eq!(timeline.layer_count(), 1);
}

#[test]
fn rejected_clip_adds_nothing_and_is_reported() {
    let mut timeline = Timeline::new();
    assert_eq!(
        timeline.add_uri_clip("file:///missing.mp4".to_string(), false),
        Err(Error::ClipRejected)
    );
    assert_eq!(timeline.layer_count(), 0);
    assert_eq!(timeline.clip_count(), 0);
    assert_eq!(timeline.state(), PipelineState::Null);
    timeline.add_uri_clip("file:///a.mp4".to_string(), true).unwrap();
    timeline.play(true).unwrap();
    assert_eq!(
        timeline.add_uri_clip("file:///missing.mp4".to_string(), false),
        Err(Error::ClipRejected)
    );
    assert_eq!(timeline.layer_count(), 1);
    assert_eq!(timeline.clip_count(), 1);
    assert_eq!(timeline.clip_uri(0).unwrap(), "file:///a.mp4");
    assert_eq!(timeline.state(), PipelineState::Playing);
}

#[test]
fn accepted_clip_is_reported_as_done() {
    let mut timeline = Timeline::new();
    assert_eq!(timeline.add_uri_clip("file:///a.mp4".to_string(), true), Ok(()));
}
