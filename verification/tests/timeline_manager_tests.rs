use timeline_server::error::Error;
use timeline_server::media::PipelineState;
use timeline_server::timeline_manager::{Command, EngineRequest, TimelineManager};

fn create_slot(manager: &mut TimelineManager, id: &str) {
    let request = manager
        .handle_command(Command::AddPipeline(id.to_string(), 1u32, 2u32))
        .unwrap();
    let next = manager.complete(&request, true).unwrap().unwrap();
    assert_eq!(manager.complete(&next, true).unwrap().map(|_| ()), None);
}

fn run_to_end(manager: &mut TimelineManager, command: Command<u32>) -> Result<(), Error> {
    let mut request = manager.handle_command(command)?;
    loop {
        match manager.complete(&request, true)? {
            Some(next) => request = next,
            None => return Ok(()),
        }
    }
}

#[test]
fn new_manager_is_empty() {
    let manager = TimelineManager::new();
    assert_eq!(manager.clip_count(), 0);
    assert!(manager.clip_uri(0).is_none());
    assert_eq!(manager.state_of(&"anyone".to_string()), None);
}

#[test]
fn clip_count_equals_number_of_add_clip_commands() {
    let mut manager = TimelineManager::new();
    for n in 0..50usize {
        assert_eq!(manager.clip_count(), n);
        let uri = format!("file:///clip{}.mp4", n);
        let request = manager
            .handle_command(Command::<u32>::AddUriClip(uri.clone()))
            .unwrap();
        match &request {
            EngineRequest::AppendClip { uri: asked } => assert_eq!(asked, &uri),
            other => panic!("expected AppendClip, got {:?}", other),
        }
        assert_eq!(manager.clip_count(), n);
        assert!(matches!(manager.complete(&request, true), Ok(None)));
        assert_eq!(manager.clip_count(), n + 1);
    }
    assert_eq!(manager.clip_count(), 50);
    assert_eq!(manager.clip_uri(0).unwrap(), "file:///clip0.mp4");
    assert_eq!(manager.clip_uri(49).unwrap(), "file:///clip49.mp4");
    assert!(manager.clip_uri(50).is_none());
}

#[test]
fn same_uri_twice_gives_two_clips() {
    let mut manager = TimelineManager::new();
    run_to_end(&mut manager, Command::AddUriClip("file:///a.mp4".to_string())).unwrap();
    run_to_end(&mut manager, Command::AddUriClip("file:///a.mp4".to_string())).unwrap();
    assert_eq!(manager.clip_count(), 2);
}

#[test]
fn other_commands_do_not_touch_the_clips() {
    let mut manager = TimelineManager::new();
    run_to_end(&mut manager, Command::AddUriClip("file:///a.mp4".to_string())).unwrap();
    create_slot(&mut manager, "s1");
    run_to_end(&mut manager, Command::Pause("s1".to_string())).unwrap();
    run_to_end(&mut manager, Command::Play("s1".to_string())).unwrap();
    assert_eq!(run_to_end(&mut manager, Command::Play("nobody".to_string())), Err(Error::NotFound));
    assert_eq!(manager.clip_count(), 1);
}

#[test]
fn add_pipeline_hands_the_bridges_to_the_engine() {
    let mut manager = TimelineManager::new();
    let request = manager
        .handle_command(Command::AddPipeline("s1".to_string(), 11u32, 22u32))
        .unwrap();
    match &request {
        EngineRequest::Build { id, video, audio } => {
            assert_eq!(id, "s1");
            assert_eq!(*video, 11);
            assert_eq!(*audio, 22);
        }
        other => panic!("expected Build, got {:?}", other),
    }
    assert_eq!(manager.state_of(&"s1".to_string()), None);
}

#[test]
fn created_slot_is_registered_and_asked_to_play() {
    let mut manager = TimelineManager::new();
    let request = manager
        .handle_command(Command::AddPipeline("s1".to_string(), 1u32, 2u32))
        .unwrap();
    let next = manager.complete(&request, true).unwrap();
    assert_eq!(manager.state_of(&"s1".to_string()), Some(PipelineState::Null));
    let next = next.unwrap();
    match &next {
        EngineRequest::SetState { id, state } => {
            assert_eq!(id, "s1");
            assert_eq!(*state, PipelineState::Playing);
        }
        other => panic!("expected SetState, got {:?}", other),
    }
    assert!(matches!(manager.complete(&next, true), Ok(None)));
    assert_eq!(manager.state_of(&"s1".to_string()), Some(PipelineState::Playing));
}

#[test]
fn failed_build_registers_nothing() {
    let mut manager = TimelineManager::new();
    let request = manager
        .handle_command(Command::AddPipeline("s1".to_string(), 1u32, 2u32))
        .unwrap();
    assert!(matches!(manager.complete(&request, false), Err(Error::PipelineBuild)));
    assert_eq!(manager.state_of(&"s1".to_string()), None);
    assert!(matches!(
        manager.handle_command(Command::<u32>::Play("s1".to_string())),
        Err(Error::NotFound)
    ));
}

#[test]
fn failed_build_of_one_slot_leaves_the_others() {
    let mut manager = TimelineManager::new();
    create_slot(&mut manager, "s1");
    let request = manager
        .handle_command(Command::AddPipeline("s2".to_string(), 1u32, 2u32))
        .unwrap();
    assert!(matches!(manager.complete(&request, false), Err(Error::PipelineBuild)));
    assert_eq!(manager.state_of(&"s1".to_string()), Some(PipelineState::Playing));
    assert_eq!(manager.state_of(&"s2".to_string()), None);
}

#[test]
fn play_then_pause_ends_paused() {
    let mut manager = TimelineManager::new();
    create_slot(&mut manager, "s1");
    run_to_end(&mut manager, Command::Play("s1".to_string())).unwrap();
    run_to_end(&mut manager, Command::Pause("s1".to_string())).unwrap();
    assert_eq!(manager.state_of(&"s1".to_string()), Some(PipelineState::Paused));
}

#[test]
fn duplicated_play_and_pause_still_end_paused() {
    let mut manager = TimelineManager::new();
    create_slot(&mut manager, "s1");
    for _ in 0..3 {
        run_to_end(&mut manager, Command::Play("s1".to_string())).unwrap();
    }
    for _ in 0..3 {
        run_to_end(&mut manager, Command::Pause("s1".to_string())).unwrap();
    }
    assert_eq!(manager.state_of(&"s1".to_string()), Some(PipelineState::Paused));
}

#[test]
fn pause_then_play_ends_playing() {
    let mut manager = TimelineManager::new();
    create_slot(&mut manager, "s1");
    run_to_end(&mut manager, Command::Pause("s1".to_string())).unwrap();
    run_to_end(&mut manager, Command::Play("s1".to_string())).unwrap();
    assert_eq!(manager.state_of(&"s1".to_string()), Some(PipelineState::Playing));
}

#[test]
fn state_commands_address_one_slot_only() {
    let mut manager = TimelineManager::new();
    create_slot(&mut manager, "s1");
    create_slot(&mut manager, "s2");
    run_to_end(&mut manager, Command::Pause("s2".to_string())).unwrap();
    assert_eq!(manager.state_of(&"s1".to_string()), Some(PipelineState::Playing));
    assert_eq!(manager.state_of(&"s2".to_string()), Some(PipelineState::Paused));
}

#[test]
fn rejected_slot_transition_is_reported_and_changes_nothing() {
    let mut manager = TimelineManager::new();
    create_slot(&mut manager, "s1");
    let request = manager
        .handle_command(Command::<u32>::Pause("s1".to_string()))
        .unwrap();
    assert_eq!(manager.state_of(&"s1".to_string()), Some(PipelineState::Playing));
    assert!(matches!(manager.complete(&request, false), Err(Error::StateTransition)));
    assert_eq!(manager.state_of(&"s1".to_string()), Some(PipelineState::Playing));
}

#[test]
fn pause_for_unknown_session_is_not_found_and_the_loop_goes_on() {
    let mut manager = TimelineManager::new();
    create_slot(&mut manager, "s1");
    assert!(matches!(
        manager.handle_command(Command::<u32>::Pause("ghost".to_string())),
        Err(Error::NotFound)
    ));
    assert_eq!(manager.state_of(&"ghost".to_string()), None);
    assert_eq!(manager.state_of(&"s1".to_string()), Some(PipelineState::Playing));
    assert_eq!(manager.clip_count(), 0);
    run_to_end(&mut manager, Command::AddUriClip("file:///a.mp4".to_string())).unwrap();
    run_to_end(&mut manager, Command::Pause("s1".to_string())).unwrap();
    assert_eq!(manager.clip_count(), 1);
    assert_eq!(manager.state_of(&"s1".to_string()), Some(PipelineState::Paused));
}

#[test]
fn completing_a_state_request_for_an_unknown_session_is_not_found() {
    let mut manager = TimelineManager::new();
    let request: EngineRequest<u32> =
        EngineRequest::SetState { id: "ghost".to_string(), state: PipelineState::Playing };
    assert!(matches!(manager.complete(&request, true), Err(Error::NotFound)));
    assert_eq!(manager.state_of(&"ghost".to_string()), None);
}

#[test]
fn second_pipeline_for_a_session_replaces_the_first() {
    let mut manager = TimelineManager::new();
    create_slot(&mut manager, "s1");
    run_to_end(&mut manager, Command::Pause("s1".to_string())).unwrap();
    let request = manager
        .handle_command(Command::AddPipeline("s1".to_string(), 3u32, 4u32))
        .unwrap();
    manager.complete(&request, true).unwrap();
    assert_eq!(manager.state_of(&"s1".to_string()), Some(PipelineState::Null));
}

#[test]
fn clips_added_before_any_slot_are_kept() {
    let mut manager = TimelineManager::new();
    run_to_end(&mut manager, Command::AddUriClip("file:///a.mp4".to_string())).unwrap();
    run_to_end(&mut manager, Command::AddUriClip("file:///b.mp4".to_string())).unwrap();
    create_slot(&mut manager, "s1");
    run_to_end(&mut manager, Command::AddUriClip("file:///c.mp4".to_string())).unwrap();
    assert_eq!(manager.clip_count(), 3);
    assert_eq!(manager.clip_uri(2).unwrap(), "file:///c.mp4");
    assert_eq!(manager.state_of(&"s1".to_string()), Some(PipelineState::Playing));
}

#[test]
fn rejected_clip_is_reported_and_adds_nothing() {
    let mut manager = TimelineManager::new();
    run_to_end(&mut manager, Command::AddUriClip("file:///a.mp4".to_string())).unwrap();
    let request = manager
        .handle_command(Command::<u32>::AddUriClip("file:///missing.mp4".to_string()))
        .unwrap();
    assert_eq!(manager.clip_count(), 1);
    assert!(matches!(manager.complete(&request, false), Err(Error::ClipRejected)));
    assert_eq!(manager.clip_count(), 1);
    assert_eq!(manager.clip_uri(0).unwrap(), "file:///a.mp4");
    assert!(manager.clip_uri(1).is_none());
    run_to_end(&mut manager, Command::AddUriClip("file:///b.mp4".to_string())).unwrap();
    assert_eq!(manager.clip_count(), 2);
    assert_eq!(manager.clip_uri(1).unwrap(), "file:///b.mp4");
}

#[test]
fn handling_a_command_changes_nothing_until_the_engine_answered() {
    let mut manager = TimelineManager::new();
    create_slot(&mut manager, "s1");
    manager
        .handle_command(Command::<u32>::AddUriClip("file:///a.mp4".to_string()))
        .unwrap();
    manager
        .handle_command(Command::<u32>::Pause("s1".to_string()))
        .unwrap();
    manager
        .handle_command(Command::AddPipeline("s2".to_string(), 1u32, 2u32))
        .unwrap();
    assert_eq!(manager.clip_count(), 0);
    assert_eq!(manager.state_of(&"s1".to_string()), Some(PipelineState::Playing));
    assert_eq!(manager.state_of(&"s2".to_string()), None);
}
