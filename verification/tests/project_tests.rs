use timeline_server::error::Error;
use timeline_server::media::PipelineState;
use timeline_server::project::{EditorCommand, EditorRequest, ProjectManager};

fn run_to_end(project: &mut ProjectManager, command: EditorCommand<u32>) -> Result<(), Error> {
    let mut request = project.handle_command(command)?;
    loop {
        match project.complete(&request, true)? {
            Some(next) => request = next,
            None => return Ok(()),
        }
    }
}

fn create_pipeline(project: &mut ProjectManager, id: &str) {
    run_to_end(project, EditorCommand::AddPipeline(id.to_string(), 7u32)).unwrap();
}

#[test]
fn new_project_is_empty() {
    let project = ProjectManager::new();
    assert_eq!(project.clip_count(), 0);
    assert_eq!(project.layer_count(), 0);
    assert_eq!(project.state_of(&"s1".to_string()), None);
}

#[test]
fn project_clip_count_equals_number_of_add_clip_commands() {
    let mut project = ProjectManager::new();
    for n in 0..20usize {
        assert_eq!(project.clip_count(), n);
        run_to_end(&mut project, EditorCommand::AddUriClip(format!("file:///{}.mp4", n))).unwrap();
    }
    assert_eq!(project.clip_count(), 20);
    assert_eq!(project.layer_count(), 1);
}

#[test]
fn project_add_uri_clip_makes_the_first_layer() {
    let mut project = ProjectManager::new();
    assert_eq!(project.add_uri_clip("file:///missing.mp4", false), Err(Error::ClipRejected));
    assert_eq!(project.layer_count(), 0);
    assert_eq!(project.clip_count(), 0);
    assert_eq!(project.add_uri_clip("file:///a.mp4", true), Ok(()));
    assert_eq!(project.layer_count(), 1);
    assert_eq!(project.clip_count(), 1);
    assert_eq!(project.add_uri_clip("file:///b.mp4", true), Ok(()));
    assert_eq!(project.layer_count(), 1);
    assert_eq!(project.clip_count(), 2);
    assert_eq!(project.add_uri_clip("file:///missing.mp4", false), Err(Error::ClipRejected));
    assert_eq!(project.layer_count(), 1);
    assert_eq!(project.clip_count(), 2);
}

#[test]
fn project_pipeline_gets_its_bridge_and_is_asked_to_play() {
    let mut project = ProjectManager::new();
    let request = project
        .handle_command(EditorCommand::AddPipeline("s1".to_string(), 7u32))
        .unwrap();
    match &request {
        EditorRequest::Build { id, video } => {
            assert_eq!(id, "s1");
            assert_eq!(*video, 7);
        }
        other => panic!("expected Build, got {:?}", other),
    }
    assert_eq!(project.state_of(&"s1".to_string()), None);
    let next = project.complete(&request, true).unwrap().unwrap();
    assert_eq!(project.state_of(&"s1".to_string()), Some(PipelineState::Null));
    match &next {
        EditorRequest::SetState { id, state } => {
            assert_eq!(id, "s1");
            assert_eq!(*state, PipelineState::Playing);
        }
        other => panic!("expected SetState, got {:?}", other),
    }
    assert!(matches!(project.complete(&next, true), Ok(None)));
    assert_eq!(project.state_of(&"s1".to_string()), Some(PipelineState::Playing));
}

#[test]
fn project_failed_build_registers_nothing() {
    let mut project = ProjectManager::new();
    let request = project
        .handle_command(EditorCommand::AddPipeline("s1".to_string(), 7u32))
        .unwrap();
    assert!(matches!(project.complete(&request, false), Err(Error::PipelineBuild)));
    assert_eq!(project.state_of(&"s1".to_string()), None);
}

#[test]
fn project_play_then_pause_ends_paused() {
    let mut project = ProjectManager::new();
    create_pipeline(&mut project, "s1");
    create_pipeline(&mut project, "s2");
    run_to_end(&mut project, EditorCommand::Play("s1".to_string())).unwrap();
    run_to_end(&mut project, EditorCommand::Play("s1".to_string())).unwrap();
    assert_eq!(project.state_of(&"s1".to_string()), Some(PipelineState::Playing));
    run_to_end(&mut project, EditorCommand::Pause("s1".to_string())).unwrap();
    run_to_end(&mut project, EditorCommand::Pause("s1".to_string())).unwrap();
    assert_eq!(project.state_of(&"s1".to_string()), Some(PipelineState::Paused));
    assert_eq!(project.state_of(&"s2".to_string()), Some(PipelineState::Playing));
}

#[test]
fn project_commands_for_unknown_sessions_are_not_found() {
    let mut project = ProjectManager::new();
    create_pipeline(&mut project, "s1");
    assert!(matches!(
        project.handle_command(EditorCommand::<u32>::Pause("ghost".to_string())),
        Err(Error::NotFound)
    ));
    assert!(matches!(
        project.handle_command(EditorCommand::<u32>::Play("ghost".to_string())),
        Err(Error::NotFound)
    ));
    assert_eq!(project.state_of(&"s1".to_string()), Some(PipelineState::Playing));
    run_to_end(&mut project, EditorCommand::Pause("s1".to_string())).unwrap();
    assert_eq!(project.state_of(&"s1".to_string()), Some(PipelineState::Paused));
}

#[test]
fn project_rejected_transition_is_reported() {
    let mut project = ProjectManager::new();
    create_pipeline(&mut project, "s1");
    let request = project
        .handle_command(EditorCommand::<u32>::Pause("s1".to_string()))
        .unwrap();
    assert!(matches!(project.complete(&request, false), Err(Error::StateTransition)));
    assert_eq!(project.state_of(&"s1".to_string()), Some(PipelineState::Playing));
}

#[test]
fn project_second_pipeline_for_a_session_replaces_the_first() {
    let mut project = ProjectManager::new();
    create_pipeline(&mut project, "s1");
    run_to_end(&mut project, EditorCommand::Pause("s1".to_string())).unwrap();
    let request = project
        .handle_command(EditorCommand::AddPipeline("s1".to_string(), 8u32))
        .unwrap();
    project.complete(&request, true).unwrap();
    assert_eq!(project.state_of(&"s1".to_string()), Some(PipelineState::Null));
}

#[test]
fn project_rejected_clip_is_reported_and_adds_nothing() {
    let mut project = ProjectManager::new();
    let request = project
        .handle_command(EditorCommand::<u32>::AddUriClip("file:///missing.mp4".to_string()))
        .unwrap();
    assert!(matches!(project.complete(&request, false), Err(Error::ClipRejected)));
    assert_eq!(project.clip_count(), 0);
    assert_eq!(project.layer_count(), 0);
}

#[test]
fn project_created_pipeline_plays_once_the_engine_accepted() {
    let mut project = ProjectManager::new();
    create_pipeline(&mut project, "s1");
    assert_eq!(project.state_of(&"s1".to_string()), Some(PipelineState::Playing));
}

#[test]
fn project_rejected_first_play_leaves_the_pipeline_in_null() {
    let mut project = ProjectManager::new();
    let request = project
        .handle_command(EditorCommand::AddPipeline("s1".to_string(), 7u32))
        .unwrap();
    let play = project.complete(&request, true).unwrap().unwrap();
    assert!(matches!(project.complete(&play, false), Err(Error::StateTransition)));
    assert_eq!(project.state_of(&"s1".to_string()), Some(PipelineState::Null));
}
