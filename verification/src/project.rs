use vstd::prelude::*;

use crate::error::Error;
use crate::media::PipelineState;
use crate::timeline::uris_of;

verus! {

/// An operation for a project. `B` is the handle of the bridge that takes
/// the video samples of a pipeline.
#[derive(Debug)]
pub enum EditorCommand<B> {
    /// Create the pipeline of a session, with its video bridge.
    AddPipeline(String, B),
    /// Append a clip to the project's timeline.
    AddUriClip(String),
    /// Start the pipeline of a session.
    Play(String),
    /// Pause the pipeline of a session.
    Pause(String),
}

/// A command without its bridge.
pub enum EditorCommandView {
    AddPipeline(Seq<char>),
    AddUriClip(Seq<char>),
    Play(Seq<char>),
    Pause(Seq<char>),
}

impl<B> View for EditorCommand<B> {
    type V = EditorCommandView;

    open spec fn view(&self) -> EditorCommandView {
        match self {
            EditorCommand::AddPipeline(id, _) => EditorCommandView::AddPipeline(id@),
            EditorCommand::AddUriClip(uri) => EditorCommandView::AddUriClip(uri@),
            EditorCommand::Play(id) => EditorCommandView::Play(id@),
            EditorCommand::Pause(id) => EditorCommandView::Pause(id@),
        }
    }
}

/// What a project asks of the rendering engine.
#[derive(Debug)]
pub enum EditorRequest<B> {
    /// Build a pipeline for session `id` on the project's timeline, with a
    /// video encode chain that feeds `video`.
    Build { id: String, video: B },
    /// Make a clip for `uri` and append it to the project's timeline.
    AppendClip { uri: String },
    /// Bring the pipeline of session `id` to `state`.
    SetState { id: String, state: PipelineState },
}

/// A request without its bridge.
pub enum EditorRequestView {
    Build(Seq<char>),
    AppendClip(Seq<char>),
    SetState(Seq<char>, PipelineState),
}

impl<B> View for EditorRequest<B> {
    type V = EditorRequestView;

    open spec fn view(&self) -> EditorRequestView {
        match self {
            EditorRequest::Build { id, video: _ } => EditorRequestView::Build(id@),
            EditorRequest::AppendClip { uri } => EditorRequestView::AppendClip(uri@),
            EditorRequest::SetState { id, state } => EditorRequestView::SetState(id@, *state),
        }
    }
}

/// One pipeline of a project, mathematically.
pub struct PipelineView {
    pub id: Seq<char>,
    pub state: PipelineState,
}

/// A project, mathematically: one timeline and the pipelines that render
/// it, oldest first.
pub struct ProjectView {
    pub layers: nat,
    pub clips: Seq<Seq<char>>,
    pub pipelines: Seq<PipelineView>,
}

impl ProjectView {
    pub open spec fn empty() -> ProjectView {
        ProjectView { layers: 0, clips: Seq::empty(), pipelines: Seq::empty() }
    }

    /// A clip is only ever held by a layer, and no session has two
    /// pipelines.
    pub open spec fn wf(self) -> bool {
        &&& self.clips.len() > 0 ==> self.layers >= 1
        &&& forall|i: int, j: int|
            0 <= i < j < self.pipelines.len() ==> (#[trigger] self.pipelines[i]).id != (
            #[trigger] self.pipelines[j]).id
    }

    pub open spec fn has_pipeline(self, id: Seq<char>) -> bool {
        exists|i: int| 0 <= i < self.pipelines.len() && (#[trigger] self.pipelines[i]).id == id
    }

    /// `index` is where the pipeline of session `id` first stands.
    pub open spec fn first_pipeline(self, id: Seq<char>, index: int) -> bool {
        &&& 0 <= index < self.pipelines.len()
        &&& self.pipelines[index].id == id
        &&& forall|j: int| 0 <= j < index ==> (#[trigger] self.pipelines[j]).id != id
    }

    /// The project with a clip for `uri` appended to its timeline.
    pub open spec fn add_uri_clip(self, uri: Seq<char>) -> ProjectView {
        ProjectView {
            layers: if self.layers == 0 {
                1
            } else {
                self.layers
            },
            clips: self.clips.push(uri),
            ..self
        }
    }

    /// What `handle_command` answers to `command`.
    pub open spec fn request_for(self, command: EditorCommandView) -> Result<
        EditorRequestView,
        Error,
    > {
        match command {
            EditorCommandView::AddPipeline(id) => Ok(EditorRequestView::Build(id)),
            EditorCommandView::AddUriClip(uri) => Ok(EditorRequestView::AppendClip(uri)),
            EditorCommandView::Play(id) => if self.has_pipeline(id) {
                Ok(EditorRequestView::SetState(id, PipelineState::Playing))
            } else {
                Err(Error::NotFound)
            },
            EditorCommandView::Pause(id) => if self.has_pipeline(id) {
                Ok(EditorRequestView::SetState(id, PipelineState::Paused))
            } else {
                Err(Error::NotFound)
            },
        }
    }

    /// The project after the engine answered a request to append a clip
    /// for `uri`: only a clip that the engine made is on the timeline.
    pub open spec fn clip_answered(self, uri: Seq<char>, accepted: bool) -> ProjectView {
        if accepted {
            self.add_uri_clip(uri)
        } else {
            self
        }
    }

    /// Where the pipeline of session `id` stands, if it has one.
    pub open spec fn index_of(self, id: Seq<char>) -> int {
        choose|index: int| self.first_pipeline(id, index)
    }

    /// The state of the pipeline of session `id`, if it has one.
    pub open spec fn state_of(self, id: Seq<char>) -> Option<PipelineState> {
        if self.has_pipeline(id) {
            Some(self.pipelines[self.index_of(id)].state)
        } else {
            None
        }
    }

    /// The project with the pipeline of session `id` in `state`; a session
    /// without a pipeline gets one, behind all others.
    pub open spec fn with_pipeline(self, id: Seq<char>, state: PipelineState) -> ProjectView {
        if self.has_pipeline(id) {
            ProjectView {
                pipelines: self.pipelines.update(self.index_of(id), PipelineView { id, state }),
                ..self
            }
        } else {
            ProjectView { pipelines: self.pipelines.push(PipelineView { id, state }), ..self }
        }
    }

    /// The project after `complete`. A built pipeline is registered in
    /// state `Null`, to be started by the request that follows; a clip
    /// that the engine made is appended; an accepted state request shows
    /// in its pipeline; everything else, and so every rejected request,
    /// leaves the project as it is.
    pub open spec fn complete(self, request: EditorRequestView, accepted: bool) -> ProjectView {
        match request {
            EditorRequestView::Build(id) => if accepted {
                self.with_pipeline(id, PipelineState::Null)
            } else {
                self
            },
            EditorRequestView::AppendClip(uri) => self.clip_answered(uri, accepted),
            EditorRequestView::SetState(id, state) => if accepted && self.has_pipeline(id) {
                self.with_pipeline(id, state)
            } else {
                self
            },
        }
    }

    /// What `complete` answers when the engine's answer to `request` was
    /// `accepted`: after a build, the request to play the new pipeline.
    pub open spec fn follow_up(self, request: EditorRequestView, accepted: bool) -> Result<
        Option<EditorRequestView>,
        Error,
    > {
        match request {
            EditorRequestView::Build(id) => if accepted {
                Ok(Some(EditorRequestView::SetState(id, PipelineState::Playing)))
            } else {
                Err(Error::PipelineBuild)
            },
            EditorRequestView::AppendClip(_) => if accepted {
                Ok(None)
            } else {
                Err(Error::ClipRejected)
            },
            EditorRequestView::SetState(id, _) => if !self.has_pipeline(id) {
                Err(Error::NotFound)
            } else if accepted {
                Ok(None)
            } else {
                Err(Error::StateTransition)
            },
        }
    }
}

#[derive(Debug)]
struct Pipeline {
    id: String,
    state: PipelineState,
}

spec fn pipelines_of(pipelines: Seq<Pipeline>) -> Seq<PipelineView> {
    pipelines.map_values(|pipeline: Pipeline| PipelineView { id: pipeline.id@, state: pipeline.state })
}

/// One timeline that every session's pipeline renders. A pipeline is asked
/// to play as soon as the engine has built it.
#[derive(Debug)]
pub struct ProjectManager {
    layers: usize,
    clips: Vec<String>,
    pipelines: Vec<Pipeline>,
}

impl View for ProjectManager {
    type V = ProjectView;

    closed spec fn view(&self) -> ProjectView {
        ProjectView {
            layers: self.layers as nat,
            clips: uris_of(self.clips@),
            pipelines: pipelines_of(self.pipelines@),
        }
    }
}

impl ProjectManager {
    /// A project with an empty timeline and no pipelines.
    pub fn new() -> (project: ProjectManager)
        ensures
            project@ == ProjectView::empty(),
            project@.wf(),
    {
        let project = ProjectManager { layers: 0, clips: Vec::new(), pipelines: Vec::new() };
        assert(project@.clips =~= Seq::empty());
        assert(project@.pipelines =~= Seq::empty());
        project
    }

    /// Records the engine's answer to a request to append a clip for
    /// `uri`. A clip that the engine made goes behind all others in the
    /// first layer of the timeline, which is made first if the timeline
    /// has none. Where the engine could make no clip, nothing is added, no
    /// layer either, and the rejection is reported.
    pub fn add_uri_clip(&mut self, uri: &str, accepted: bool) -> (result: Result<(), Error>)
        ensures
            final(self)@ == old(self)@.clip_answered(uri@, accepted),
            old(self)@.wf() ==> final(self)@.wf(),
            result == (if accepted {
                Ok::<(), Error>(())
            } else {
                Err(Error::ClipRejected)
            }),
    {
        if accepted {
            let ghost before = self@;
            if self.layers == 0 {
                self.layers = 1;
            }
            self.clips.push(uri.to_owned());
            assert(self@.clips =~= before.clips.push(uri@));
            Ok(())
        } else {
            Err(Error::ClipRejected)
        }
    }

    /// Handles one command: says what the rendering engine has to do for
    /// it, and changes nothing yet. A clip is appended, a pipeline is
    /// registered and a state is recorded only when `complete` is told
    /// that the engine did its part. A state command for an unknown
    /// session is answered with `NotFound`.
    pub fn handle_command<B>(&mut self, command: EditorCommand<B>) -> (result: Result<
        EditorRequest<B>,
        Error,
    >)
        ensures
            final(self)@ == old(self)@,
            match result {
                Ok(request) => old(self)@.request_for(command@) == Ok::<EditorRequestView, Error>(
                    request@,
                ),
                Err(error) => old(self)@.request_for(command@) == Err::<
                    EditorRequestView,
                    Error,
                >(error),
            },
            command matches EditorCommand::AddPipeline(_, video_in) ==> result matches Ok(
                EditorRequest::Build { id: _, video },
            ) && video == video_in,
    {
        match command {
            EditorCommand::AddPipeline(id, video) => Ok(EditorRequest::Build { id, video }),
            EditorCommand::AddUriClip(uri) => Ok(EditorRequest::AppendClip { uri }),
            EditorCommand::Play(id) => self.play(id),
            EditorCommand::Pause(id) => self.pause(id),
        }
    }

    /// Records the engine's answer to `request` and says what comes next.
    /// After a pipeline was built, it is registered, in place of an
    /// earlier one of the same session, and asked to play. A clip that
    /// the engine made is appended to the timeline. An accepted state
    /// request shows in its pipeline. A rejected request changes nothing
    /// and is reported.
    pub fn complete<B>(&mut self, request: &EditorRequest<B>, accepted: bool) -> (result: Result<
        Option<EditorRequest<B>>,
        Error,
    >)
        ensures
            final(self)@ == old(self)@.complete(request@, accepted),
            old(self)@.wf() ==> final(self)@.wf(),
            match result {
                Ok(Some(next)) => old(self)@.follow_up(request@, accepted) == Ok::<
                    Option<EditorRequestView>,
                    Error,
                >(Some(next@)),
                Ok(None) => old(self)@.follow_up(request@, accepted) == Ok::<
                    Option<EditorRequestView>,
                    Error,
                >(None),
                Err(error) => old(self)@.follow_up(request@, accepted) == Err::<
                    Option<EditorRequestView>,
                    Error,
                >(error),
            },
    {
        match request {
            EditorRequest::Build { id, video: _ } => {
                if accepted {
                    self.add_pipeline(id.clone());
                    Ok(Some(EditorRequest::SetState { id: id.clone(), state: PipelineState::Playing }))
                } else {
                    Err(Error::PipelineBuild)
                }
            },
            EditorRequest::AppendClip { uri } => {
                match self.add_uri_clip(uri.as_str(), accepted) {
                    Ok(()) => Ok(None),
                    Err(error) => Err(error),
                }
            },
            EditorRequest::SetState { id, state } => {
                match self.find(id) {
                    Some(index) => {
                        if accepted {
                            let ghost before = self@;
                            self.pipelines[index].state = *state;
                            assert(before.index_of(id@) == index);
                            assert(self@.pipelines =~= before.pipelines.update(
                                index as int,
                                PipelineView { id: id@, state: *state },
                            ));
                            Ok(None)
                        } else {
                            Err(Error::StateTransition)
                        }
                    },
                    None => Err(Error::NotFound),
                }
            },
        }
    }

    /// The state of the pipeline of session `id`, if it has one.
    pub fn state_of(&self, id: &String) -> (state: Option<PipelineState>)
        ensures
            state == self@.state_of(id@),
    {
        match self.find(id) {
            Some(index) => {
                assert(self@.index_of(id@) == index);
                Some(self.pipelines[index].state)
            },
            None => None,
        }
    }

    /// Number of clips of the timeline.
    pub fn clip_count(&self) -> (count: usize)
        ensures
            count == self@.clips.len(),
    {
        self.clips.len()
    }

    /// Number of layers of the timeline.
    pub fn layer_count(&self) -> (layers: usize)
        ensures
            layers == self@.layers,
    {
        self.layers
    }

    /// Registers a pipeline for session `id`. A session that has a
    /// pipeline gets the new one in its place.
    fn add_pipeline(&mut self, id: String)
        ensures
            final(self)@ == old(self)@.with_pipeline(id@, PipelineState::Null),
            old(self)@.wf() ==> final(self)@.wf(),
    {
        let ghost before = self@;
        match self.find(&id) {
            Some(index) => {
                self.pipelines[index].state = PipelineState::Null;
                assert(before.index_of(id@) == index);
                assert(self@.pipelines =~= before.pipelines.update(
                    index as int,
                    PipelineView { id: id@, state: PipelineState::Null },
                ));
            },
            None => {
                self.pipelines.push(Pipeline { id, state: PipelineState::Null });
                assert(self@.pipelines =~= before.pipelines.push(
                    PipelineView { id: id@, state: PipelineState::Null },
                ));
            },
        }
    }

    /// The request to play the pipeline of session `id`, if it has one.
    fn play<B>(&self, id: String) -> (result: Result<EditorRequest<B>, Error>)
        ensures
            match result {
                Ok(request) => self@.has_pipeline(id@) && request@ == EditorRequestView::SetState(
                    id@,
                    PipelineState::Playing,
                ),
                Err(error) => !self@.has_pipeline(id@) && error == Error::NotFound,
            },
    {
        match self.find(&id) {
            Some(_) => Ok(EditorRequest::SetState { id, state: PipelineState::Playing }),
            None => Err(Error::NotFound),
        }
    }

    /// The request to pause the pipeline of session `id`, if it has one.
    fn pause<B>(&self, id: String) -> (result: Result<EditorRequest<B>, Error>)
        ensures
            match result {
                Ok(request) => self@.has_pipeline(id@) && request@ == EditorRequestView::SetState(
                    id@,
                    PipelineState::Paused,
                ),
                Err(error) => !self@.has_pipeline(id@) && error == Error::NotFound,
            },
    {
        match self.find(&id) {
            Some(_) => Ok(EditorRequest::SetState { id, state: PipelineState::Paused }),
            None => Err(Error::NotFound),
        }
    }

    /// Where the pipeline of session `id` first stands.
    fn find(&self, id: &String) -> (found: Option<usize>)
        ensures
            match found {
                Some(index) => self@.first_pipeline(id@, index as int),
                None => !self@.has_pipeline(id@),
            },
    {
        let mut index: usize = 0;
        while index < self.pipelines.len()
            invariant
                index <= self.pipelines@.len(),
                forall|j: int| 0 <= j < index ==> (#[trigger] self@.pipelines[j]).id != id@,
            decreases self.pipelines@.len() - index,
        {
            if self.pipelines[index].id == *id {
                return Some(index);
            }
            index += 1;
        }
        None
    }
}

/// One step of a project, as seen from outside.
pub enum EditorEvent {
    /// A command was handled.
    Command(EditorCommandView),
    /// The engine's answer to a request was recorded.
    Completion(EditorRequestView, bool),
}

impl ProjectView {
    /// The project after `event`. Handling a command only asks the
    /// engine; the project changes when the engine's answer is recorded.
    pub open spec fn apply(self, event: EditorEvent) -> ProjectView {
        match event {
            EditorEvent::Command(_) => self,
            EditorEvent::Completion(request, accepted) => self.complete(request, accepted),
        }
    }

    /// The project after `events`, first to last.
    pub open spec fn run(self, events: Seq<EditorEvent>) -> ProjectView
        decreases events.len(),
    {
        if events.len() == 0 {
            self
        } else {
            self.apply(events[0]).run(events.drop_first())
        }
    }
}

/// The URIs of the clips that the engine made among `events`, in order.
pub open spec fn added_clips(events: Seq<EditorEvent>) -> Seq<Seq<char>>
    decreases events.len(),
{
    if events.len() == 0 {
        Seq::empty()
    } else {
        let rest = added_clips(events.drop_first());
        match events[0] {
            EditorEvent::Completion(EditorRequestView::AppendClip(uri), true) => seq![uri] + rest,
            _ => rest,
        }
    }
}

/// Where a session has a pipeline, `index_of` is where it first stands.
pub proof fn lemma_index_of(project: ProjectView, id: Seq<char>)
    requires
        project.has_pipeline(id),
    ensures
        project.first_pipeline(id, project.index_of(id)),
    decreases project.pipelines.len(),
{
    let last = project.pipelines.len() - 1;
    let front = ProjectView { pipelines: project.pipelines.drop_last(), ..project };
    if front.has_pipeline(id) {
        lemma_index_of(front, id);
        let index = front.index_of(id);
        assert(project.first_pipeline(id, index)) by {
            assert forall|j: int| 0 <= j < index implies (#[trigger] project.pipelines[j]).id
                != id by {
                assert(front.pipelines[j].id != id);
            }
        }
    } else {
        assert(project.first_pipeline(id, last)) by {
            assert forall|j: int| 0 <= j < last implies (#[trigger] project.pipelines[j]).id
                != id by {
                if project.pipelines[j].id == id {
                    assert(front.pipelines[j].id == id);
                }
            }
            let witness = choose|i: int|
                0 <= i < project.pipelines.len() && (#[trigger] project.pipelines[i]).id == id;
            if witness != last {
                assert(front.pipelines[witness].id == id);
            }
        }
    }
}

/// The timeline is append-only: whatever a project goes through, its clips
/// afterwards are its clips before, followed by one clip for each request
/// to append that the engine accepted, in the order of the requests. A
/// clip that the engine rejected is not there.
pub proof fn lemma_project_clips_follow_commands(project: ProjectView, events: Seq<EditorEvent>)
    ensures
        project.run(events).clips == project.clips + added_clips(events),
    decreases events.len(),
{
    if events.len() == 0 {
        assert(project.clips + added_clips(events) =~= project.clips);
    } else {
        let next = project.apply(events[0]);
        let rest = events.drop_first();
        lemma_project_clips_follow_commands(next, rest);
        assert(next.clips + added_clips(rest) =~= project.clips + added_clips(events));
    }
}

/// Play, then pause: the pipeline ends paused, exactly as if only the pause
/// had been asked for, and asking again for the state it is in changes
/// nothing.
pub proof fn lemma_project_play_then_pause(project: ProjectView, id: Seq<char>)
    requires
        project.has_pipeline(id),
    ensures
        ({
            let play = EditorRequestView::SetState(id, PipelineState::Playing);
            let pause = EditorRequestView::SetState(id, PipelineState::Paused);
            let played = project.complete(play, true);
            let paused = played.complete(pause, true);
            &&& paused.state_of(id) == Some(PipelineState::Paused)
            &&& paused == project.complete(pause, true)
            &&& paused.complete(pause, true) == paused
            &&& played.complete(play, true) == played
        }),
{
    let play = EditorRequestView::SetState(id, PipelineState::Playing);
    let pause = EditorRequestView::SetState(id, PipelineState::Paused);
    let played = project.complete(play, true);
    let paused = played.complete(pause, true);
    lemma_index_of(project, id);
    let index = project.index_of(id);
    assert(played.first_pipeline(id, index));
    assert(played.index_of(id) == index);
    assert(paused.first_pipeline(id, index));
    assert(paused.index_of(id) == index);
    assert(paused.pipelines =~= project.complete(pause, true).pipelines);
    assert(paused.complete(pause, true).pipelines =~= paused.pipelines);
    assert(played.complete(play, true).pipelines =~= played.pipelines);
}

/// A state command for a session without a pipeline is answered with
/// `NotFound` and leaves no trace: what is handled after it goes exactly as
/// it would have gone without it.
pub proof fn lemma_project_unknown_session_ignored(
    project: ProjectView,
    id: Seq<char>,
    later: Seq<EditorEvent>,
)
    requires
        !project.has_pipeline(id),
    ensures
        project.request_for(EditorCommandView::Pause(id)) == Err::<EditorRequestView, Error>(
            Error::NotFound,
        ),
        project.request_for(EditorCommandView::Play(id)) == Err::<EditorRequestView, Error>(
            Error::NotFound,
        ),
        project.run(seq![EditorEvent::Command(EditorCommandView::Pause(id))] + later)
            == project.run(later),
        project.run(seq![EditorEvent::Command(EditorCommandView::Play(id))] + later)
            == project.run(later),
{
    let paused = seq![EditorEvent::Command(EditorCommandView::Pause(id))] + later;
    assert(paused.drop_first() =~= later);
    let played = seq![EditorEvent::Command(EditorCommandView::Play(id))] + later;
    assert(played.drop_first() =~= later);
}

/// A pipeline is created playing: when the engine has built the pipeline
/// of a session and accepted the request to play that follows, the session
/// has a pipeline that plays, and the timeline is as it was. When the
/// engine could not build the pipeline, nothing is registered.
pub proof fn lemma_project_created_pipeline_plays(project: ProjectView, id: Seq<char>)
    ensures
        ({
            let build = EditorRequestView::Build(id);
            let play = EditorRequestView::SetState(id, PipelineState::Playing);
            let built = project.complete(build, true);
            let played = built.complete(play, true);
            &&& project.request_for(EditorCommandView::AddPipeline(id)) == Ok::<
                EditorRequestView,
                Error,
            >(build)
            &&& project.follow_up(build, true) == Ok::<Option<EditorRequestView>, Error>(
                Some(play),
            )
            &&& built.state_of(id) == Some(PipelineState::Null)
            &&& built.follow_up(play, true) == Ok::<Option<EditorRequestView>, Error>(None)
            &&& played.state_of(id) == Some(PipelineState::Playing)
            &&& played.clips == project.clips
            &&& played.layers == project.layers
            &&& project.follow_up(build, false) == Err::<Option<EditorRequestView>, Error>(
                Error::PipelineBuild,
            )
            &&& project.complete(build, false) == project
        }),
{
    let build = EditorRequestView::Build(id);
    let play = EditorRequestView::SetState(id, PipelineState::Playing);
    let built = project.complete(build, true);
    let index = if project.has_pipeline(id) {
        lemma_index_of(project, id);
        project.index_of(id)
    } else {
        project.pipelines.len() as int
    };
    assert(built.first_pipeline(id, index));
    assert(built.index_of(id) == index);
    let played = built.complete(play, true);
    assert(played.first_pipeline(id, index));
    assert(played.index_of(id) == index);
}

/// A request that the engine rejected changes nothing: no clip, no
/// pipeline and no state is recorded for it.
pub proof fn lemma_project_rejected_request_changes_nothing(
    project: ProjectView,
    request: EditorRequestView,
)
    ensures
        project.complete(request, false) == project,
        project.follow_up(request, false) is Err,
{
}

} // verus!
