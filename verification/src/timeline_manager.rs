use vstd::prelude::*;

use crate::error::Error;
use crate::media::PipelineState;
use crate::timeline::{uris_of, Timeline, TimelineView};

verus! {

/// An operation for the control loop. `B` is the handle of a sample bridge;
/// the loop hands it on to the rendering engine and never looks inside.
#[derive(Debug)]
pub enum Command<B> {
    /// Create the render slot of a session, with its video and audio bridge.
    AddPipeline(String, B, B),
    /// Append a clip to the shared timeline.
    AddUriClip(String),
    /// Start the slot of a session.
    Play(String),
    /// Pause the slot of a session.
    Pause(String),
}

/// A command without its bridges.
pub enum CommandView {
    AddPipeline(Seq<char>),
    AddUriClip(Seq<char>),
    Play(Seq<char>),
    Pause(Seq<char>),
}

impl<B> View for Command<B> {
    type V = CommandView;

    open spec fn view(&self) -> CommandView {
        match self {
            Command::AddPipeline(id, _, _) => CommandView::AddPipeline(id@),
            Command::AddUriClip(uri) => CommandView::AddUriClip(uri@),
            Command::Play(id) => CommandView::Play(id@),
            Command::Pause(id) => CommandView::Pause(id@),
        }
    }
}

/// What the control loop asks of the rendering engine. The caller performs
/// the request and reports the engine's answer with `complete`.
#[derive(Debug)]
pub enum EngineRequest<B> {
    /// Build the pipeline of session `id`, with one encode chain per bridge
    /// and the clips the timeline holds at this moment.
    Build { id: String, video: B, audio: B },
    /// Make a clip for `uri` and append it to every pipeline's timeline.
    AppendClip { uri: String },
    /// Bring the pipeline of session `id` to `state`.
    SetState { id: String, state: PipelineState },
}

/// A request without its bridges.
pub enum RequestView {
    Build(Seq<char>),
    AppendClip(Seq<char>),
    SetState(Seq<char>, PipelineState),
}

impl<B> View for EngineRequest<B> {
    type V = RequestView;

    open spec fn view(&self) -> RequestView {
        match self {
            EngineRequest::Build { id, video: _, audio: _ } => RequestView::Build(id@),
            EngineRequest::AppendClip { uri } => RequestView::AppendClip(uri@),
            EngineRequest::SetState { id, state } => RequestView::SetState(id@, *state),
        }
    }
}

/// The timeline a new slot starts with: every clip of the shared timeline,
/// in its first layer, behind a pipeline that has not started.
pub open spec fn bound_timeline(clips: Seq<Seq<char>>) -> TimelineView {
    TimelineView {
        layers: if clips.len() == 0 {
            0
        } else {
            1
        },
        clips,
        state: PipelineState::Null,
    }
}

/// What the control loop owns, mathematically: the clips of the shared
/// timeline and the render slot of each session.
pub struct ManagerView {
    pub clips: Seq<Seq<char>>,
    pub slots: Map<Seq<char>, TimelineView>,
}

/// One step of the control loop, as seen from outside.
pub enum Event {
    /// A command was handled.
    Command(CommandView),
    /// The engine's answer to a request was recorded.
    Completion(RequestView, bool),
}

impl ManagerView {
    pub open spec fn empty() -> ManagerView {
        ManagerView { clips: Seq::empty(), slots: Map::empty() }
    }

    /// One timeline, many slots: every slot shows exactly the clips of the
    /// shared timeline.
    pub open spec fn wf(self) -> bool {
        forall|id: Seq<char>| #[trigger]
            self.slots.dom().contains(id) ==> self.slots[id].clips == self.clips
                && self.slots[id].wf()
    }

    /// What `handle_command` answers to `command`.
    pub open spec fn request_for(self, command: CommandView) -> Result<RequestView, Error> {
        match command {
            CommandView::AddPipeline(id) => Ok(RequestView::Build(id)),
            CommandView::AddUriClip(uri) => Ok(RequestView::AppendClip(uri)),
            CommandView::Play(id) => if self.slots.dom().contains(id) {
                Ok(RequestView::SetState(id, PipelineState::Playing))
            } else {
                Err(Error::NotFound)
            },
            CommandView::Pause(id) => if self.slots.dom().contains(id) {
                Ok(RequestView::SetState(id, PipelineState::Paused))
            } else {
                Err(Error::NotFound)
            },
        }
    }

    /// The state with a clip for `uri` behind all others: it is on the
    /// shared timeline and shows in every slot.
    pub open spec fn add_uri_clip(self, uri: Seq<char>) -> ManagerView {
        ManagerView {
            clips: self.clips.push(uri),
            slots: self.slots.map_values(|slot: TimelineView| slot.add_uri_clip(uri)),
        }
    }

    /// What `complete` answers when the engine's answer to `request` was
    /// `accepted`.
    pub open spec fn follow_up(self, request: RequestView, accepted: bool) -> Result<
        Option<RequestView>,
        Error,
    > {
        match request {
            RequestView::Build(id) => if accepted {
                Ok(Some(RequestView::SetState(id, PipelineState::Playing)))
            } else {
                Err(Error::PipelineBuild)
            },
            RequestView::AppendClip(_) => if accepted {
                Ok(None)
            } else {
                Err(Error::ClipRejected)
            },
            RequestView::SetState(id, _) => if !self.slots.dom().contains(id) {
                Err(Error::NotFound)
            } else if accepted {
                Ok(None)
            } else {
                Err(Error::StateTransition)
            },
        }
    }

    /// The state after `complete`. A built pipeline is registered under its
    /// session, in place of an earlier one; a clip that the engine made is
    /// appended; an accepted state request shows in its slot; everything
    /// else, and so every rejected request, leaves the state as it is.
    pub open spec fn complete(self, request: RequestView, accepted: bool) -> ManagerView {
        match request {
            RequestView::Build(id) => if accepted {
                ManagerView { slots: self.slots.insert(id, bound_timeline(self.clips)), ..self }
            } else {
                self
            },
            RequestView::AppendClip(uri) => if accepted {
                self.add_uri_clip(uri)
            } else {
                self
            },
            RequestView::SetState(id, state) => if self.slots.dom().contains(id) {
                ManagerView {
                    slots: self.slots.insert(id, self.slots[id].set_state(state, accepted)),
                    ..self
                }
            } else {
                self
            },
        }
    }

    /// The state after `event`. Handling a command only asks the engine;
    /// the state changes when the engine's answer is recorded.
    pub open spec fn apply(self, event: Event) -> ManagerView {
        match event {
            Event::Command(_) => self,
            Event::Completion(request, accepted) => self.complete(request, accepted),
        }
    }

    /// The state after `events`, first to last.
    pub open spec fn run(self, events: Seq<Event>) -> ManagerView
        decreases events.len(),
    {
        if events.len() == 0 {
            self
        } else {
            self.apply(events[0]).run(events.drop_first())
        }
    }
}

/// The URIs of the clips that the engine made among `events`, in order.
pub open spec fn added_uris(events: Seq<Event>) -> Seq<Seq<char>>
    decreases events.len(),
{
    if events.len() == 0 {
        Seq::empty()
    } else {
        let rest = added_uris(events.drop_first());
        match events[0] {
            Event::Completion(RequestView::AppendClip(uri), true) => seq![uri] + rest,
            _ => rest,
        }
    }
}

/// The render slot of one session.
#[derive(Debug)]
struct Slot {
    id: String,
    timeline: Timeline,
}

/// The session identifiers of `slots`, in registration order.
spec fn ids_of(slots: Seq<Slot>) -> Seq<Seq<char>> {
    slots.map_values(|slot: Slot| slot.id@)
}

/// `index` is where `id` first occurs in `ids`.
spec fn is_first(ids: Seq<Seq<char>>, id: Seq<char>, index: int) -> bool {
    &&& 0 <= index < ids.len()
    &&& ids[index] == id
    &&& forall|j: int| 0 <= j < index ==> ids[j] != id
}

/// The slots of each session: of a session that occurs more than once, the
/// first occurrence counts.
spec fn slot_map(slots: Seq<Slot>) -> Map<Seq<char>, TimelineView> {
    Map::new(
        |id: Seq<char>| exists|i: int| is_first(ids_of(slots), id, i),
        |id: Seq<char>| slots[choose|i: int| is_first(ids_of(slots), id, i)].timeline@,
    )
}

/// The single owner of the shared timeline and of every render slot. It
/// takes commands one at a time and in arrival order.
#[derive(Debug)]
pub struct TimelineManager {
    clips: Vec<String>,
    timelines: Vec<Slot>,
}

impl View for TimelineManager {
    type V = ManagerView;

    closed spec fn view(&self) -> ManagerView {
        ManagerView { clips: uris_of(self.clips@), slots: slot_map(self.timelines@) }
    }
}

impl TimelineManager {
    /// A manager with an empty timeline and no slots.
    pub fn new() -> (manager: TimelineManager)
        ensures
            manager@ == ManagerView::empty(),
            manager@.wf(),
    {
        let manager = TimelineManager { clips: Vec::new(), timelines: Vec::new() };
        assert(manager@.clips =~= Seq::empty());
        assert(manager@.slots =~= Map::empty());
        manager
    }

    /// Handles one command: says what the rendering engine has to do for
    /// it, and changes nothing yet. A clip is appended, a slot is
    /// registered and a state is recorded only when `complete` is told
    /// that the engine did its part. A state command for an unknown
    /// session is answered with `NotFound`.
    pub fn handle_command<B>(&mut self, command: Command<B>) -> (result: Result<
        EngineRequest<B>,
        Error,
    >)
        ensures
            final(self)@ == old(self)@,
            match result {
                Ok(request) => old(self)@.request_for(command@) == Ok::<RequestView, Error>(
                    request@,
                ),
                Err(error) => old(self)@.request_for(command@) == Err::<RequestView, Error>(
                    error,
                ),
            },
            command matches Command::AddPipeline(_, video_in, audio_in) ==> result matches Ok(
                EngineRequest::Build { id: _, video, audio },
            ) && video == video_in && audio == audio_in,
    {
        match command {
            Command::AddPipeline(id, video, audio) => Ok(EngineRequest::Build { id, video, audio }),
            Command::AddUriClip(uri) => Ok(EngineRequest::AppendClip { uri }),
            Command::Play(id) => {
                match self.find(&id) {
                    Some(_) => Ok(EngineRequest::SetState { id, state: PipelineState::Playing }),
                    None => Err(Error::NotFound),
                }
            },
            Command::Pause(id) => {
                match self.find(&id) {
                    Some(_) => Ok(EngineRequest::SetState { id, state: PipelineState::Paused }),
                    None => Err(Error::NotFound),
                }
            },
        }
    }

    /// Records the engine's answer to `request` and says what comes next.
    /// After a pipeline was built, its slot is registered and asked to
    /// play. A clip that the engine made is appended to the shared
    /// timeline and to every slot. An accepted state request shows in its
    /// slot. A rejected request changes nothing and is reported.
    pub fn complete<B>(&mut self, request: &EngineRequest<B>, accepted: bool) -> (result: Result<
        Option<EngineRequest<B>>,
        Error,
    >)
        ensures
            final(self)@ == old(self)@.complete(request@, accepted),
            old(self)@.wf() ==> final(self)@.wf(),
            match result {
                Ok(Some(next)) => old(self)@.follow_up(request@, accepted) == Ok::<
                    Option<RequestView>,
                    Error,
                >(Some(next@)),
                Ok(None) => old(self)@.follow_up(request@, accepted) == Ok::<
                    Option<RequestView>,
                    Error,
                >(None),
                Err(error) => old(self)@.follow_up(request@, accepted) == Err::<
                    Option<RequestView>,
                    Error,
                >(error),
            },
    {
        match request {
            EngineRequest::Build { id, video: _, audio: _ } => {
                if accepted {
                    self.add_timeline(id.clone());
                    Ok(Some(EngineRequest::SetState { id: id.clone(), state: PipelineState::Playing }))
                } else {
                    Err(Error::PipelineBuild)
                }
            },
            EngineRequest::AppendClip { uri } => {
                if accepted {
                    self.add_uri_clip(uri);
                    Ok(None)
                } else {
                    Err(Error::ClipRejected)
                }
            },
            EngineRequest::SetState { id, state } => {
                match self.find(id) {
                    Some(index) => {
                        let ghost before = self.timelines@;
                        let result = self.timelines[index].timeline.set_state(*state, accepted);
                        proof {
                            lemma_slot_replaced(before, self.timelines@, index as int);
                        }
                        match result {
                            Ok(()) => Ok(None),
                            Err(error) => Err(error),
                        }
                    },
                    None => Err(Error::NotFound),
                }
            },
        }
    }

    /// The state of the slot of session `id`, if it has one.
    pub fn state_of(&self, id: &String) -> (state: Option<PipelineState>)
        ensures
            match state {
                Some(s) => self@.slots.dom().contains(id@) && self@.slots[id@].state == s,
                None => !self@.slots.dom().contains(id@),
            },
    {
        match self.find(id) {
            Some(index) => Some(self.timelines[index].timeline.state()),
            None => None,
        }
    }

    /// Number of clips of the shared timeline.
    pub fn clip_count(&self) -> (count: usize)
        ensures
            count == self@.clips.len(),
    {
        self.clips.len()
    }

    /// The URI of the clip at `index` of the shared timeline, if there is one.
    pub fn clip_uri(&self, index: usize) -> (uri: Option<&String>)
        ensures
            match uri {
                Some(text) => index < self@.clips.len() && text@ == self@.clips[index as int],
                None => index >= self@.clips.len(),
            },
    {
        if index < self.clips.len() {
            Some(&self.clips[index])
        } else {
            None
        }
    }

    /// Where the slot of session `id` stands, if it has one.
    fn find(&self, id: &String) -> (found: Option<usize>)
        ensures
            match found {
                Some(index) => is_first(ids_of(self.timelines@), id@, index as int)
                    && self@.slots.dom().contains(id@) && self@.slots[id@]
                    == self.timelines@[index as int].timeline@,
                None => !self@.slots.dom().contains(id@) && forall|j: int|
                    0 <= j < self.timelines@.len() ==> ids_of(self.timelines@)[j] != id@,
            },
    {
        let mut index: usize = 0;
        while index < self.timelines.len()
            invariant
                index <= self.timelines@.len(),
                forall|j: int| 0 <= j < index ==> ids_of(self.timelines@)[j] != id@,
            decreases self.timelines@.len() - index,
        {
            if self.timelines[index].id == *id {
                proof {
                    lemma_first(self.timelines@, id@, index as int);
                }
                return Some(index);
            }
            index += 1;
        }
        proof {
            lemma_absent(self.timelines@, id@);
        }
        None
    }

    /// Registers a slot for session `id`, bound to the clips the timeline
    /// holds now. A session that has a slot gets the new one in its place.
    fn add_timeline(&mut self, id: String)
        ensures
            final(self)@ == old(self)@.complete(RequestView::Build(id@), true),
            old(self)@.wf() ==> final(self)@.wf(),
    {
        let mut timeline = Timeline::new();
        let mut next: usize = 0;
        assert(uris_of(self.clips@).take(0) =~= Seq::empty());
        while next < self.clips.len()
            invariant
                next <= self.clips@.len(),
                timeline@ == bound_timeline(uris_of(self.clips@).take(next as int)),
            decreases self.clips@.len() - next,
        {
            let uri = self.clips[next].clone();
            let _ = timeline.add_uri_clip(uri, true);
            assert(uris_of(self.clips@).take(next + 1) =~= uris_of(self.clips@).take(
                next as int,
            ).push(self.clips@[next as int]@));
            next += 1;
        }
        assert(uris_of(self.clips@).take(next as int) =~= uris_of(self.clips@));
        let ghost before = self.timelines@;
        match self.find(&id) {
            Some(index) => {
                self.timelines.set(index, Slot { id, timeline });
                proof {
                    lemma_slot_replaced(before, self.timelines@, index as int);
                }
            },
            None => {
                self.timelines.push(Slot { id, timeline });
                proof {
                    lemma_slot_pushed(before, self.timelines@);
                }
            },
        }
    }

    /// Appends a clip for `uri` to the shared timeline and to the timeline
    /// of every slot.
    fn add_uri_clip(&mut self, uri: &String)
        ensures
            final(self)@ == old(self)@.add_uri_clip(uri@),
            old(self)@.wf() ==> final(self)@.wf(),
    {
        let ghost before = self.timelines@;
        let ghost clips_before = self.clips@;
        self.clips.push(uri.clone());
        assert(uris_of(self.clips@) =~= uris_of(clips_before).push(uri@));
        let mut index: usize = 0;
        while index < self.timelines.len()
            invariant
                index <= self.timelines@.len(),
                self.timelines@.len() == before.len(),
                uris_of(self.clips@) == uris_of(clips_before).push(uri@),
                ids_of(self.timelines@) == ids_of(before),
                forall|j: int|
                    0 <= j < index ==> (#[trigger] self.timelines@[j]).timeline@
                        == before[j].timeline@.add_uri_clip(uri@),
                forall|j: int|
                    index <= j < before.len() ==> (#[trigger] self.timelines@[j]).timeline@
                        == before[j].timeline@,
            decreases self.timelines@.len() - index,
        {
            let ghost step = self.timelines@;
            let _ = self.timelines[index].timeline.add_uri_clip(uri.clone(), true);
            assert(ids_of(self.timelines@) =~= ids_of(step));
            index += 1;
        }
        proof {
            lemma_all_slots_extended(before, self.timelines@, uri@);
        }
    }
}

/// Where an identifier first occurs, it is what `slot_map` shows.
proof fn lemma_first(slots: Seq<Slot>, id: Seq<char>, index: int)
    requires
        is_first(ids_of(slots), id, index),
    ensures
        slot_map(slots).dom().contains(id),
        slot_map(slots)[id] == slots[index].timeline@,
{
    let chosen = choose|i: int| is_first(ids_of(slots), id, i);
    assert(chosen == index);
}

/// An identifier that occurs nowhere has no slot.
proof fn lemma_absent(slots: Seq<Slot>, id: Seq<char>)
    requires
        forall|j: int| 0 <= j < slots.len() ==> ids_of(slots)[j] != id,
    ensures
        !slot_map(slots).dom().contains(id),
{
}

/// Changing the timeline of the slot where its identifier first occurs
/// changes that session's entry and no other.
proof fn lemma_slot_replaced(before: Seq<Slot>, after: Seq<Slot>, index: int)
    requires
        0 <= index < before.len(),
        after.len() == before.len(),
        is_first(ids_of(before), after[index].id@, index),
        forall|j: int| 0 <= j < before.len() && j != index ==> after[j] == before[j],
    ensures
        slot_map(after) == slot_map(before).insert(after[index].id@, after[index].timeline@),
        ids_of(after) == ids_of(before),
{
    let id = after[index].id@;
    assert(ids_of(after) =~= ids_of(before));
    assert forall|key: Seq<char>| #[trigger]
        slot_map(after).dom().contains(key) <==> slot_map(before).insert(
            id,
            after[index].timeline@,
        ).dom().contains(key) by {
        if key == id {
            assert(is_first(ids_of(after), id, index));
        }
    }
    assert forall|key: Seq<char>| #[trigger]
        slot_map(after).dom().contains(key) implies slot_map(after)[key] == slot_map(
        before,
    ).insert(id, after[index].timeline@)[key] by {
        let chosen = choose|i: int| is_first(ids_of(after), key, i);
        if key == id {
            assert(is_first(ids_of(after), id, index));
            assert(chosen == index);
        } else {
            assert(chosen != index);
            lemma_first(before, key, chosen);
        }
    }
    assert(slot_map(after) =~= slot_map(before).insert(id, after[index].timeline@));
}

/// Registering a session that has no slot adds its entry and no other.
proof fn lemma_slot_pushed(before: Seq<Slot>, after: Seq<Slot>)
    requires
        after.len() == before.len() + 1,
        forall|j: int| 0 <= j < before.len() ==> after[j] == before[j],
        forall|j: int| 0 <= j < before.len() ==> ids_of(before)[j] != after.last().id@,
    ensures
        slot_map(after) == slot_map(before).insert(after.last().id@, after.last().timeline@),
{
    let id = after.last().id@;
    let last = before.len() as int;
    assert forall|key: Seq<char>, i: int|
        is_first(ids_of(before), key, i) implies is_first(ids_of(after), key, i) by {
        assert forall|j: int| 0 <= j < i implies ids_of(after)[j] != key by {
            assert(ids_of(before)[j] != key);
        }
    }
    assert forall|key: Seq<char>, i: int|
        key != id && is_first(ids_of(after), key, i) implies is_first(ids_of(before), key, i) by {
        assert(i != last);
        assert forall|j: int| 0 <= j < i implies ids_of(before)[j] != key by {
            assert(ids_of(after)[j] != key);
        }
    }
    assert(is_first(ids_of(after), id, last)) by {
        assert forall|j: int| 0 <= j < last implies ids_of(after)[j] != id by {
            assert(ids_of(before)[j] != id);
        }
    }
    assert forall|key: Seq<char>| #[trigger]
        slot_map(after).dom().contains(key) <==> slot_map(before).insert(
            id,
            after.last().timeline@,
        ).dom().contains(key) by {
        if key != id {
            if slot_map(after).dom().contains(key) {
                let i = choose|i: int| is_first(ids_of(after), key, i);
                assert(is_first(ids_of(before), key, i));
            }
            if slot_map(before).dom().contains(key) {
                let i = choose|i: int| is_first(ids_of(before), key, i);
                assert(is_first(ids_of(after), key, i));
            }
        }
    }
    assert forall|key: Seq<char>| #[trigger]
        slot_map(after).dom().contains(key) implies slot_map(after)[key] == slot_map(
        before,
    ).insert(id, after.last().timeline@)[key] by {
        let chosen = choose|i: int| is_first(ids_of(after), key, i);
        if key == id {
            assert(chosen == last);
        } else {
            assert(is_first(ids_of(before), key, chosen));
            lemma_first(before, key, chosen);
        }
    }
    assert(slot_map(after) =~= slot_map(before).insert(id, after.last().timeline@));
}

/// Appending a clip to the timeline of every slot appends it in every
/// session's entry.
proof fn lemma_all_slots_extended(before: Seq<Slot>, after: Seq<Slot>, uri: Seq<char>)
    requires
        after.len() == before.len(),
        ids_of(after) == ids_of(before),
        forall|j: int|
            0 <= j < before.len() ==> (#[trigger] after[j]).timeline@
                == before[j].timeline@.add_uri_clip(uri),
    ensures
        slot_map(after) == slot_map(before).map_values(
            |slot: TimelineView| slot.add_uri_clip(uri),
        ),
{
    let mapped = slot_map(before).map_values(|slot: TimelineView| slot.add_uri_clip(uri));
    assert forall|key: Seq<char>| #[trigger]
        slot_map(after).dom().contains(key) implies slot_map(after)[key] == mapped[key] by {
        let chosen = choose|i: int| is_first(ids_of(after), key, i);
        lemma_first(before, key, chosen);
        assert(after[chosen].timeline@ == before[chosen].timeline@.add_uri_clip(uri));
    }
    assert(slot_map(after) =~= mapped);
}

/// The events of one `AddUriClip` command for each of `uris`, each taken
/// to its end with an engine that makes every clip: the command is
/// handled, then the engine's acceptance is recorded.
pub open spec fn clip_commands(uris: Seq<Seq<char>>) -> Seq<Event>
    decreases uris.len(),
{
    if uris.len() == 0 {
        Seq::empty()
    } else {
        seq![
            Event::Command(CommandView::AddUriClip(uris[0])),
            Event::Completion(RequestView::AppendClip(uris[0]), true),
        ] + clip_commands(uris.drop_first())
    }
}

/// The events of recording an accepted request to bring the slot of `id`
/// to each of `targets`.
pub open spec fn state_requests(id: Seq<char>, targets: Seq<PipelineState>) -> Seq<Event> {
    targets.map_values(
        |target: PipelineState| Event::Completion(RequestView::SetState(id, target), true),
    )
}

/// Whatever the control loop goes through, it stays well formed: every slot
/// shows exactly the clips of the shared timeline.
pub proof fn lemma_run_preserves_wf(manager: ManagerView, events: Seq<Event>)
    requires
        manager.wf(),
    ensures
        manager.run(events).wf(),
    decreases events.len(),
{
    if events.len() > 0 {
        lemma_run_preserves_wf(manager.apply(events[0]), events.drop_first());
    }
}

/// The timeline is append-only: whatever the control loop goes through, its
/// clips afterwards are its clips before, followed by one clip for each
/// request to append that the engine accepted, in the order of the
/// requests. None is lost, none is doubled, a clip that the engine
/// rejected is not there, and nothing else adds or removes a clip.
pub proof fn lemma_clips_follow_commands(manager: ManagerView, events: Seq<Event>)
    ensures
        manager.run(events).clips == manager.clips + added_uris(events),
    decreases events.len(),
{
    if events.len() == 0 {
        assert(manager.clips + added_uris(events) =~= manager.clips);
    } else {
        let next = manager.apply(events[0]);
        let rest = events.drop_first();
        lemma_clips_follow_commands(next, rest);
        assert(next.clips + added_uris(rest) =~= manager.clips + added_uris(events));
    }
}

/// After `AddUriClip` commands for `uris` and nothing else, each taken to
/// its end with an engine that makes every clip, a manager that started
/// empty holds exactly `uris`: as many clips as there were commands.
pub proof fn lemma_clip_count(uris: Seq<Seq<char>>)
    ensures
        ManagerView::empty().run(clip_commands(uris)).clips == uris,
        ManagerView::empty().run(clip_commands(uris)).clips.len() == uris.len(),
{
    lemma_clips_follow_commands(ManagerView::empty(), clip_commands(uris));
    lemma_added_uris_of_clip_commands(uris);
    assert(Seq::<Seq<char>>::empty() + uris =~= uris);
}

proof fn lemma_added_uris_of_clip_commands(uris: Seq<Seq<char>>)
    ensures
        added_uris(clip_commands(uris)) == uris,
    decreases uris.len(),
{
    if uris.len() == 0 {
        assert(added_uris(clip_commands(uris)) =~= uris);
    } else {
        let rest = clip_commands(uris.drop_first());
        let events = clip_commands(uris);
        let accepted = Event::Completion(RequestView::AppendClip(uris[0]), true);
        lemma_added_uris_of_clip_commands(uris.drop_first());
        assert(events.drop_first() =~= seq![accepted] + rest);
        assert(events.drop_first().drop_first() =~= rest);
        assert(added_uris(events.drop_first()) == seq![uris[0]] + added_uris(rest));
        assert(seq![uris[0]] + uris.drop_first() =~= uris);
    }
}

/// A slot is created playing: when the engine has built the pipeline of a
/// session and accepted the request to play that follows, the session has
/// a slot that plays and shows every clip of the timeline. When the engine
/// could not build the pipeline, nothing is registered.
pub proof fn lemma_created_slot_plays(manager: ManagerView, id: Seq<char>)
    ensures
        manager.request_for(CommandView::AddPipeline(id)) == Ok::<RequestView, Error>(
            RequestView::Build(id),
        ),
        manager.follow_up(RequestView::Build(id), true) == Ok::<Option<RequestView>, Error>(
            Some(RequestView::SetState(id, PipelineState::Playing)),
        ),
        manager.complete(RequestView::Build(id), true).complete(
            RequestView::SetState(id, PipelineState::Playing),
            true,
        ).slots[id] == (TimelineView {
            state: PipelineState::Playing,
            ..bound_timeline(manager.clips)
        }),
        manager.follow_up(RequestView::Build(id), false) == Err::<Option<RequestView>, Error>(
            Error::PipelineBuild,
        ),
        manager.complete(RequestView::Build(id), false) == manager,
{
}

/// Of any number of accepted state requests for one slot, only the last
/// shows: the manager ends as if that request alone had been made.
pub proof fn lemma_last_state_request_wins(
    manager: ManagerView,
    id: Seq<char>,
    targets: Seq<PipelineState>,
)
    requires
        manager.slots.dom().contains(id),
        targets.len() > 0,
    ensures
        manager.run(state_requests(id, targets)) == manager.complete(
            RequestView::SetState(id, targets.last()),
            true,
        ),
        manager.run(state_requests(id, targets)).slots[id].state == targets.last(),
    decreases targets.len(),
{
    let events = state_requests(id, targets);
    let next = manager.apply(events[0]);
    let last = manager.complete(RequestView::SetState(id, targets.last()), true);
    assert(events[0] == Event::Completion(RequestView::SetState(id, targets[0]), true));
    assert(manager.run(events) == next.run(events.drop_first()));
    if targets.len() == 1 {
        assert(events.drop_first().len() == 0);
        assert(next.run(events.drop_first()) == next);
    } else {
        let rest = targets.drop_first();
        assert(events.drop_first() =~= state_requests(id, rest));
        lemma_last_state_request_wins(next, id, rest);
        assert(rest.last() == targets.last());
        assert(next.complete(RequestView::SetState(id, targets.last()), true).slots =~= last.slots);
    }
}

/// Play, then pause: the slot ends paused, exactly as if only the pause had
/// been asked for, and asking again for the state it is in changes nothing.
pub proof fn lemma_play_then_pause(manager: ManagerView, id: Seq<char>)
    requires
        manager.slots.dom().contains(id),
    ensures
        ({
            let play = RequestView::SetState(id, PipelineState::Playing);
            let pause = RequestView::SetState(id, PipelineState::Paused);
            let played = manager.complete(play, true);
            let paused = played.complete(pause, true);
            &&& paused.slots[id].state == PipelineState::Paused
            &&& paused == manager.complete(pause, true)
            &&& paused.complete(pause, true) == paused
            &&& played.complete(play, true) == played
            &&& played.complete(play, true).complete(pause, true).complete(pause, true) == paused
        }),
{
    let play = RequestView::SetState(id, PipelineState::Playing);
    let pause = RequestView::SetState(id, PipelineState::Paused);
    let played = manager.complete(play, true);
    let paused = played.complete(pause, true);
    assert(paused.slots =~= manager.complete(pause, true).slots);
    assert(paused.complete(pause, true).slots =~= paused.slots);
    assert(played.complete(play, true).slots =~= played.slots);
}

/// A state command for a session without a slot is answered with
/// `NotFound` and leaves no trace: what is handled after it goes exactly as
/// it would have gone without it.
pub proof fn lemma_unknown_session_ignored(manager: ManagerView, id: Seq<char>, later: Seq<Event>)
    requires
        !manager.slots.dom().contains(id),
    ensures
        manager.request_for(CommandView::Pause(id)) == Err::<RequestView, Error>(Error::NotFound),
        manager.request_for(CommandView::Play(id)) == Err::<RequestView, Error>(Error::NotFound),
        manager.run(seq![Event::Command(CommandView::Pause(id))] + later) == manager.run(later),
        manager.run(seq![Event::Command(CommandView::Play(id))] + later) == manager.run(later),
{
    let paused = seq![Event::Command(CommandView::Pause(id))] + later;
    assert(paused.drop_first() =~= later);
    let played = seq![Event::Command(CommandView::Play(id))] + later;
    assert(played.drop_first() =~= later);
}

/// A request that the engine rejected changes nothing: no clip, no slot
/// and no state is recorded for it.
pub proof fn lemma_rejected_request_changes_nothing(manager: ManagerView, request: RequestView)
    ensures
        manager.complete(request, false) == manager,
        manager.follow_up(request, false) is Err,
{
    assert(manager.complete(request, false).slots =~= manager.slots);
}

} // verus!
