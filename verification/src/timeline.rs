use vstd::prelude::*;

use crate::error::Error;
use crate::media::PipelineState;

verus! {

/// The clip URIs of `clips`, each as a sequence of characters.
pub open spec fn uris_of(clips: Seq<String>) -> Seq<Seq<char>> {
    clips.map_values(|uri: String| uri@)
}

/// What a timeline is, mathematically.
pub struct TimelineView {
    /// Number of layers. Clips live in the first one.
    pub layers: nat,
    /// The clips of the first layer, in playback order.
    pub clips: Seq<Seq<char>>,
    /// The state of the pipeline that renders the timeline.
    pub state: PipelineState,
}

impl TimelineView {
    /// A clip is only ever held by a layer.
    pub open spec fn wf(self) -> bool {
        self.clips.len() > 0 ==> self.layers >= 1
    }

    pub open spec fn empty() -> TimelineView {
        TimelineView { layers: 0, clips: Seq::empty(), state: PipelineState::Null }
    }

    /// The timeline with `uri` appended; the first layer is made if missing.
    pub open spec fn add_uri_clip(self, uri: Seq<char>) -> TimelineView {
        TimelineView {
            layers: if self.layers == 0 {
                1
            } else {
                self.layers
            },
            clips: self.clips.push(uri),
            ..self
        }
    }

    /// The timeline after the engine answered a request to append a clip
    /// for `uri`: only a clip that the engine made is on the timeline.
    pub open spec fn clip_answered(self, uri: Seq<char>, accepted: bool) -> TimelineView {
        if accepted {
            self.add_uri_clip(uri)
        } else {
            self
        }
    }

    /// The timeline after the engine answered a request for `target`.
    pub open spec fn set_state(self, target: PipelineState, accepted: bool) -> TimelineView {
        if accepted {
            TimelineView { state: target, ..self }
        } else {
            self
        }
    }
}

/// One session's render slot: an append-only run of clips and the state of
/// the pipeline that renders them.
#[derive(Debug)]
pub struct Timeline {
    layers: usize,
    clips: Vec<String>,
    state: PipelineState,
}

impl View for Timeline {
    type V = TimelineView;

    closed spec fn view(&self) -> TimelineView {
        TimelineView { layers: self.layers as nat, clips: uris_of(self.clips@), state: self.state }
    }
}

impl Timeline {
    /// A timeline without layers or clips whose pipeline has not started.
    pub fn new() -> (timeline: Timeline)
        ensures
            timeline@ == TimelineView::empty(),
    {
        let timeline = Timeline { layers: 0, clips: Vec::new(), state: PipelineState::Null };
        assert(timeline@.clips =~= Seq::empty());
        timeline
    }

    /// Records the engine's answer to a request to append a clip for
    /// `uri`. A clip that the engine made goes behind all others in the
    /// first layer, which is made first if the timeline has none. Where
    /// the engine could make no clip, nothing is added, no layer either,
    /// and the rejection is reported.
    pub fn add_uri_clip(&mut self, uri: String, accepted: bool) -> (result: Result<(), Error>)
        ensures
            final(self)@ == old(self)@.clip_answered(uri@, accepted),
            old(self)@.wf() ==> final(self)@.wf(),
            result == (if accepted {
                Ok::<(), Error>(())
            } else {
                Err(Error::ClipRejected)
            }),
    {
        if accepted {
            let ghost before = self@;
            if self.layers == 0 {
                self.layers = 1;
            }
            self.clips.push(uri);
            assert(self@.clips =~= before.clips.push(uri@));
            Ok(())
        } else {
            Err(Error::ClipRejected)
        }
    }

    /// Records the engine's answer to a request to play. An accepted
    /// request leaves the pipeline playing, whatever it did before; a
    /// rejected one changes nothing and is reported.
    pub fn play(&mut self, accepted: bool) -> (result: Result<(), Error>)
        ensures
            final(self)@ == old(self)@.set_state(PipelineState::Playing, accepted),
            result == (if accepted {
                Ok::<(), Error>(())
            } else {
                Err(Error::StateTransition)
            }),
    {
        self.set_state(PipelineState::Playing, accepted)
    }

    /// Records the engine's answer to a request to pause. An accepted
    /// request leaves the pipeline paused, whatever it did before; a
    /// rejected one changes nothing and is reported.
    pub fn pause(&mut self, accepted: bool) -> (result: Result<(), Error>)
        ensures
            final(self)@ == old(self)@.set_state(PipelineState::Paused, accepted),
            result == (if accepted {
                Ok::<(), Error>(())
            } else {
                Err(Error::StateTransition)
            }),
    {
        self.set_state(PipelineState::Paused, accepted)
    }

    /// Records the engine's answer to a request for `target`.
    pub fn set_state(&mut self, target: PipelineState, accepted: bool) -> (result: Result<
        (),
        Error,
    >)
        ensures
            final(self)@ == old(self)@.set_state(target, accepted),
            result == (if accepted {
                Ok::<(), Error>(())
            } else {
                Err(Error::StateTransition)
            }),
    {
        if accepted {
            self.state = target;
            Ok(())
        } else {
            Err(Error::StateTransition)
        }
    }

    pub fn state(&self) -> (state: PipelineState)
        ensures
            state == self@.state,
    {
        self.state
    }

    pub fn layer_count(&self) -> (layers: usize)
        ensures
            layers == self@.layers,
    {
        self.layers
    }

    pub fn clip_count(&self) -> (count: usize)
        ensures
            count == self@.clips.len(),
    {
        self.clips.len()
    }

    /// The URI of the clip at `index`, if there is one.
    pub fn clip_uri(&self, index: usize) -> (uri: Option<&String>)
        ensures
            match uri {
                Some(text) => index < self@.clips.len() && text@ == self@.clips[index as int],
                None => index >= self@.clips.len(),
            },
    {
        if index < self.clips.len() {
            Some(&self.clips[index])
        } else {
            None
        }
    }
}

/// Idempotence of state requests: an accepted request leaves the same
/// timeline whether it is made once or twice, and of two accepted requests
/// in a row only the second shows.
pub proof fn lemma_set_state_idempotent(
    timeline: TimelineView,
    first: PipelineState,
    second: PipelineState,
)
    ensures
        timeline.set_state(second, true).set_state(second, true) == timeline.set_state(
            second,
            true,
        ),
        timeline.set_state(first, true).set_state(second, true) == timeline.set_state(
            second,
            true,
        ),
        timeline.set_state(second, true).state == second,
{
}

} // verus!
