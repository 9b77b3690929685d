use vstd::prelude::*;

use crate::bridge::Bridge;
use crate::error::Error;
use crate::media::{MediaKind, SampleBuffer};
use crate::timeline_manager::{Command, CommandView};

verus! {

/// Where a session stands in its life.
#[derive(Clone, Copy, Debug, PartialEq, Eq, Structural)]
pub enum SessionState {
    /// The transport handle exists and the tracks are registered.
    Created,
    /// A remote offer was accepted; the local answer is being gathered.
    Negotiating,
    /// The local description was returned to the caller.
    Active,
    /// The session was closed, or its transport failed.
    Closed,
}

/// The state of the transport connection, as the transport reports it.
#[derive(Clone, Copy, Debug, PartialEq, Eq, Structural)]
pub enum TransportState {
    New,
    Connecting,
    Connected,
    Disconnected,
    Failed,
    Closed,
}

/// How a write to a track ended.
#[derive(Clone, Copy, Debug, PartialEq, Eq, Structural)]
pub enum WriteOutcome {
    /// The transport took the sample.
    Written,
    /// The transport is closed.
    TransportClosed,
    /// The transport failed for another reason.
    Failed,
}

/// What a forwarding task does after a write.
#[derive(Clone, Copy, Debug, PartialEq, Eq, Structural)]
pub enum Forwarding {
    Continue,
    Stop,
}

/// The body of a control message, as far as commands read it.
#[derive(Debug)]
pub struct Payload {
    /// The member `uri`, where the body has one and it is a string.
    pub uri: Option<String>,
}

/// A control message that a peer sent over its data channel.
#[derive(Debug)]
pub struct CommandJson {
    pub name: String,
    pub payload: Option<Payload>,
}

/// A control message, mathematically.
pub struct MessageView {
    pub name: Seq<char>,
    /// `None` without a body, `Some(None)` with a body that lacks a `uri`.
    pub uri: Option<Option<Seq<char>>>,
}

impl View for CommandJson {
    type V = MessageView;

    open spec fn view(&self) -> MessageView {
        MessageView {
            name: self.name@,
            uri: match self.payload {
                Some(payload) => Some(
                    match payload.uri {
                        Some(uri) => Some(uri@),
                        None => None,
                    },
                ),
                None => None,
            },
        }
    }
}

/// The command that a message from session `id` stands for: `play` and
/// `pause` address the sender's own slot, `add_uri_clip` needs a body with
/// a `uri`, and a message of any other name stands for nothing.
pub open spec fn command_of(id: Seq<char>, message: MessageView) -> Result<
    Option<CommandView>,
    Error,
> {
    if message.name == "play"@ {
        Ok(Some(CommandView::Play(id)))
    } else if message.name == "pause"@ {
        Ok(Some(CommandView::Pause(id)))
    } else if message.name == "add_uri_clip"@ {
        match message.uri {
            Some(Some(uri)) => Ok(Some(CommandView::AddUriClip(uri))),
            _ => Err(Error::MalformedMessage),
        }
    } else {
        Ok(None)
    }
}

pub open spec fn is_lower_hex(c: char) -> bool {
    ('0' <= c && c <= '9') || ('a' <= c && c <= 'f')
}

/// The shape of a session identifier: a random (version 4) UUID in its
/// hyphenated lower-case form, `xxxxxxxx-xxxx-4xxx-yxxx-xxxxxxxxxxxx`.
pub open spec fn is_session_id(id: Seq<char>) -> bool {
    &&& id.len() == 36
    &&& forall|i: int|
        0 <= i < 36 ==> if i == 8 || i == 13 || i == 18 || i == 23 {
            id[i] == '-'
        } else {
            is_lower_hex(#[trigger] id[i])
        }
    &&& id[14] == '4'
    &&& (id[19] == '8' || id[19] == '9' || id[19] == 'a' || id[19] == 'b')
}

/// Calls `uuid::Uuid::new_v4` and renders the result with `to_string`.
///
/// The identifier is random, so the contract only states its shape: the 36
/// characters of the hyphenated lower-case form, with the version digit `4`
/// and a variant digit of `8`, `9`, `a` or `b`. That two calls give
/// different identifiers is overwhelmingly likely and not claimed.
#[verifier::external_body]
fn new_session_id() -> (id: String)
    ensures
        is_session_id(id@),
{
    uuid::Uuid::new_v4().to_string()
}

/// A session, mathematically.
pub struct ConnectionView {
    pub id: Seq<char>,
    pub state: SessionState,
}

impl ConnectionView {
    /// The session after the transport accepted the remote offer.
    pub open spec fn accept_offer(self) -> ConnectionView {
        if self.state == SessionState::Created {
            ConnectionView { state: SessionState::Negotiating, ..self }
        } else {
            self
        }
    }

    /// The session after negotiation ended with or without a description.
    pub open spec fn connect(self, described: bool) -> ConnectionView {
        if self.state == SessionState::Negotiating && described {
            ConnectionView { state: SessionState::Active, ..self }
        } else {
            self
        }
    }

    pub open spec fn close(self) -> ConnectionView {
        ConnectionView { state: SessionState::Closed, ..self }
    }

    /// Whether the session has begun to live and has not become active.
    pub open spec fn is_pending(self) -> bool {
        self.state == SessionState::Created || self.state == SessionState::Negotiating
    }

    /// The session after the caller's deadline for negotiation passed: a
    /// session that was still pending is closed.
    pub open spec fn negotiation_timed_out(self) -> ConnectionView {
        if self.is_pending() {
            self.close()
        } else {
            self
        }
    }

    /// The session after the transport reported `state`: a failed or
    /// closed transport closes the session, anything else leaves it.
    pub open spec fn transport_changed(self, state: TransportState) -> ConnectionView {
        if state == TransportState::Failed || state == TransportState::Closed {
            self.close()
        } else {
            self
        }
    }

    /// The session after a write ended with `outcome`: a closed transport
    /// closes the session, anything else leaves it.
    pub open spec fn forwarded(self, outcome: WriteOutcome) -> ConnectionView {
        if outcome == WriteOutcome::TransportClosed {
            self.close()
        } else {
            self
        }
    }
}

/// One client's session: its identifier and its negotiation state. The
/// transport connection and its tracks stay with the caller, who reports
/// what they did.
#[derive(Debug)]
pub struct Connection {
    id: String,
    state: SessionState,
}

impl View for Connection {
    type V = ConnectionView;

    closed spec fn view(&self) -> ConnectionView {
        ConnectionView { id: self.id@, state: self.state }
    }
}

impl Connection {
    /// A session in state `Created` under a fresh identifier.
    pub fn new() -> (connection: Connection)
        ensures
            connection@.state == SessionState::Created,
            is_session_id(connection@.id),
    {
        Connection { id: new_session_id(), state: SessionState::Created }
    }

    /// A session in state `Created` under the identifier `id`.
    pub fn with_id(id: String) -> (connection: Connection)
        ensures
            connection@ == (ConnectionView { id: id@, state: SessionState::Created }),
    {
        Connection { id, state: SessionState::Created }
    }

    pub fn state(&self) -> (state: SessionState)
        ensures
            state == self@.state,
    {
        self.state
    }

    /// The identifier of the session.
    pub fn id(&self) -> (id: &String)
        ensures
            id@ == self@.id,
    {
        &self.id
    }

    /// Records that the transport accepted the remote offer. Only a session
    /// that was just created can start to negotiate.
    pub fn accept_offer(&mut self) -> (result: Result<(), Error>)
        ensures
            final(self)@ == old(self)@.accept_offer(),
            result == (if old(self)@.state == SessionState::Created {
                Ok::<(), Error>(())
            } else {
                Err(Error::InvalidState)
            }),
    {
        match self.state {
            SessionState::Created => {
                self.state = SessionState::Negotiating;
                Ok(())
            },
            _ => Err(Error::InvalidState),
        }
    }

    /// Ends negotiation with the local description that the transport
    /// holds once gathering is complete. With a description the session
    /// becomes active and the description is handed back for the peer;
    /// without one, negotiation has failed and the session stays as it is.
    pub fn connect<D>(&mut self, local_description: Option<D>) -> (result: Result<D, Error>)
        ensures
            final(self)@ == old(self)@.connect(local_description is Some),
            match result {
                Ok(description) => old(self)@.state == SessionState::Negotiating
                    && local_description == Some(description),
                Err(error) => if old(self)@.state != SessionState::Negotiating {
                    error == Error::InvalidState
                } else {
                    error == Error::Negotiation && local_description is None
                },
            },
    {
        match self.state {
            SessionState::Negotiating => match local_description {
                Some(description) => {
                    self.state = SessionState::Active;
                    Ok(description)
                },
                None => Err(Error::Negotiation),
            },
            _ => Err(Error::InvalidState),
        }
    }

    /// Records that the caller's deadline for negotiation has passed. A
    /// session that was still pending is closed and the timeout is the
    /// error to report; for any other session the deadline means nothing.
    pub fn negotiation_timed_out(&mut self) -> (error: Error)
        ensures
            final(self)@ == old(self)@.negotiation_timed_out(),
            error == (if old(self)@.is_pending() {
                Error::NegotiationTimeout
            } else {
                Error::InvalidState
            }),
    {
        match self.state {
            SessionState::Created | SessionState::Negotiating => {
                self.state = SessionState::Closed;
                Error::NegotiationTimeout
            },
            _ => Error::InvalidState,
        }
    }

    /// Closes the session, whatever state it is in.
    pub fn close(&mut self)
        ensures
            final(self)@ == old(self)@.close(),
    {
        self.state = SessionState::Closed;
    }

    /// Tears the session down: the session is closed, and so are its two
    /// bridges, so that the next send of either producer meets `Closed`.
    /// What the bridges hold stays for their consumers to drain.
    pub fn shut_down(&mut self, video: &mut Bridge, audio: &mut Bridge)
        ensures
            final(self)@ == old(self)@.close(),
            final(video)@ == old(video)@.close(),
            final(audio)@ == old(audio)@.close(),
    {
        self.state = SessionState::Closed;
        video.close();
        audio.close();
    }

    /// Records a change of the transport's connection state and says
    /// whether it closed the session.
    pub fn transport_changed(&mut self, state: TransportState) -> (closed: bool)
        ensures
            final(self)@ == old(self)@.transport_changed(state),
            closed == (state == TransportState::Failed || state == TransportState::Closed),
    {
        match state {
            TransportState::Failed | TransportState::Closed => {
                self.state = SessionState::Closed;
                true
            },
            _ => false,
        }
    }

    /// Tags `data` for the video track, unless the session is closed.
    pub fn write_video_buffer(&self, data: Vec<u8>) -> (result: Result<SampleBuffer, Error>)
        ensures
            match result {
                Ok(sample) => self@.state != SessionState::Closed && sample.kind
                    == MediaKind::Video && sample.data == data,
                Err(error) => self@.state == SessionState::Closed && error == Error::Write,
            },
    {
        self.tag(MediaKind::Video, data)
    }

    /// Tags `data` for the audio track, unless the session is closed.
    pub fn write_audio_buffer(&self, data: Vec<u8>) -> (result: Result<SampleBuffer, Error>)
        ensures
            match result {
                Ok(sample) => self@.state != SessionState::Closed && sample.kind
                    == MediaKind::Audio && sample.data == data,
                Err(error) => self@.state == SessionState::Closed && error == Error::Write,
            },
    {
        self.tag(MediaKind::Audio, data)
    }

    fn tag(&self, kind: MediaKind, data: Vec<u8>) -> (result: Result<SampleBuffer, Error>)
        ensures
            match result {
                Ok(sample) => self@.state != SessionState::Closed && sample.kind == kind
                    && sample.data == data,
                Err(error) => self@.state == SessionState::Closed && error == Error::Write,
            },
    {
        match self.state {
            SessionState::Closed => Err(Error::Write),
            _ => Ok(SampleBuffer { kind, data }),
        }
    }

    /// Records how a write to a track ended and tells the forwarding task
    /// how to go on. A closed transport closes the session and stops the
    /// task without an error; any other failure is reported.
    pub fn forwarded(&mut self, outcome: WriteOutcome) -> (result: Result<Forwarding, Error>)
        ensures
            final(self)@ == old(self)@.forwarded(outcome),
            result == (match outcome {
                WriteOutcome::Written => Ok::<Forwarding, Error>(Forwarding::Continue),
                WriteOutcome::TransportClosed => Ok::<Forwarding, Error>(Forwarding::Stop),
                WriteOutcome::Failed => Err::<Forwarding, Error>(Error::Write),
            }),
    {
        match outcome {
            WriteOutcome::Written => Ok(Forwarding::Continue),
            WriteOutcome::TransportClosed => {
                self.state = SessionState::Closed;
                Ok(Forwarding::Stop)
            },
            WriteOutcome::Failed => Err(Error::Write),
        }
    }

    /// The command that `message`, received from this session's peer,
    /// stands for.
    pub fn command_for<B>(&self, message: &CommandJson) -> (result: Result<
        Option<Command<B>>,
        Error,
    >)
        ensures
            match result {
                Ok(Some(command)) => command_of(self@.id, message@) == Ok::<
                    Option<CommandView>,
                    Error,
                >(Some(command@)) && !(command is AddPipeline),
                Ok(None) => command_of(self@.id, message@) == Ok::<Option<CommandView>, Error>(
                    None,
                ),
                Err(error) => command_of(self@.id, message@) == Err::<
                    Option<CommandView>,
                    Error,
                >(error),
            },
    {
        let play = "play".to_owned();
        let pause = "pause".to_owned();
        let add_uri_clip = "add_uri_clip".to_owned();
        if message.name == play {
            Ok(Some(Command::Play(self.id.clone())))
        } else if message.name == pause {
            Ok(Some(Command::Pause(self.id.clone())))
        } else if message.name == add_uri_clip {
            match &message.payload {
                Some(payload) => match &payload.uri {
                    Some(uri) => Ok(Some(Command::AddUriClip(uri.clone()))),
                    None => Err(Error::MalformedMessage),
                },
                None => Err(Error::MalformedMessage),
            }
        } else {
            Ok(None)
        }
    }
}

/// A closed session stays closed: no report from the transport, no write
/// and no attempt to negotiate brings it back.
pub proof fn lemma_closed_is_final(
    session: ConnectionView,
    state: TransportState,
    outcome: WriteOutcome,
    described: bool,
)
    requires
        session.state == SessionState::Closed,
    ensures
        session.accept_offer() == session,
        session.connect(described) == session,
        session.transport_changed(state) == session,
        session.forwarded(outcome) == session,
        session.negotiation_timed_out() == session,
        session.close() == session,
{
}

/// The only way to `Active` leads over `Negotiating`, and the only way to
/// `Negotiating` leads from `Created`: a session is active after `connect`
/// exactly if it was active before, or was negotiating and a local
/// description materialized.
pub proof fn lemma_active_after_negotiation(session: ConnectionView, described: bool)
    ensures
        session.connect(described).state == SessionState::Active <==> session.state
            == SessionState::Active || (session.state == SessionState::Negotiating && described),
        session.accept_offer().state == SessionState::Negotiating <==> session.state
            == SessionState::Negotiating || session.state == SessionState::Created,
        session.accept_offer().state == SessionState::Active <==> session.state
            == SessionState::Active,
{
}

} // verus!
