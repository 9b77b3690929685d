use vstd::prelude::*;

use crate::connection::{Connection, ConnectionView, SessionState};
use crate::connection_pool::{has_session, ConnectionPool, ForwardingTask};
use crate::error::{error_text, Error};
use crate::media::MediaKind;
use crate::timeline_manager::Command;

verus! {

/// Status of the answer to a negotiation request that succeeded.
pub const STATUS_CREATED: u16 = 201;

/// Status of the answer to a negotiation request that failed.
pub const STATUS_INTERNAL_SERVER_ERROR: u16 = 500;

/// What the signaling endpoint answers.
#[derive(Debug)]
pub enum SignalingReply<D> {
    /// The local description, to be sent as the body.
    Created(D),
    /// The text of the member `error` of the body.
    Failed(&'static str),
}

impl<D> SignalingReply<D> {
    /// The status code of the answer.
    pub fn status(&self) -> (code: u16)
        ensures
            code == (if self is Created {
                STATUS_CREATED
            } else {
                STATUS_INTERNAL_SERVER_ERROR
            }),
    {
        match self {
            SignalingReply::Created(_) => STATUS_CREATED,
            SignalingReply::Failed(_) => STATUS_INTERNAL_SERVER_ERROR,
        }
    }
}

/// Everything that follows from one negotiation request.
#[derive(Debug)]
pub struct Signaled<D, B> {
    /// The answer to the peer.
    pub reply: SignalingReply<D>,
    /// The command that creates the session's render slot.
    pub command: Option<Command<B>>,
    /// The tasks that forward the session's video and audio samples.
    pub tasks: Option<(ForwardingTask, ForwardingTask)>,
}

/// The error that ends a negotiation request, if any: the session was not
/// negotiating, no local description materialized, or its identifier is
/// taken.
pub open spec fn signaling_error(
    sessions: Seq<ConnectionView>,
    session: ConnectionView,
    described: bool,
) -> Option<Error> {
    if session.state != SessionState::Negotiating {
        Some(Error::InvalidState)
    } else if !described {
        Some(Error::Negotiation)
    } else if has_session(sessions, session.id) {
        Some(Error::Duplicate)
    } else {
        None
    }
}

/// Concludes a negotiation request for `connection`, whose transport ended
/// negotiation with `local_description`.
///
/// On success the session is registered as active, the peer is answered
/// with the description, both forwarding tasks are named, and the command
/// that creates the render slot carries the producer ends `video` and
/// `audio` of the two bridges. On failure the peer gets the error's text
/// and nothing else happens: no session, no task, no command.
pub fn create_user<D, B>(
    pool: &mut ConnectionPool,
    connection: Connection,
    local_description: Option<D>,
    video: B,
    audio: B,
) -> (signaled: Signaled<D, B>)
    ensures
        match signaling_error(old(pool)@, connection@, local_description is Some) {
            None => {
                &&& final(pool)@ == old(pool)@.push(
                    (ConnectionView { id: connection@.id, state: SessionState::Active }),
                )
                &&& signaled.reply matches SignalingReply::Created(description)
                &&& local_description == Some(description)
                &&& signaled.command matches Some(Command::AddPipeline(id, video_out, audio_out))
                &&& id@ == connection@.id
                &&& video_out == video
                &&& audio_out == audio
                &&& signaled.tasks matches Some((video_task, audio_task))
                &&& video_task.session@ == connection@.id
                &&& video_task.kind == MediaKind::Video
                &&& audio_task.session@ == connection@.id
                &&& audio_task.kind == MediaKind::Audio
            },
            Some(error) => {
                &&& final(pool)@ == old(pool)@
                &&& signaled.reply matches SignalingReply::Failed(text)
                &&& text@ == error_text(error)
                &&& signaled.command is None
                &&& signaled.tasks is None
            },
        },
{
    match pool.create_connection(connection, local_description) {
        Ok((id, description)) => {
            assert(pool@.last().id == id@);
            match pool.set_video_buffer_handler(&id) {
                Ok(video_task) => match pool.set_audio_buffer_handler(&id) {
                    Ok(audio_task) => Signaled {
                        reply: SignalingReply::Created(description),
                        command: Some(Command::AddPipeline(id, video, audio)),
                        tasks: Some((video_task, audio_task)),
                    },
                    Err(error) => refuse(error),
                },
                Err(error) => refuse(error),
            }
        },
        Err(error) => refuse(error),
    }
}

/// The outcome of a negotiation request that failed with `error`, in the
/// library or at the transport: the peer gets the error's text, and there
/// is no command and no task.
pub fn refuse<D, B>(error: Error) -> (signaled: Signaled<D, B>)
    ensures
        signaled.reply matches SignalingReply::Failed(text) && text@ == error_text(error),
        signaled.command is None,
        signaled.tasks is None,
{
    Signaled { reply: SignalingReply::Failed(error.describe()), command: None, tasks: None }
}

} // verus!
