use vstd::prelude::*;

use crate::connection::{
    Connection, ConnectionView, Forwarding, SessionState, TransportState, WriteOutcome,
};
use crate::error::Error;
use crate::media::MediaKind;

verus! {

/// The task that drains one bridge of a session into one of its tracks.
#[derive(Debug)]
pub struct ForwardingTask {
    /// The session whose track is written.
    pub session: String,
    /// The track, and the bridge, by the kind of media they carry.
    pub kind: MediaKind,
}

/// Whether a session with identifier `id` is among `sessions`.
pub open spec fn has_session(sessions: Seq<ConnectionView>, id: Seq<char>) -> bool {
    exists|i: int| 0 <= i < sessions.len() && (#[trigger] sessions[i]).id == id
}

/// At most one session per identifier.
pub open spec fn distinct_ids(sessions: Seq<ConnectionView>) -> bool {
    forall|i: int, j: int|
        0 <= i < j < sessions.len() ==> (#[trigger] sessions[i]).id != (#[trigger] sessions[j]).id
}

/// `index` is where a session with identifier `id` first stands.
pub open spec fn first_session(sessions: Seq<ConnectionView>, id: Seq<char>, index: int) -> bool {
    &&& 0 <= index < sessions.len()
    &&& sessions[index].id == id
    &&& forall|j: int| 0 <= j < index ==> (#[trigger] sessions[j]).id != id
}

/// The sessions of `connections`, each by its view.
pub open spec fn sessions_of(connections: Seq<Connection>) -> Seq<ConnectionView> {
    connections.map_values(|connection: Connection| connection@)
}

/// The index from session identifier to session. Its view is the run of
/// registered sessions, oldest first.
///
/// The pool holds no lock of its own: callers that share it guard it, and
/// hold the guard for one call at a time, never across a negotiation.
#[derive(Debug)]
pub struct ConnectionPool {
    connections: Vec<Connection>,
}

impl View for ConnectionPool {
    type V = Seq<ConnectionView>;

    closed spec fn view(&self) -> Seq<ConnectionView> {
        sessions_of(self.connections@)
    }
}

impl ConnectionPool {
    /// A pool without sessions.
    pub fn new() -> (pool: ConnectionPool)
        ensures
            pool@ == Seq::<ConnectionView>::empty(),
            distinct_ids(pool@),
    {
        let pool = ConnectionPool { connections: Vec::new() };
        assert(pool@ =~= Seq::<ConnectionView>::empty());
        pool
    }

    /// Number of registered sessions.
    pub fn len(&self) -> (len: usize)
        ensures
            len == self@.len(),
    {
        self.connections.len()
    }

    /// Registers `connection`, unless a session has its identifier.
    pub fn insert(&mut self, connection: Connection) -> (result: Result<(), Error>)
        ensures
            distinct_ids(old(self)@) ==> distinct_ids(final(self)@),
            match result {
                Ok(()) => !has_session(old(self)@, connection@.id) && final(self)@ == old(
                    self,
                )@.push(connection@),
                Err(error) => error == Error::Duplicate && has_session(
                    old(self)@,
                    connection@.id,
                ) && final(self)@ == old(self)@,
            },
    {
        match self.position(connection.id()) {
            Some(_) => Err(Error::Duplicate),
            None => {
                let ghost before = self@;
                self.connections.push(connection);
                assert(self@ =~= before.push(connection@));
                Ok(())
            },
        }
    }

    /// The session with identifier `id`, if one is registered.
    pub fn find(&self, id: &String) -> (found: Option<&Connection>)
        ensures
            match found {
                Some(connection) => exists|index: int|
                    first_session(self@, id@, index) && connection@ == self@[index],
                None => !has_session(self@, id@),
            },
    {
        match self.position(id) {
            Some(index) => Some(&self.connections[index]),
            None => None,
        }
    }

    /// Takes the session with identifier `id` out of the pool, if one is
    /// registered.
    pub fn remove(&mut self, id: &String) -> (removed: Option<Connection>)
        ensures
            distinct_ids(old(self)@) ==> distinct_ids(final(self)@) && !has_session(
                final(self)@,
                id@,
            ),
            match removed {
                Some(connection) => exists|index: int|
                    first_session(old(self)@, id@, index) && connection@ == old(self)@[index]
                        && final(self)@ == old(self)@.remove(index),
                None => !has_session(old(self)@, id@) && final(self)@ == old(self)@,
            },
    {
        match self.position(id) {
            Some(index) => {
                let ghost before = self@;
                let connection = self.connections.remove(index);
                assert(self@ =~= before.remove(index as int));
                Some(connection)
            },
            None => None,
        }
    }

    /// Ends the negotiation of `connection` with `local_description` and,
    /// if that made the session active, registers it. The caller gets the
    /// session's identifier and the description to answer the peer with.
    /// On any failure the pool stays as it was.
    pub fn create_connection<D>(
        &mut self,
        connection: Connection,
        local_description: Option<D>,
    ) -> (result: Result<(String, D), Error>)
        ensures
            distinct_ids(old(self)@) ==> distinct_ids(final(self)@),
            match result {
                Ok((id, description)) => {
                    &&& connection@.state == SessionState::Negotiating
                    &&& local_description == Some(description)
                    &&& id@ == connection@.id
                    &&& !has_session(old(self)@, connection@.id)
                    &&& final(self)@ == old(self)@.push(
                        (ConnectionView { id: connection@.id, state: SessionState::Active }),
                    )
                },
                Err(error) => {
                    &&& final(self)@ == old(self)@
                    &&& error == (if connection@.state != SessionState::Negotiating {
                        Error::InvalidState
                    } else if local_description is None {
                        Error::Negotiation
                    } else {
                        Error::Duplicate
                    })
                    &&& error == Error::Duplicate ==> has_session(old(self)@, connection@.id)
                },
            },
    {
        let mut connection = connection;
        match connection.connect(local_description) {
            Ok(description) => {
                let id = connection.id().clone();
                match self.insert(connection) {
                    Ok(()) => Ok((id, description)),
                    Err(error) => Err(error),
                }
            },
            Err(error) => Err(error),
        }
    }

    /// The task that forwards video samples to the session `id`, if such
    /// a session is registered.
    pub fn set_video_buffer_handler(&self, id: &String) -> (result: Result<ForwardingTask, Error>)
        ensures
            match result {
                Ok(task) => has_session(self@, id@) && task.session@ == id@ && task.kind
                    == MediaKind::Video,
                Err(error) => !has_session(self@, id@) && error == Error::NotFound,
            },
    {
        self.buffer_handler(id, MediaKind::Video)
    }

    /// The task that forwards audio samples to the session `id`, if such
    /// a session is registered.
    pub fn set_audio_buffer_handler(&self, id: &String) -> (result: Result<ForwardingTask, Error>)
        ensures
            match result {
                Ok(task) => has_session(self@, id@) && task.session@ == id@ && task.kind
                    == MediaKind::Audio,
                Err(error) => !has_session(self@, id@) && error == Error::NotFound,
            },
    {
        self.buffer_handler(id, MediaKind::Audio)
    }

    /// Records a change of the transport state of session `id`. A session
    /// whose transport failed or closed is closed and leaves the pool; it
    /// is handed to the caller, who releases its tracks and bridges.
    pub fn transport_changed(&mut self, id: &String, state: TransportState) -> (closed: Option<
        Connection,
    >)
        ensures
            distinct_ids(old(self)@) ==> distinct_ids(final(self)@),
            match closed {
                Some(connection) => {
                    &&& state == TransportState::Failed || state == TransportState::Closed
                    &&& exists|index: int|
                        first_session(old(self)@, id@, index) && connection@ == old(
                            self,
                        )@[index].close() && final(self)@ == old(self)@.remove(index)
                },
                None => {
                    &&& final(self)@ == old(self)@
                    &&& !has_session(old(self)@, id@) || !(state == TransportState::Failed
                        || state == TransportState::Closed)
                },
            },
    {
        match state {
            TransportState::Failed | TransportState::Closed => match self.remove(id) {
                Some(connection) => {
                    let mut connection = connection;
                    connection.close();
                    Some(connection)
                },
                None => None,
            },
            _ => None,
        }
    }

    /// Records how a write to a track of session `id` ended and tells the
    /// forwarding task how to go on. A closed transport closes the session
    /// and takes it out of the pool; the task stops without an error. Any
    /// other failure is reported and leaves the pool as it is.
    pub fn forwarded(&mut self, id: &String, outcome: WriteOutcome) -> (result: Result<
        Forwarding,
        Error,
    >)
        ensures
            distinct_ids(old(self)@) ==> distinct_ids(final(self)@),
            result == (if !has_session(old(self)@, id@) {
                Err::<Forwarding, Error>(Error::NotFound)
            } else {
                match outcome {
                    WriteOutcome::Written => Ok::<Forwarding, Error>(Forwarding::Continue),
                    WriteOutcome::TransportClosed => Ok::<Forwarding, Error>(Forwarding::Stop),
                    WriteOutcome::Failed => Err::<Forwarding, Error>(Error::Write),
                }
            }),
            if has_session(old(self)@, id@) && outcome == WriteOutcome::TransportClosed {
                exists|index: int|
                    first_session(old(self)@, id@, index) && final(self)@ == old(self)@.remove(
                        index,
                    )
            } else {
                final(self)@ == old(self)@
            },
    {
        match self.position(id) {
            Some(index) => {
                let ghost before = self@;
                if outcome == WriteOutcome::TransportClosed {
                    let mut connection = self.connections.remove(index);
                    assert(self@ =~= before.remove(index as int));
                    connection.forwarded(outcome)
                } else {
                    let result = self.connections[index].forwarded(outcome);
                    assert(self@ =~= before);
                    result
                }
            },
            None => Err(Error::NotFound),
        }
    }

    fn buffer_handler(&self, id: &String, kind: MediaKind) -> (result: Result<
        ForwardingTask,
        Error,
    >)
        ensures
            match result {
                Ok(task) => has_session(self@, id@) && task.session@ == id@ && task.kind == kind,
                Err(error) => !has_session(self@, id@) && error == Error::NotFound,
            },
    {
        match self.position(id) {
            Some(_) => Ok(ForwardingTask { session: id.clone(), kind }),
            None => Err(Error::NotFound),
        }
    }

    /// Where the session with identifier `id` first stands.
    fn position(&self, id: &String) -> (found: Option<usize>)
        ensures
            match found {
                Some(index) => first_session(self@, id@, index as int),
                None => !has_session(self@, id@),
            },
    {
        let mut index: usize = 0;
        while index < self.connections.len()
            invariant
                index <= self.connections@.len(),
                forall|j: int| 0 <= j < index ==> (#[trigger] self@[j]).id != id@,
            decreases self.connections@.len() - index,
        {
            if *self.connections[index].id() == *id {
                return Some(index);
            }
            index += 1;
        }
        None
    }
}

/// At most one session per identifier: two registered sessions with the
/// same identifier are one and the same entry.
pub proof fn lemma_one_session_per_id(sessions: Seq<ConnectionView>, i: int, j: int)
    requires
        distinct_ids(sessions),
        0 <= i < sessions.len(),
        0 <= j < sessions.len(),
        sessions[i].id == sessions[j].id,
    ensures
        i == j,
{
}

} // verus!
