use std::collections::HashSet;

use timeline_server::bridge::{Bridge, Received, SendError};
use timeline_server::connection::{
    CommandJson, Connection, Forwarding, Payload, SessionState, TransportState, WriteOutcome,
};
use timeline_server::error::Error;
use timeline_server::media::MediaKind;
use timeline_server::timeline_manager::Command;

fn message(name: &str, payload: Option<Payload>) -> CommandJson {
    CommandJson { name: name.to_string(), payload }
}

fn negotiating() -> Connection {
    let mut connection = Connection::with_id("s1".to_string());
    connection.accept_offer().unwrap();
    connection
}

#[test]
fn new_session_is_created_with_a_hyphenated_version_four_identifier() {
    let connection = Connection::new();
    assert_eq!(connection.state(), SessionState::Created);
    let id: Vec<char> = connection.id().chars().collect();
    assert_eq!(id.len(), 36);
    for (i, c) in id.iter().enumerate() {
        if i == 8 || i == 13 || i == 18 || i == 23 {
            assert_eq!(*c, '-');
        } else {
            assert!(matches!(*c, '0'..='9' | 'a'..='f'), "character {} at {}", c, i);
        }
    }
    assert_eq!(id[14], '4');
    assert!(matches!(id[19], '8' | '9' | 'a' | 'b'));
}

#[test]
fn a_thousand_sessions_have_a_thousand_identifiers() {
    let mut seen = HashSet::new();
    for _ in 0..1000 {
        seen.insert(Connection::new().id().clone());
    }
    assert_eq!(seen.len(), 1000);
}

#[test]
fn session_with_given_identifier_keeps_it() {
    let connection = Connection::with_id("abc".to_string());
    assert_eq!(connection.id(), "abc");
    assert_eq!(connection.state(), SessionState::Created);
}

#[test]
fn negotiation_leads_from_created_over_negotiating_to_active() {
    let mut connection = Connection::with_id("s1".to_string());
    assert_eq!(connection.accept_offer(), Ok(()));
    assert_eq!(connection.state(), SessionState::Negotiating);
    assert_eq!(connection.connect(Some("v=0".to_string())), Ok("v=0".to_string()));
    assert_eq!(connection.state(), SessionState::Active);
}

#[test]
fn missing_local_description_fails_negotiation() {
    let mut connection = negotiating();
    assert_eq!(connection.connect(None::<String>), Err(Error::Negotiation));
    assert_eq!(connection.state(), SessionState::Negotiating);
}

#[test]
fn connect_needs_an_accepted_offer() {
    let mut connection = Connection::with_id("s1".to_string());
    assert_eq!(connection.connect(Some(1u8)), Err(Error::InvalidState));
    assert_eq!(connection.state(), SessionState::Created);
    assert_eq!(connection.connect(None::<u8>), Err(Error::InvalidState));
}

#[test]
fn offer_is_accepted_once() {
    let mut connection = negotiating();
    assert_eq!(connection.accept_offer(), Err(Error::InvalidState));
    assert_eq!(connection.state(), SessionState::Negotiating);
    connection.connect(Some(())).unwrap();
    assert_eq!(connection.accept_offer(), Err(Error::InvalidState));
    assert_eq!(connection.state(), SessionState::Active);
}

#[test]
fn closed_session_stays_closed() {
    let mut connection = negotiating();
    connection.close();
    assert_eq!(connection.state(), SessionState::Closed);
    assert_eq!(connection.accept_offer(), Err(Error::InvalidState));
    assert_eq!(connection.connect(Some(())), Err(Error::InvalidState));
    assert!(!connection.transport_changed(TransportState::Connected));
    assert_eq!(connection.forwarded(WriteOutcome::Written), Ok(Forwarding::Continue));
    assert_eq!(connection.state(), SessionState::Closed);
}

#[test]
fn failed_or_closed_transport_closes_the_session() {
    for state in [TransportState::Failed, TransportState::Closed] {
        let mut connection = negotiating();
        connection.connect(Some(())).unwrap();
        assert!(connection.transport_changed(state));
        assert_eq!(connection.state(), SessionState::Closed);
    }
}

#[test]
fn other_transport_states_leave_the_session() {
    for state in [
        TransportState::New,
        TransportState::Connecting,
        TransportState::Connected,
        TransportState::Disconnected,
    ] {
        let mut connection = negotiating();
        connection.connect(Some(())).unwrap();
        assert!(!connection.transport_changed(state));
        assert_eq!(connection.state(), SessionState::Active);
    }
}

#[test]
fn buffers_are_tagged_with_their_track() {
    let connection = Connection::with_id("s1".to_string());
    let video = connection.write_video_buffer(vec![1, 2, 3]).unwrap();
    assert_eq!(video.kind, MediaKind::Video);
    assert_eq!(video.data, vec![1, 2, 3]);
    let audio = connection.write_audio_buffer(vec![4]).unwrap();
    assert_eq!(audio.kind, MediaKind::Audio);
    assert_eq!(audio.data, vec![4]);
}

#[test]
fn closed_session_takes_no_buffers() {
    let mut connection = Connection::with_id("s1".to_string());
    connection.close();
    assert!(matches!(connection.write_video_buffer(vec![1]), Err(Error::Write)));
    assert!(matches!(connection.write_audio_buffer(vec![1]), Err(Error::Write)));
}

#[test]
fn closed_transport_stops_forwarding_without_an_error() {
    let mut connection = negotiating();
    connection.connect(Some(())).unwrap();
    assert_eq!(connection.forwarded(WriteOutcome::Written), Ok(Forwarding::Continue));
    assert_eq!(connection.state(), SessionState::Active);
    assert_eq!(connection.forwarded(WriteOutcome::TransportClosed), Ok(Forwarding::Stop));
    assert_eq!(connection.state(), SessionState::Closed);
}

#[test]
fn other_write_failures_are_reported() {
    let mut connection = negotiating();
    connection.connect(Some(())).unwrap();
    assert_eq!(connection.forwarded(WriteOutcome::Failed), Err(Error::Write));
    assert_eq!(connection.state(), SessionState::Active);
}

#[test]
fn play_and_pause_messages_address_the_senders_slot() {
    let connection = Connection::with_id("s1".to_string());
    match connection.command_for::<u8>(&message("play", None)) {
        Ok(Some(Command::Play(id))) => assert_eq!(id, "s1"),
        other => panic!("expected Play, got {:?}", other),
    }
    match connection.command_for::<u8>(&message("pause", Some(Payload { uri: None }))) {
        Ok(Some(Command::Pause(id))) => assert_eq!(id, "s1"),
        other => panic!("expected Pause, got {:?}", other),
    }
}

#[test]
fn add_uri_clip_message_carries_its_uri() {
    let connection = Connection::with_id("s1".to_string());
    let payload = Payload { uri: Some("file:///a.mp4".to_string()) };
    match connection.command_for::<u8>(&message("add_uri_clip", Some(payload))) {
        Ok(Some(Command::AddUriClip(uri))) => assert_eq!(uri, "file:///a.mp4"),
        other => panic!("expected AddUriClip, got {:?}", other),
    }
}

#[test]
fn add_uri_clip_message_without_uri_is_malformed() {
    let connection = Connection::with_id("s1".to_string());
    assert!(matches!(
        connection.command_for::<u8>(&message("add_uri_clip", None)),
        Err(Error::MalformedMessage)
    ));
    assert!(matches!(
        connection.command_for::<u8>(&message("add_uri_clip", Some(Payload { uri: None }))),
        Err(Error::MalformedMessage)
    ));
}

#[test]
fn unknown_messages_stand_for_nothing() {
    let connection = Connection::with_id("s1".to_string());
    for name in ["", "Play", "play ", "stop", "add_pipeline"] {
        assert!(matches!(connection.command_for::<u8>(&message(name, None)), Ok(None)));
    }
}

#[test]
fn deadline_closes_a_pending_session() {
    let mut created = Connection::with_id("s1".to_string());
    assert_eq!(created.negotiation_timed_out(), Error::NegotiationTimeout);
    assert_eq!(created.state(), SessionState::Closed);
    let mut pending = negotiating();
    assert_eq!(pending.negotiation_timed_out(), Error::NegotiationTimeout);
    assert_eq!(pending.state(), SessionState::Closed);
}

#[test]
fn deadline_means_nothing_to_an_active_or_closed_session() {
    let mut active = negotiating();
    active.connect(Some(())).unwrap();
    assert_eq!(active.negotiation_timed_out(), Error::InvalidState);
    assert_eq!(active.state(), SessionState::Active);
    let mut closed = negotiating();
    closed.close();
    assert_eq!(closed.negotiation_timed_out(), Error::InvalidState);
    assert_eq!(closed.state(), SessionState::Closed);
}

#[test]
fn shut_down_closes_the_session_and_both_bridges() {
    let mut connection = negotiating();
    connection.connect(Some(())).unwrap();
    let mut video = Bridge::new(2);
    let mut audio = Bridge::new(2);
    video.send(vec![1]).unwrap();
    connection.shut_down(&mut video, &mut audio);
    assert_eq!(connection.state(), SessionState::Closed);
    assert!(matches!(video.send(vec![2]), Err(SendError::Closed(_))));
    assert!(matches!(audio.send(vec![3]), Err(SendError::Closed(_))));
    assert_eq!(video.len(), 1);
    assert!(matches!(video.receive(), Received::Sample(_)));
    assert!(matches!(video.receive(), Received::Finished));
    assert!(matches!(audio.receive(), Received::Finished));
}
