use bws::brain::{conclude, Error};
use bws::heartbeat::verdict;
use bws::server::{
    malformed_registration, malformed_unregistration, registration_answer,
    unreadable_registration, unreadable_unregistration, unregistration_answer,
    INTERNAL_SERVER_ERROR, NO_CONTENT,
};
use bws::brain::model::Intent;
use bws::simulation::communication::{Intentions, Message};
use bws::simulation::flock::FlockId;
use bws::simulation::registration::{
    RegistrationAttempt, RegistrationFailure, RegistrationFailureReason, UnregistrationAttempt,
    UnregistrationFailure, UnregistrationFailureReason,
};
use bws::websocket::{Command, WebSocketUpdate};

#[test]
fn accepted_registration_is_answered_without_a_body() {
    let (status, failure) = registration_answer(RegistrationAttempt::Success);
    assert_eq!(status, 204);
    assert_eq!(status, NO_CONTENT);
    assert!(failure.is_none());
}

#[test]
fn refused_registration_is_answered_with_the_name_of_the_reason() {
    let (status, failure) =
        registration_answer(RegistrationAttempt::Failure(RegistrationFailureReason::NameTaken));
    assert_eq!(status, 500);
    assert_eq!(status, INTERNAL_SERVER_ERROR);
    assert_eq!(failure.unwrap().reason, "NameTaken");
    let (status, failure) = registration_answer(RegistrationAttempt::Failure(
        RegistrationFailureReason::IPAddressWithPortTaken,
    ));
    assert_eq!(status, 500);
    assert_eq!(failure.unwrap().reason, "AddressTaken");
}

#[test]
fn unregistration_is_answered_alike() {
    let (status, failure) = unregistration_answer(UnregistrationAttempt::Success);
    assert_eq!(status, 204);
    assert!(failure.is_none());
    let (status, failure) = unregistration_answer(UnregistrationAttempt::Failure(
        UnregistrationFailureReason::NameNotRegistered,
    ));
    assert_eq!(status, 500);
    assert_eq!(failure.unwrap().reason, "NameNotRegistered");
}

#[test]
fn unreadable_bodies_are_named_as_such() {
    assert_eq!(unreadable_registration().reason, "unable to read body");
    assert_eq!(unreadable_unregistration().reason, "unable to read body");
}

#[test]
fn malformed_bodies_are_quoted_in_the_reason() {
    assert_eq!(
        malformed_registration("{\"name\": 3}").reason,
        "unable to deserialize registration \"{\"name\": 3}\""
    );
    assert_eq!(
        malformed_unregistration("nonsense").reason,
        "unable to deserialize unregistration \"nonsense\""
    );
    assert_eq!(malformed_registration("").reason, "unable to deserialize registration \"\"");
}

#[test]
fn reasons_have_a_sentence_and_a_name() {
    assert_eq!(RegistrationFailureReason::NameTaken.describe(), "name already taken");
    assert_eq!(
        RegistrationFailureReason::IPAddressWithPortTaken.describe(),
        "ip address with port already taken"
    );
    assert_eq!(RegistrationFailureReason::NameTaken.code(), "NameTaken");
    assert_eq!(RegistrationFailureReason::IPAddressWithPortTaken.code(), "AddressTaken");
    assert_eq!(UnregistrationFailureReason::NameNotRegistered.code(), "NameNotRegistered");
    let sentence: String = RegistrationFailureReason::NameTaken.into();
    assert_eq!(sentence, "name already taken");
    let sentence: String = RegistrationFailureReason::IPAddressWithPortTaken.into();
    assert_eq!(sentence, "ip address with port already taken");
}

#[test]
fn failures_take_any_text() {
    assert_eq!(RegistrationFailure::new("unable to read body").reason, "unable to read body");
    assert_eq!(RegistrationFailure::new("x".to_owned()).reason, "x");
    assert_eq!(
        RegistrationFailure::new(RegistrationFailureReason::NameTaken).reason,
        "name already taken"
    );
    assert_eq!(UnregistrationFailure::new("unable to read body").reason, "unable to read body");
    assert_eq!(UnregistrationFailure::new(String::new()).reason, "");
}

#[test]
fn probe_outcome_becomes_a_heartbeat_status() {
    match verdict("Alpha".to_owned(), true) {
        Message::HeartbeatStatus((name, connected)) => {
            assert_eq!(name, "Alpha");
            assert!(connected);
        },
        other => panic!("unexpected message {:?}", other),
    }
    match verdict("Beta".to_owned(), false) {
        Message::HeartbeatStatus((name, connected)) => {
            assert_eq!(name, "Beta");
            assert!(!connected);
        },
        other => panic!("unexpected message {:?}", other),
    }
}

#[test]
fn read_answer_of_a_brain_becomes_a_brain_update() {
    let wish = (FlockId(3), Intent { heading: 1.5f64.to_bits(), speed: 0.01f64.to_bits() });
    let message = conclude("Alpha".to_owned(), Ok(Intentions { wishes: vec![wish] }));
    match message {
        Some(Message::BrainUpdate(name, intentions)) => {
            assert_eq!(name, "Alpha");
            assert_eq!(intentions.wishes, vec![wish]);
        },
        other => panic!("unexpected message {:?}", other),
    }
}

#[test]
fn unread_answer_of_a_brain_is_dropped() {
    assert!(conclude("Alpha".to_owned(), Err(Error::DefunctInput)).is_none());
    assert!(conclude("Alpha".to_owned(), Err(Error::CouldNotDeserialize)).is_none());
}

#[test]
fn spawn_command_goes_on_with_its_team_and_count() {
    for count in [0usize, 1, 5, 6, 1000, usize::MAX] {
        match (Command::Spawn { team: "Alpha".to_owned(), count }).message() {
            Message::Spawn((team, asked)) => {
                assert_eq!(team, "Alpha");
                assert_eq!(asked, count);
            },
            other => panic!("unexpected message {:?}", other),
        }
    }
    match (Command::Spawn { team: String::new(), count: 3 }).message() {
        Message::Spawn((team, asked)) => {
            assert_eq!(team, "");
            assert_eq!(asked, 3);
        },
        other => panic!("unexpected message {:?}", other),
    }
}

#[test]
fn broadcaster_keeps_its_address() {
    assert_eq!(WebSocketUpdate::new("127.0.0.1:3012").socket_address(), "127.0.0.1:3012");
    assert_eq!(WebSocketUpdate::new("[::1]:80".to_owned()).socket_address(), "[::1]:80");
}
