use tramcast::command::{Command, Fatal, SYNC_POLL_SECONDS};
use tramcast::ota::{Details, OtaState, Violation};
use tramcast::pipeline::{BrokerEvent, Input, Pipeline, Stage};
use tramcast::router::{Inbound, Topic};
use tramcast::state::{StateEvent, StatusRecord, Tram};

fn in_session() -> Pipeline {
    Pipeline { stage: Stage::Session, ota: OtaState::Idle }
}

fn received<'a>(
    topic: Option<&'a str>,
    payload: &'a [u8],
    details: Details,
    status: Option<StatusRecord>,
) -> Input<'a> {
    Input::Broker(BrokerEvent::Received(Inbound { topic, payload, details, status }))
}

fn link_reports(commands: &[Command]) -> Vec<bool> {
    let mut out = Vec::new();
    for command in commands {
        if let Command::Emit(StateEvent::WifiConnected(up)) = command {
            out.push(*up);
        }
    }
    out
}

/// Reads a status payload the way a driver would and hands over what it found.
fn decode(payload: &str) -> Option<StatusRecord> {
    let value: serde_json::Value = serde_json::from_str(payload).ok()?;
    let object = value.as_object()?;
    let depart_at = match object.get("departAt") {
        None => None,
        Some(field) if field.is_null() => None,
        Some(_) => return None,
    };
    let time_left_ms = match object.get("timeLeftMs") {
        None => None,
        Some(field) if field.is_null() => None,
        Some(field) => Some(field.as_i64()?),
    };
    Some(StatusRecord { depart_at, time_left_ms })
}

#[test]
fn starts_by_checking_the_link() {
    let (pipeline, commands) = Pipeline::start();
    assert_eq!(pipeline, Pipeline { stage: Stage::Link, ota: OtaState::Idle });
    assert_eq!(commands, vec![Command::CheckLink]);
}

#[test]
fn cold_start_walks_through_the_epoch() {
    let (pipeline, _) = Pipeline::start();
    let (pipeline, commands) = pipeline.step(Input::LinkStatus(false));
    assert_eq!(pipeline.stage, Stage::Associating);
    assert_eq!(
        commands,
        vec![Command::Emit(StateEvent::WifiConnected(false)), Command::Associate]
    );
    let (pipeline, commands) = pipeline.step(Input::LinkUp);
    assert_eq!(pipeline.stage, Stage::Syncing);
    assert_eq!(
        commands,
        vec![
            Command::Emit(StateEvent::WifiConnected(true)),
            Command::StartSync,
            Command::PollSync,
        ]
    );
    let (pipeline, commands) = pipeline.step(Input::SyncStatus(false));
    assert_eq!(pipeline.stage, Stage::Syncing);
    assert_eq!(commands, vec![Command::Sleep(5), Command::PollSync]);
    assert_eq!(SYNC_POLL_SECONDS, 5);
    let (pipeline, commands) = pipeline.step(Input::SyncStatus(true));
    assert_eq!(pipeline, in_session());
    assert_eq!(
        commands,
        vec![
            Command::Emit(StateEvent::TimeSynced(true)),
            Command::OpenSession,
            Command::NextEvent,
        ]
    );
    let (pipeline, commands) = pipeline.step(Input::Broker(BrokerEvent::Connected));
    assert_eq!(pipeline, in_session());
    assert_eq!(
        commands,
        vec![
            Command::Subscribe(Topic::Tram),
            Command::Subscribe(Topic::Metro),
            Command::Subscribe(Topic::OtaData),
            Command::Subscribe(Topic::OtaConfirm),
            Command::Subscribe(Topic::OtaRollback),
            Command::AnnounceReady,
            Command::Emit(StateEvent::MqttConnected(true)),
            Command::NextEvent,
        ]
    );
}

#[test]
fn link_that_is_up_is_not_announced() {
    let (pipeline, _) = Pipeline::start();
    let (pipeline, commands) = pipeline.step(Input::LinkStatus(true));
    assert_eq!(pipeline.stage, Stage::Syncing);
    assert_eq!(commands, vec![Command::StartSync, Command::PollSync]);
}

#[test]
fn hard_association_failure_halts() {
    let pipeline = Pipeline { stage: Stage::Associating, ota: OtaState::Idle };
    let (pipeline, commands) = pipeline.step(Input::LinkFailed);
    assert_eq!(pipeline.stage, Stage::Halted);
    assert_eq!(commands, vec![Command::Halt(Fatal::AssociationFailed)]);
}

#[test]
fn disconnect_unwinds_to_the_link_and_forgets_the_transfer() {
    let pipeline =
        Pipeline { stage: Stage::Session, ota: OtaState::InProgress { written: 40, total: 100 } };
    let (next, commands) = pipeline.step(Input::Broker(BrokerEvent::Disconnected));
    assert_eq!(next, Pipeline { stage: Stage::Link, ota: OtaState::Idle });
    assert_eq!(
        commands,
        vec![
            Command::Emit(StateEvent::MqttConnected(false)),
            Command::CloseSession,
            Command::CheckLink,
        ]
    );
    let (next, commands) = pipeline.step(Input::SessionClosed);
    assert_eq!(next, Pipeline { stage: Stage::Link, ota: OtaState::Idle });
    assert_eq!(commands, vec![Command::CloseSession, Command::CheckLink]);
}

#[test]
fn acknowledgements_are_passed_over() {
    for event in [BrokerEvent::Subscribed, BrokerEvent::Unsubscribed, BrokerEvent::Other] {
        let (next, commands) = in_session().step(Input::Broker(event));
        assert_eq!(next, in_session());
        assert_eq!(commands, vec![Command::NextEvent]);
    }
}

#[test]
fn input_out_of_place_changes_nothing() {
    let states = [
        Pipeline { stage: Stage::Link, ota: OtaState::Idle },
        Pipeline { stage: Stage::Associating, ota: OtaState::Idle },
        Pipeline { stage: Stage::Syncing, ota: OtaState::Idle },
        Pipeline { stage: Stage::Halted, ota: OtaState::Aborted },
    ];
    for state in states {
        let (next, commands) = state.step(Input::Broker(BrokerEvent::Connected));
        assert_eq!(next, state);
        assert!(commands.is_empty());
    }
    let (next, commands) = in_session().step(Input::LinkUp);
    assert_eq!(next, in_session());
    assert!(commands.is_empty());
    let halted = Pipeline { stage: Stage::Halted, ota: OtaState::Complete };
    for input in [Input::LinkStatus(false), Input::LinkUp, Input::SyncStatus(true)] {
        let (next, commands) = halted.step(input);
        assert_eq!(next, halted);
        assert!(commands.is_empty());
    }
}

#[test]
fn link_announcements_alternate() {
    let inputs = [
        Input::LinkStatus(false),
        Input::LinkUp,
        Input::LinkUp,
        Input::SyncStatus(true),
        Input::Broker(BrokerEvent::Connected),
        Input::Broker(BrokerEvent::Disconnected),
        Input::LinkStatus(true),
        Input::LinkStatus(false),
        Input::SyncStatus(true),
        Input::SessionClosed,
        Input::LinkStatus(false),
        Input::LinkStatus(false),
        Input::LinkUp,
        Input::SyncStatus(true),
        Input::SessionClosed,
        Input::LinkStatus(false),
        Input::LinkUp,
    ];
    let (mut pipeline, mut issued) = Pipeline::start();
    for input in inputs {
        let (next, commands) = pipeline.step(input);
        pipeline = next;
        issued.extend(commands);
    }
    let reports = link_reports(&issued);
    assert_eq!(reports, vec![false, true, false, true, false, true]);
    for pair in reports.windows(2) {
        assert_ne!(pair[0], pair[1]);
    }
    assert!(!issued.contains(&Command::Emit(StateEvent::TimeSynced(false))));
}

#[test]
fn firmware_in_two_chunks_restarts_once() {
    let first = [0u8; 40];
    let second = [0u8; 60];
    let (pipeline, commands) = in_session().step(received(
        Some("tramcast/ota/data"),
        &first,
        Details::InitialChunk { total_data_size: 100 },
        None,
    ));
    assert_eq!(
        pipeline,
        Pipeline { stage: Stage::Session, ota: OtaState::InProgress { written: 40, total: 100 } }
    );
    assert_eq!(commands, vec![Command::OtaBegin, Command::OtaWrite, Command::NextEvent]);
    let (pipeline, commands) = pipeline.step(received(
        None,
        &second,
        Details::SubsequentChunk { current_data_offset: 40, total_data_size: 100 },
        None,
    ));
    assert_eq!(pipeline, Pipeline { stage: Stage::Halted, ota: OtaState::Complete });
    assert_eq!(
        commands,
        vec![Command::OtaWrite, Command::OtaFinalize, Command::Halt(Fatal::RestartReturned)]
    );
    assert_eq!(commands.iter().filter(|c| **c == Command::OtaFinalize).count(), 1);
}

#[test]
fn second_initial_chunk_halts_without_finalizing() {
    let first = [0u8; 40];
    let (pipeline, _) = in_session().step(received(
        Some("tramcast/ota/data"),
        &first,
        Details::InitialChunk { total_data_size: 100 },
        None,
    ));
    let (pipeline, commands) = pipeline.step(received(
        Some("tramcast/ota/data"),
        &first,
        Details::InitialChunk { total_data_size: 100 },
        None,
    ));
    assert_eq!(pipeline, Pipeline { stage: Stage::Halted, ota: OtaState::Aborted });
    assert_eq!(
        commands,
        vec![Command::Halt(Fatal::Protocol(Violation::UnexpectedInitialChunk))]
    );
}

#[test]
fn confirm_failure_leaves_the_pipeline_alone() {
    let (pipeline, commands) = in_session().step(received(
        Some("tramcast/ota/confirm"),
        "failure".as_bytes(),
        Details::Complete,
        None,
    ));
    assert_eq!(pipeline, in_session());
    assert_eq!(commands, vec![Command::NextEvent]);
}

#[test]
fn rollback_halts_after_the_order() {
    let (pipeline, commands) = in_session().step(received(
        Some("tramcast/rollback"),
        "anything".as_bytes(),
        Details::Complete,
        None,
    ));
    assert_eq!(pipeline.stage, Stage::Halted);
    assert_eq!(
        commands,
        vec![Command::RollbackAndReboot, Command::Halt(Fatal::RollbackFailed)]
    );
}

#[test]
fn status_payload_with_null_departure() {
    let payload = "{\"departAt\": null, \"timeLeftMs\": 300000}";
    let status = decode(payload);
    assert_eq!(status, Some(StatusRecord { depart_at: None, time_left_ms: Some(300000) }));
    let (pipeline, commands) =
        in_session().step(received(Some("villamos"), payload.as_bytes(), Details::Complete, status));
    assert_eq!(pipeline, in_session());
    assert_eq!(
        commands,
        vec![
            Command::Emit(StateEvent::TramStateChanged(Tram {
                depart_at: None,
                time_left_ms: Some(300000),
            })),
            Command::NextEvent,
        ]
    );
}

#[test]
fn status_payload_that_is_not_json_is_dropped() {
    let payload = "{\"departAt\": nul";
    let status = decode(payload);
    assert_eq!(status, None);
    let (pipeline, commands) =
        in_session().step(received(Some("villamos"), payload.as_bytes(), Details::Complete, status));
    assert_eq!(pipeline, in_session());
    assert_eq!(commands, vec![Command::NextEvent]);
}

#[test]
fn sound_pipelines() {
    let live = OtaState::InProgress { written: 1, total: 2 };
    assert!(Pipeline { stage: Stage::Link, ota: OtaState::Idle }.is_sound());
    assert!(Pipeline { stage: Stage::Session, ota: live }.is_sound());
    assert!(Pipeline { stage: Stage::Halted, ota: OtaState::Aborted }.is_sound());
    assert!(!Pipeline { stage: Stage::Link, ota: live }.is_sound());
    assert!(!Pipeline { stage: Stage::Associating, ota: OtaState::Complete }.is_sound());
    assert!(!Pipeline { stage: Stage::Syncing, ota: live }.is_sound());
    let broken = OtaState::InProgress { written: 3, total: 2 };
    assert!(!Pipeline { stage: Stage::Session, ota: broken }.is_sound());
}

#[test]
fn session_without_a_connect_waits_on() {
    let mut pipeline = in_session();
    for _ in 0..50 {
        let (next, commands) = pipeline.step(Input::Broker(BrokerEvent::Other));
        assert_eq!(next, in_session());
        assert_eq!(commands, vec![Command::NextEvent]);
        pipeline = next;
    }
}

#[test]
fn clock_is_announced_once_per_epoch() {
    let inputs = [
        Input::LinkStatus(true),
        Input::SyncStatus(false),
        Input::SyncStatus(false),
        Input::SyncStatus(true),
        Input::SyncStatus(true),
        Input::Broker(BrokerEvent::Connected),
        Input::SyncStatus(true),
        Input::SessionClosed,
        Input::LinkStatus(true),
        Input::SyncStatus(true),
    ];
    let (mut pipeline, mut issued) = Pipeline::start();
    for input in inputs {
        let (next, commands) = pipeline.step(input);
        pipeline = next;
        issued.extend(commands);
    }
    let marks: Vec<bool> = issued
        .iter()
        .filter_map(|command| match command {
            Command::Emit(StateEvent::TimeSynced(_)) => Some(true),
            Command::CheckLink => Some(false),
            _ => None,
        })
        .collect();
    assert_eq!(marks, vec![false, true, false, true]);
    let sleeps = issued.iter().filter(|c| **c == Command::Sleep(5)).count();
    assert_eq!(sleeps, 2);
}

#[test]
fn nothing_is_issued_after_a_halt() {
    let chunk = [0u8; 8];
    let (halted, commands) = in_session().step(received(
        Some("tramcast/ota/data"),
        &chunk,
        Details::SubsequentChunk { current_data_offset: 0, total_data_size: 8 },
        None,
    ));
    assert_eq!(halted, Pipeline { stage: Stage::Halted, ota: OtaState::Aborted });
    assert_eq!(commands, vec![Command::Halt(Fatal::Protocol(Violation::MissingInitialChunk))]);
    let later = [
        Input::LinkStatus(true),
        Input::SyncStatus(true),
        Input::Broker(BrokerEvent::Connected),
        received(Some("tramcast/ota/data"), &chunk, Details::Complete, None),
        Input::SessionClosed,
    ];
    for input in later {
        let (next, commands) = halted.step(input);
        assert_eq!(next, halted);
        assert!(commands.is_empty());
    }
}
