use mcsc::backups::Listed;
use mcsc::net::{ActionRequest, Request, Responce};
use mcsc::server_state::{
    archive_path, respond, Config, Delivery, Outcome, ServerState, ServerStateNames,
    ServerStates, StateError, Step, Turn, BACKUPS_KEPT,
};

fn config() -> Config {
    Config {
        minecraft_directory: "minecraft".to_string(),
        backup_directory: "backups".to_string(),
        key: "secret".to_string(),
        socket: "127.0.0.1:7878".to_string(),
        retention: BACKUPS_KEPT,
    }
}

fn server() -> ServerState {
    ServerState::new(config(), 2048)
}

fn server_in(state: ServerStates) -> ServerState {
    let mut server = server();
    server.state = state;
    server
}

fn token_for(server: &mut ServerState) -> Vec<u8> {
    match server.handle_connection(Request::Auth, false) {
        Turn::Reply(Responce::AuthToken(token)) => token,
        other => panic!("no token: {:?}", other),
    }
}

fn error(text: &str) -> Turn {
    Turn::Reply(Responce::Error(text.to_string()))
}

#[test]
fn new_service_is_idle() {
    let server = server();
    assert_eq!(server.state, ServerStates::Idle);
    assert_eq!(server.get_state(), ServerStateNames::Idle);
    assert_eq!(server.tokens.len(), 0);
    assert_eq!(server.tokens.capacity(), 2048);
    assert_eq!(server.config, config());
}

#[test]
fn state_names() {
    assert_eq!(ServerStateNames::from(&ServerStates::Idle), ServerStateNames::Idle);
    assert_eq!(
        ServerStateNames::from(&ServerStates::Startup { procces: 1 }),
        ServerStateNames::Startup
    );
    assert_eq!(
        ServerStateNames::from(&ServerStates::Running { procces: 1 }),
        ServerStateNames::Running
    );
    assert_eq!(
        ServerStateNames::from(&ServerStates::ShutingDown { procces: 1 }),
        ServerStateNames::ShutingDown
    );
    assert_eq!(ServerStateNames::from(&ServerStates::BackingUp), ServerStateNames::BackingUp);
}

#[test]
fn error_messages() {
    assert_eq!(StateError::StillRunning.message(), "Server still running");
    assert_eq!(StateError::BackupInProgress.message(), "Another backup is in progress");
    assert_eq!(StateError::NotReady.message(), "Server not ready to receive commands");
    assert_eq!(StateError::PerformingBackup.message(), "Server performing backup");
    assert_eq!(StateError::ShutingDown.message(), "Server shutting down");
    assert_eq!(StateError::NoStdin.message(), "Unable to get childs stdin");
    assert_eq!(StateError::WriteFailed.message(), "Unable to write to childs stdin");
    assert_eq!(StateError::LaunchFailed.message(), "Unable to launch the server");
    assert_eq!(StateError::ArchiveFailed.message(), "Unable to archive the world");
    assert_eq!(StateError::Unsupported.message(), "Download is not available");
    assert_eq!(StateError::OutOfTurn.message(), "Step reported out of turn");
    assert_eq!(respond(Ok(())), Responce::Success);
    assert_eq!(
        respond(Err(StateError::NotReady)),
        Responce::Error("Server not ready to receive commands".to_string())
    );
}

#[test]
fn ping_is_answered_with_ping() {
    let mut server = server();
    assert_eq!(server.handle_connection(Request::Ping, false), Turn::Reply(Responce::Ping));
    assert_eq!(server.state, ServerStates::Idle);
    assert_eq!(server.tokens.len(), 0);
}

#[test]
fn launch_from_idle_spawns_and_runs() {
    let mut server = server();
    assert_eq!(server.launch(), Ok(Step::Spawn));
    assert_eq!(server.state, ServerStates::Idle);
    assert_eq!(server.launched(Some(42)), Ok(()));
    assert_eq!(server.state, ServerStates::Running { procces: 42 });
    assert_eq!(server.polled(), Some(42));
}

#[test]
fn failed_spawn_leaves_the_service_idle() {
    let mut server = server();
    assert_eq!(server.launch(), Ok(Step::Spawn));
    assert_eq!(server.launched(None), Err(StateError::LaunchFailed));
    assert_eq!(server.state, ServerStates::Idle);
}

#[test]
fn launch_is_idempotent_while_running() {
    let server = server_in(ServerStates::Running { procces: 1 });
    assert_eq!(server.launch(), Ok(Step::Done));
    let server = server_in(ServerStates::Startup { procces: 1 });
    assert_eq!(server.launch(), Ok(Step::Done));
}

#[test]
fn launch_is_refused_during_backup_and_shutdown() {
    let server = server_in(ServerStates::BackingUp);
    assert_eq!(server.launch(), Err(StateError::PerformingBackup));
    let server = server_in(ServerStates::ShutingDown { procces: 1 });
    assert_eq!(server.launch(), Err(StateError::ShutingDown));
}

#[test]
fn spawn_reported_out_of_turn_changes_nothing() {
    let mut server = server_in(ServerStates::Running { procces: 1 });
    assert_eq!(server.launched(Some(2)), Err(StateError::OutOfTurn));
    assert_eq!(server.state, ServerStates::Running { procces: 1 });
}

#[test]
fn stop_writes_the_stop_line_and_ends_idle() {
    for state in [
        ServerStates::Running { procces: 7 },
        ServerStates::Startup { procces: 7 },
        ServerStates::ShutingDown { procces: 7 },
    ] {
        let mut server = server_in(state);
        assert_eq!(
            server.stop(),
            Step::Halt { procces: 7, line: b"\nstop\n".to_vec(), relaunch: false }
        );
        assert_eq!(server.state, ServerStates::ShutingDown { procces: 7 });
        assert_eq!(server.stopped(Delivery::Delivered), Ok(()));
        assert_eq!(server.state, ServerStates::Idle);
    }
}

#[test]
fn stop_while_idle_does_nothing() {
    let mut server = server();
    assert_eq!(server.stop(), Step::Done);
    assert_eq!(server.state, ServerStates::Idle);
    let mut server = server_in(ServerStates::BackingUp);
    assert_eq!(server.stop(), Step::Done);
    assert_eq!(server.state, ServerStates::BackingUp);
}

#[test]
fn stop_twice_ends_idle() {
    let mut server = server_in(ServerStates::Running { procces: 7 });
    assert!(matches!(server.stop(), Step::Halt { .. }));
    assert_eq!(server.stopped(Delivery::Failed), Err(StateError::WriteFailed));
    assert_eq!(server.state, ServerStates::Idle);
    assert_eq!(server.stop(), Step::Done);
    assert_eq!(server.state, ServerStates::Idle);
}

#[test]
fn second_stop_that_finds_the_process_gone_ends_idle() {
    let mut server = server_in(ServerStates::Running { procces: 7 });
    server.check_stop(true);
    assert_eq!(server.state, ServerStates::Idle);
    assert_eq!(server.stop(), Step::Done);
    assert_eq!(server.state, ServerStates::Idle);
}

#[test]
fn stop_without_stdin_fails_but_ends_idle() {
    let mut server = server_in(ServerStates::Running { procces: 7 });
    server.stop();
    assert_eq!(server.stopped(Delivery::NoStdin), Err(StateError::NoStdin));
    assert_eq!(server.state, ServerStates::Idle);
}

#[test]
fn check_stop_corrects_a_dead_process() {
    for state in [
        ServerStates::Running { procces: 7 },
        ServerStates::Startup { procces: 7 },
        ServerStates::ShutingDown { procces: 7 },
    ] {
        let mut server = server_in(state);
        server.check_stop(false);
        assert_eq!(server.state, state);
        server.check_stop(true);
        assert_eq!(server.state, ServerStates::Idle);
    }
    let mut server = server_in(ServerStates::BackingUp);
    assert_eq!(server.polled(), None);
    server.check_stop(true);
    assert_eq!(server.state, ServerStates::BackingUp);
}

#[test]
fn command_goes_to_a_running_process_only() {
    let server = server_in(ServerStates::Running { procces: 3 });
    assert_eq!(
        server.run_command("say hi"),
        Ok(Step::Write { procces: 3, line: b"say hi".to_vec() })
    );
    for state in [
        ServerStates::Idle,
        ServerStates::BackingUp,
        ServerStates::Startup { procces: 3 },
        ServerStates::ShutingDown { procces: 3 },
    ] {
        let server = server_in(state);
        assert_eq!(server.run_command("say hi"), Err(StateError::NotReady));
        assert_eq!(server.state, state);
    }
}

#[test]
fn command_delivery() {
    assert_eq!(ServerState::command_sent(Delivery::Delivered), Ok(()));
    assert_eq!(ServerState::command_sent(Delivery::NoStdin), Err(StateError::NoStdin));
    assert_eq!(ServerState::command_sent(Delivery::Failed), Err(StateError::WriteFailed));
}

#[test]
fn archive_paths() {
    assert_eq!(archive_path("backups", "abc"), "backups/abc.tar.gz");
    assert_eq!(archive_path("", ""), "/.tar.gz");
}

#[test]
fn backup_names_a_fresh_archive() {
    let mut server = server();
    let step = server.backup().unwrap();
    assert_eq!(server.state, ServerStates::BackingUp);
    match step {
        Step::Archive { archive } => {
            let name = archive.strip_prefix("backups/").unwrap().strip_suffix(".tar.gz").unwrap();
            assert_eq!(name.len(), 32);
            assert!(name.chars().all(|c| c.is_ascii_alphabetic()));
        }
        other => panic!("{:?}", other),
    }
}

#[test]
fn second_backup_is_refused_while_the_first_is_in_progress() {
    let mut server = server();
    assert!(server.backup().is_ok());
    assert_eq!(server.backup(), Err(StateError::BackupInProgress));
    assert_eq!(server.state, ServerStates::BackingUp);
    assert_eq!(server.backed_up(true), Ok(()));
    assert_eq!(server.state, ServerStates::Idle);
    assert!(server.backup().is_ok());
}

#[test]
fn backup_returns_to_idle_when_the_archiver_fails() {
    let mut server = server();
    assert!(server.backup().is_ok());
    assert_eq!(server.backed_up(false), Err(StateError::ArchiveFailed));
    assert_eq!(server.state, ServerStates::Idle);
}

#[test]
fn backup_is_refused_while_a_process_is_held() {
    for state in [
        ServerStates::Running { procces: 7 },
        ServerStates::Startup { procces: 7 },
        ServerStates::ShutingDown { procces: 7 },
    ] {
        let mut server = server_in(state);
        assert_eq!(server.backup(), Err(StateError::StillRunning));
        assert_eq!(server.state, state);
    }
}

#[test]
fn archiver_report_leads_to_retention() {
    assert_eq!(BACKUPS_KEPT, 10);
    let server = server_in(ServerStates::BackingUp);
    let mut files = Vec::new();
    for n in 0..12u128 {
        files.push(Listed { path: format!("b{}", n), modified: Some(100 - n) });
    }
    assert_eq!(
        server.archived(true, &files),
        Ok(Step::Evict { doomed: vec!["b11".to_string(), "b10".to_string()], archived: true })
    );
    files.truncate(10);
    assert_eq!(
        server.archived(false, &files),
        Ok(Step::Evict { doomed: vec![], archived: false })
    );
}

#[test]
fn archiver_report_out_of_turn_removes_nothing() {
    let mut files = Vec::new();
    for n in 0..12u128 {
        files.push(Listed { path: format!("b{}", n), modified: Some(n) });
    }
    let mut server = server();
    assert_eq!(server.archived(true, &files), Err(StateError::OutOfTurn));
    let step = Step::Archive { archive: "backups/a.tar.gz".to_string() };
    assert_eq!(
        server.complete(step, Outcome::Archived(true, files)),
        error("Step reported out of turn")
    );
    assert_eq!(server.complete(
        Step::Evict { doomed: vec![], archived: true }, Outcome::Evicted),
        error("Step reported out of turn")
    );
    assert_eq!(server.state, ServerStates::Idle);
}

#[test]
fn whole_backup_through_the_dispatcher() {
    let mut server = server();
    let token = token_for(&mut server);
    let turn = server.handle_connection(Request::Action(token, ActionRequest::Backup), false);
    let step = match turn {
        Turn::Perform(step) => step,
        other => panic!("{:?}", other),
    };
    assert!(matches!(step, Step::Archive { .. }));
    assert_eq!(server.get_state(), ServerStateNames::BackingUp);
    let files = vec![Listed { path: "backups/a.tar.gz".to_string(), modified: Some(1) }];
    let turn = server.complete(step, Outcome::Archived(true, files));
    let step = match turn {
        Turn::Perform(step) => step,
        other => panic!("{:?}", other),
    };
    assert_eq!(step, Step::Evict { doomed: vec![], archived: true });
    assert_eq!(server.get_state(), ServerStateNames::BackingUp);
    assert_eq!(server.complete(step, Outcome::Evicted), Turn::Reply(Responce::Success));
    assert_eq!(server.get_state(), ServerStateNames::Idle);
}

#[test]
fn requests_during_a_backup_are_shut_out() {
    let mut server = server();
    let token = token_for(&mut server);
    let turn = server.handle_connection(Request::Action(token, ActionRequest::Backup), false);
    assert!(matches!(turn, Turn::Perform(Step::Archive { .. })));
    let token = token_for(&mut server);
    assert_eq!(
        server.handle_connection(Request::Action(token, ActionRequest::Backup), false),
        error("Another backup is in progress")
    );
    let token = token_for(&mut server);
    assert_eq!(
        server.handle_connection(Request::Action(token, ActionRequest::Launch), false),
        error("Server performing backup")
    );
    assert_eq!(server.get_state(), ServerStateNames::BackingUp);
}

#[test]
fn auth_then_launch_then_reuse_of_the_token() {
    let mut server = server();
    let token = token_for(&mut server);
    assert_eq!(token.len(), 256);
    let turn =
        server.handle_connection(Request::Action(token.clone(), ActionRequest::Launch), false);
    assert_eq!(turn, Turn::Perform(Step::Spawn));
    assert_eq!(
        server.complete(Step::Spawn, Outcome::Spawned(Some(11))),
        Turn::Reply(Responce::Success)
    );
    assert_eq!(server.state, ServerStates::Running { procces: 11 });
    assert_eq!(
        server.handle_connection(Request::Action(token, ActionRequest::Launch), false),
        error("not verified")
    );
    assert_eq!(server.state, ServerStates::Running { procces: 11 });
}

#[test]
fn backup_while_running_is_refused_with_still_running() {
    let mut server = server_in(ServerStates::Running { procces: 11 });
    let token = token_for(&mut server);
    let turn = server.handle_connection(Request::Action(token, ActionRequest::Backup), false);
    match turn {
        Turn::Reply(Responce::Error(message)) => {
            assert!(message.to_lowercase().contains("still running"));
            assert_eq!(message, "Server still running");
        }
        other => panic!("{:?}", other),
    }
    assert_eq!(server.state, ServerStates::Running { procces: 11 });
    assert_eq!(server.get_state(), ServerStateNames::Running);
}

#[test]
fn action_without_a_token_is_not_verified() {
    let mut server = server_in(ServerStates::Running { procces: 11 });
    assert_eq!(
        server.handle_connection(Request::Action(vec![1, 2, 3], ActionRequest::Stop), true),
        error("not verified")
    );
    assert_eq!(server.state, ServerStates::Running { procces: 11 });
}

#[test]
fn liveness_check_comes_before_the_action() {
    let mut server = server_in(ServerStates::Running { procces: 11 });
    let token = token_for(&mut server);
    let turn = server.handle_connection(Request::Action(token, ActionRequest::Launch), true);
    assert_eq!(turn, Turn::Perform(Step::Spawn));
    assert_eq!(server.state, ServerStates::Idle);
}

#[test]
fn stop_through_the_dispatcher() {
    let mut server = server_in(ServerStates::Running { procces: 11 });
    let token = token_for(&mut server);
    let turn = server.handle_connection(Request::Action(token, ActionRequest::Stop), false);
    let step = match turn {
        Turn::Perform(step) => step,
        other => panic!("{:?}", other),
    };
    assert_eq!(step, Step::Halt { procces: 11, line: b"\nstop\n".to_vec(), relaunch: false });
    assert_eq!(
        server.complete(step, Outcome::Halted(Delivery::Delivered)),
        Turn::Reply(Responce::Success)
    );
    assert_eq!(server.state, ServerStates::Idle);
    let token = token_for(&mut server);
    assert_eq!(
        server.handle_connection(Request::Action(token, ActionRequest::Stop), false),
        Turn::Reply(Responce::Success)
    );
}

#[test]
fn restart_stops_then_launches() {
    let mut server = server_in(ServerStates::Running { procces: 11 });
    let token = token_for(&mut server);
    let turn = server.handle_connection(Request::Action(token, ActionRequest::Restart), false);
    let step = match turn {
        Turn::Perform(step) => step,
        other => panic!("{:?}", other),
    };
    assert_eq!(step, Step::Halt { procces: 11, line: b"\nstop\n".to_vec(), relaunch: true });
    let turn = server.complete(step, Outcome::Halted(Delivery::Delivered));
    assert_eq!(turn, Turn::Perform(Step::Spawn));
    assert_eq!(server.state, ServerStates::Idle);
    assert_eq!(
        server.complete(Step::Spawn, Outcome::Spawned(Some(12))),
        Turn::Reply(Responce::Success)
    );
    assert_eq!(server.state, ServerStates::Running { procces: 12 });
}

#[test]
fn restart_whose_stop_fails_does_not_launch() {
    let mut server = server_in(ServerStates::Running { procces: 11 });
    let step = server.restart().unwrap();
    assert_eq!(
        server.complete(step, Outcome::Halted(Delivery::NoStdin)),
        error("Unable to get childs stdin")
    );
    assert_eq!(server.state, ServerStates::Idle);
}

#[test]
fn restart_while_idle_launches() {
    let mut server = server();
    assert_eq!(server.restart(), Ok(Step::Spawn));
    let mut server = server_in(ServerStates::BackingUp);
    assert_eq!(server.restart(), Err(StateError::PerformingBackup));
    assert_eq!(server.relaunch(Err(StateError::WriteFailed)), Err(StateError::WriteFailed));
}

#[test]
fn command_through_the_dispatcher() {
    let mut server = server_in(ServerStates::Running { procces: 11 });
    let token = token_for(&mut server);
    let request = Request::Action(token, ActionRequest::Command("list".to_string()));
    let turn = server.handle_connection(request, false);
    let step = match turn {
        Turn::Perform(step) => step,
        other => panic!("{:?}", other),
    };
    assert_eq!(step, Step::Write { procces: 11, line: b"list".to_vec() });
    assert_eq!(
        server.complete(step, Outcome::Written(Delivery::Failed)),
        error("Unable to write to childs stdin")
    );
    assert_eq!(server.state, ServerStates::Running { procces: 11 });
    let token = token_for(&mut server);
    let request = Request::Action(token, ActionRequest::Command("list".to_string()));
    let mut idle = server_in(ServerStates::Idle);
    assert_eq!(idle.handle_connection(request, false), error("not verified"));
}

#[test]
fn download_is_not_available() {
    let mut server = server();
    let token = token_for(&mut server);
    assert_eq!(
        server.handle_connection(Request::Action(token, ActionRequest::Download), false),
        error("Download is not available")
    );
    assert_eq!(server.state, ServerStates::Idle);
}

#[test]
fn report_that_answers_another_step_is_out_of_turn() {
    let mut server = server();
    assert_eq!(
        server.complete(Step::Spawn, Outcome::Evicted),
        error("Step reported out of turn")
    );
    assert_eq!(
        server.complete(Step::Done, Outcome::Spawned(Some(1))),
        error("Step reported out of turn")
    );
    assert_eq!(server.state, ServerStates::Idle);
}

#[test]
fn turns_for_decisions() {
    assert_eq!(mcsc::server_state::turn_for(Ok(Step::Done)), Turn::Reply(Responce::Success));
    assert_eq!(mcsc::server_state::turn_for(Ok(Step::Spawn)), Turn::Perform(Step::Spawn));
    assert_eq!(
        mcsc::server_state::turn_for(Err(StateError::ShutingDown)),
        error("Server shutting down")
    );
}

#[test]
fn begin_decides_each_action() {
    let mut server = server();
    assert_eq!(server.begin(&ActionRequest::Launch), Ok(Step::Spawn));
    assert_eq!(server.begin(&ActionRequest::Stop), Ok(Step::Done));
    assert_eq!(server.begin(&ActionRequest::Restart), Ok(Step::Spawn));
    assert_eq!(
        server.begin(&ActionRequest::Command("list".to_string())),
        Err(StateError::NotReady)
    );
    assert_eq!(server.begin(&ActionRequest::Download), Err(StateError::Unsupported));
    assert_eq!(server.state, ServerStates::Idle);
    assert!(matches!(server.begin(&ActionRequest::Backup), Ok(Step::Archive { .. })));
    assert_eq!(server.state, ServerStates::BackingUp);
}

#[test]
fn backup_into_a_named_archive() {
    let mut server = server();
    assert_eq!(
        server.backup_into("backups/x.tar.gz".to_string()),
        Ok(Step::Archive { archive: "backups/x.tar.gz".to_string() })
    );
    assert_eq!(server.state, ServerStates::BackingUp);
    assert_eq!(
        server.backup_into("backups/y.tar.gz".to_string()),
        Err(StateError::BackupInProgress)
    );
}

#[test]
fn relaunch_after_a_stop() {
    let server = server();
    assert_eq!(server.relaunch(Ok(())), Ok(Step::Spawn));
    assert_eq!(server.relaunch(Err(StateError::NoStdin)), Err(StateError::NoStdin));
    let server = server_in(ServerStates::Running { procces: 1 });
    assert_eq!(server.relaunch(Ok(())), Ok(Step::Done));
}

#[test]
fn tokens_of_a_service_are_bounded() {
    let mut server = ServerState::new(config(), 2);
    let first = token_for(&mut server);
    let second = token_for(&mut server);
    let third = token_for(&mut server);
    assert_eq!(server.tokens.len(), 2);
    assert_eq!(
        server.handle_connection(Request::Action(first, ActionRequest::Stop), false),
        error("not verified")
    );
    assert_eq!(
        server.handle_connection(Request::Action(second, ActionRequest::Stop), false),
        Turn::Reply(Responce::Success)
    );
    assert_eq!(
        server.handle_connection(Request::Action(third, ActionRequest::Stop), false),
        Turn::Reply(Responce::Success)
    );
    assert_eq!(server.tokens.len(), 0);
}

#[test]
fn refusals_say_why_in_plain_words() {
    let refusals = [
        (StateError::PerformingBackup, "performing backup"),
        (StateError::ShutingDown, "shutting down"),
        (StateError::NotReady, "not ready to receive commands"),
        (StateError::StillRunning, "still running"),
        (StateError::BackupInProgress, "nother backup is in progress"),
    ];
    for (refusal, words) in refusals {
        assert!(refusal.message().contains(words), "{:?}", refusal);
    }
    let server = server_in(ServerStates::ShutingDown { procces: 1 });
    assert_eq!(server.launch(), Err(StateError::ShutingDown));
    assert_eq!(mcsc::server_state::turn_for(server.launch()), error("Server shutting down"));
    let server = server_in(ServerStates::Idle);
    assert_eq!(
        mcsc::server_state::turn_for(server.run_command("list")),
        error("Server not ready to receive commands")
    );
}

#[test]
fn retention_follows_the_configuration() {
    let mut config = config();
    config.retention = 3;
    let mut server = ServerState::new(config, 8);
    server.state = ServerStates::BackingUp;
    let mut files = Vec::new();
    for n in 1..=5u128 {
        files.push(Listed { path: format!("t{}", n), modified: Some(n) });
    }
    let step = Step::Archive { archive: "backups/a.tar.gz".to_string() };
    assert_eq!(
        server.complete(step, Outcome::Archived(true, files)),
        Turn::Perform(Step::Evict {
            doomed: vec!["t1".to_string(), "t2".to_string()],
            archived: true
        })
    );
}
