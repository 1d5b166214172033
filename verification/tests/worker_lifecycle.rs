use gaggle::codec::{encode_command, encode_initializers, encode_metrics};
use gaggle::messages::{GaggleMetrics, RunConfiguration, UserInitializer, WorkerCommand};
use gaggle::worker::{
    DialStep, FatalError, GoAheadStep, PeerLossResponse, Worker, WorkerState,
};

fn test_config(host: &[u8]) -> RunConfiguration {
    RunConfiguration {
        manager: true,
        worker: false,
        manager_host: host.to_vec(),
        manager_port: 5115,
        request_log: b"manager-requests.log".to_vec(),
        request_format: b"json".to_vec(),
        task_log: b"manager-tasks.log".to_vec(),
        task_format: b"json".to_vec(),
        error_log: b"manager-errors.log".to_vec(),
        error_format: b"json".to_vec(),
        debug_log: b"manager-debug.log".to_vec(),
        debug_format: b"json".to_vec(),
        throttle_requests: 0,
    }
}

fn init_with(worker_id: u64, run_time: u64, base_url: &[u8]) -> UserInitializer {
    UserInitializer {
        worker_id,
        task_sets_index: 0,
        base_url: base_url.to_vec(),
        min_wait: 0,
        max_wait: 0,
        config: test_config(b"10.0.0.1"),
        run_time,
    }
}

fn worker_awaiting_assignment(hash: u64) -> Worker {
    let mut w = Worker::new(hash);
    assert_eq!(w.on_dial_result(true), DialStep::Proceed);
    let reg = w.registration_message();
    assert_eq!(reg.len(), 1);
    match &reg[0] {
        GaggleMetrics::WorkerInit(h) => assert_eq!(*h, hash),
        _ => panic!("registration must be WorkerInit"),
    }
    w
}

#[test]
fn dial_retry_bound() {
    // A dial that always fails: five retries of 500 ms each, then the sixth
    // attempt gives up.
    let mut w = Worker::new(1);
    for _ in 0..5 {
        assert_eq!(w.on_dial_result(false), DialStep::RetryAfterMillis(500));
    }
    assert_eq!(w.on_dial_result(false), DialStep::Abort);
}

#[test]
fn dial_success_proceeds() {
    let mut w = Worker::new(1);
    assert_eq!(w.on_dial_result(false), DialStep::RetryAfterMillis(500));
    assert_eq!(w.on_dial_result(true), DialStep::Proceed);
    assert_eq!(w.state, WorkerState::Registering);
}

#[test]
fn assignment_builds_users() {
    let mut w = worker_awaiting_assignment(0xABCD);
    let msg = encode_initializers(&vec![
        init_with(7, 60, b"http://example.com/"),
        init_with(7, 60, b"http://example.com/"),
        init_with(7, 60, b"http://example.com/"),
    ]);
    assert_eq!(w.on_assignment_message(&msg), Ok(3));
    assert_eq!(w.worker_id(), 7);
    assert_eq!(w.run_time, 60);
    assert_eq!(w.user_count(), 3);
    assert_eq!(w.state, WorkerState::AwaitingGoAhead);
    assert_eq!(w.users[0].hash, 0xABCD);
    assert_eq!(w.users[2].base_url, b"http://example.com/".to_vec());
}

#[test]
fn assignment_rejects_exit_command() {
    let mut w = worker_awaiting_assignment(1);
    let msg = encode_command(WorkerCommand::Exit);
    assert_eq!(w.on_assignment_message(&msg), Err(FatalError::ExitBeforeAssignment));
}

#[test]
fn assignment_rejects_other_command() {
    let mut w = worker_awaiting_assignment(1);
    let msg = encode_command(WorkerCommand::Run);
    assert_eq!(w.on_assignment_message(&msg), Err(FatalError::UnexpectedCommand));
}

#[test]
fn assignment_rejects_garbage() {
    let mut w = worker_awaiting_assignment(1);
    assert_eq!(
        w.on_assignment_message(&b"no message at all".to_vec()),
        Err(FatalError::InvalidMessage)
    );
}

#[test]
fn assignment_rejects_bad_base_url() {
    let mut w = worker_awaiting_assignment(1);
    let msg = encode_initializers(&vec![init_with(4, 30, b"not a url")]);
    assert_eq!(w.on_assignment_message(&msg), Err(FatalError::InvalidBaseUrl));
    // Still awaiting an assignment: nothing was built.
    assert_eq!(w.state, WorkerState::AwaitingAssignment);
    assert_eq!(w.user_count(), 0);
}

#[test]
fn goahead_collapses_unknown_commands() {
    let mut w = worker_awaiting_assignment(9);
    let msg = encode_initializers(&vec![init_with(1, 5, b"http://example.com/")]);
    assert_eq!(w.on_assignment_message(&msg), Ok(1));
    // Wait replies keep the Worker polling, unchanged.
    for _ in 0..3 {
        let hb = w.heartbeat_message();
        match &hb[0] {
            GaggleMetrics::WorkerInit(h) => assert_eq!(*h, 9),
            _ => panic!("heartbeat must be WorkerInit"),
        }
        let reply = encode_command(WorkerCommand::Wait);
        assert_eq!(w.on_goahead_reply(&reply), Ok(GoAheadStep::KeepWaitingMillis(1000)));
        assert_eq!(w.state, WorkerState::AwaitingGoAhead);
    }
    let run = encode_command(WorkerCommand::Run);
    assert_eq!(w.on_goahead_reply(&run), Ok(GoAheadStep::StartAttack));
    assert_eq!(w.state, WorkerState::StartingAttack);
}

#[test]
fn goahead_exit_ends_process_and_downgrades_peer_loss() {
    let mut w = worker_awaiting_assignment(9);
    let msg = encode_initializers(&vec![init_with(1, 5, b"http://example.com/")]);
    assert_eq!(w.on_assignment_message(&msg), Ok(1));
    assert_eq!(w.on_peer_loss(), PeerLossResponse::AbortProcess);
    let exit = encode_command(WorkerCommand::Exit);
    assert_eq!(w.on_goahead_reply(&exit), Ok(GoAheadStep::ExitProcess));
    assert_eq!(w.state, WorkerState::Exited);
    assert_eq!(w.on_peer_loss(), PeerLossResponse::LogOnly);
}

#[test]
fn goahead_rejects_garbage() {
    let mut w = worker_awaiting_assignment(9);
    let msg = encode_initializers(&vec![init_with(1, 5, b"http://example.com/")]);
    assert_eq!(w.on_assignment_message(&msg), Ok(1));
    assert_eq!(
        w.on_goahead_reply(&vec![9, 9, 9]),
        Err(FatalError::InvalidMessage)
    );
}

#[test]
fn push_reply_exit_precedence() {
    let mut w = worker_awaiting_assignment(9);
    let msg = encode_initializers(&vec![init_with(1, 5, b"http://example.com/")]);
    assert_eq!(w.on_assignment_message(&msg), Ok(1));
    let run = encode_command(WorkerCommand::Run);
    assert_eq!(w.on_goahead_reply(&run), Ok(GoAheadStep::StartAttack));
    let local = test_config(b"ignored");
    let _plan = w.start_attack_plan(&local);
    assert_eq!(w.state, WorkerState::Running);
    // A Wait reply mid-run means carry on.
    let wait = encode_command(WorkerCommand::Wait);
    assert_eq!(w.on_push_reply(&wait), Ok(true));
    assert_eq!(w.state, WorkerState::Running);
    assert_eq!(w.on_peer_loss(), PeerLossResponse::AbortProcess);
    // An Exit reply stops the stream, whatever was pushed, and downgrades
    // peer loss before returning.
    let exit = encode_command(WorkerCommand::Exit);
    assert_eq!(w.on_push_reply(&exit), Ok(false));
    assert_eq!(w.state, WorkerState::ShuttingDown);
    assert_eq!(w.on_peer_loss(), PeerLossResponse::LogOnly);
}

#[test]
fn merged_attack_configuration() {
    let mut w = worker_awaiting_assignment(9);
    let mut shared = test_config(b"10.9.8.7");
    shared.throttle_requests = 111;
    let init = UserInitializer {
        worker_id: 2,
        task_sets_index: 0,
        base_url: b"http://example.com/".to_vec(),
        min_wait: 0,
        max_wait: 0,
        config: shared,
        run_time: 90,
    };
    let msg = encode_initializers(&vec![init]);
    assert_eq!(w.on_assignment_message(&msg), Ok(1));
    let run = encode_command(WorkerCommand::Run);
    assert_eq!(w.on_goahead_reply(&run), Ok(GoAheadStep::StartAttack));
    let mut local = test_config(b"local-host-ignored");
    local.request_log = b"worker-requests.log".to_vec();
    local.task_format = b"csv".to_vec();
    local.throttle_requests = 25;
    let plan = w.start_attack_plan(&local);
    // Run duration comes from the Manager.
    assert_eq!(plan.run_time, 90);
    // Logs, formats and the throttle come from the Worker's own settings.
    assert_eq!(plan.config.request_log, b"worker-requests.log".to_vec());
    assert_eq!(plan.config.task_format, b"csv".to_vec());
    assert_eq!(plan.config.throttle_requests, 25);
    // The rest comes from the Manager's shared bundle.
    assert_eq!(plan.config.manager_host, b"10.9.8.7".to_vec());
    assert_eq!(plan.config.manager_port, 5115);
    // The mode flags mark a Worker instance.
    assert!(!plan.config.manager);
    assert!(plan.config.worker);
}

#[test]
fn full_scenario_two_heartbeats() {
    // Registration with hash 0xABCD, two initializers with worker id 7 and
    // run duration 60, two keep-waiting rounds, then the go-ahead.
    let mut w = Worker::new(0xABCD);
    assert_eq!(w.on_dial_result(true), DialStep::Proceed);
    let reg = w.registration_message();
    let reg_bytes = encode_metrics(&reg);
    assert!(reg_bytes.len() > 0);
    match &reg[0] {
        GaggleMetrics::WorkerInit(h) => assert_eq!(*h, 0xABCD),
        _ => panic!("registration must be WorkerInit"),
    }
    let msg = encode_initializers(&vec![
        init_with(7, 60, b"http://example.com/"),
        init_with(7, 60, b"http://example.com/"),
    ]);
    assert_eq!(w.on_assignment_message(&msg), Ok(2));
    let mut extra_heartbeats = 0;
    loop {
        let hb = w.heartbeat_message();
        match &hb[0] {
            GaggleMetrics::WorkerInit(h) => assert_eq!(*h, 0xABCD),
            _ => panic!("heartbeat must be WorkerInit"),
        }
        let reply = if extra_heartbeats < 2 {
            encode_command(WorkerCommand::Wait)
        } else {
            encode_command(WorkerCommand::Run)
        };
        match w.on_goahead_reply(&reply).expect("a command reply must decode") {
            GoAheadStep::KeepWaitingMillis(ms) => {
                assert_eq!(ms, 1000);
                extra_heartbeats += 1;
            },
            GoAheadStep::StartAttack => break,
            GoAheadStep::ExitProcess => panic!("no exit was sent"),
        }
    }
    assert_eq!(extra_heartbeats, 2);
    assert_eq!(w.worker_id(), 7);
    assert_eq!(w.run_time, 60);
    assert_eq!(w.user_count(), 2);
    assert_eq!(w.state, WorkerState::StartingAttack);
}
