use gaggle::address::manager_address;
use gaggle::codec::{
    decode_command, decode_initializers, decode_metrics, encode_command, encode_initializers,
    encode_metrics,
};
use gaggle::messages::{GaggleMetrics, RunConfiguration, UserInitializer, WorkerCommand};

fn sample_config() -> RunConfiguration {
    RunConfiguration {
        manager: false,
        worker: false,
        manager_host: b"127.0.0.1".to_vec(),
        manager_port: 5115,
        request_log: b"requests.log".to_vec(),
        request_format: b"json".to_vec(),
        task_log: b"tasks.log".to_vec(),
        task_format: b"csv".to_vec(),
        error_log: b"errors.log".to_vec(),
        error_format: b"json".to_vec(),
        debug_log: b"debug.log".to_vec(),
        debug_format: b"raw".to_vec(),
        throttle_requests: 250,
    }
}

fn sample_init(worker_id: u64, run_time: u64) -> UserInitializer {
    UserInitializer {
        worker_id,
        task_sets_index: 3,
        base_url: b"http://example.com/".to_vec(),
        min_wait: 10,
        max_wait: 500,
        config: sample_config(),
        run_time,
    }
}

#[test]
fn command_round_trip() {
    for c in [WorkerCommand::Run, WorkerCommand::Exit, WorkerCommand::Wait] {
        let bytes = encode_command(c);
        assert_eq!(bytes.len(), 1);
        assert_eq!(decode_command(&bytes), Some(c));
    }
}

#[test]
fn command_rejects_garbage() {
    assert_eq!(decode_command(&vec![]), None);
    assert_eq!(decode_command(&vec![99]), None);
    assert_eq!(decode_command(&vec![1, 1]), None);
}

#[test]
fn metrics_round_trip() {
    let ms = vec![
        GaggleMetrics::WorkerInit(0xABCD),
        GaggleMetrics::Requests(b"req-batch".to_vec()),
        GaggleMetrics::Tasks(vec![]),
        GaggleMetrics::Errors(b"err".to_vec()),
    ];
    let bytes = encode_metrics(&ms);
    let back = decode_metrics(&bytes).expect("a valid metrics push must decode");
    assert_eq!(back.len(), 4);
    match &back[0] {
        GaggleMetrics::WorkerInit(h) => assert_eq!(*h, 0xABCD),
        _ => panic!("first item must be WorkerInit"),
    }
    match &back[1] {
        GaggleMetrics::Requests(b) => assert_eq!(b, &b"req-batch".to_vec()),
        _ => panic!("second item must be Requests"),
    }
    match &back[2] {
        GaggleMetrics::Tasks(b) => assert_eq!(b.len(), 0),
        _ => panic!("third item must be Tasks"),
    }
    match &back[3] {
        GaggleMetrics::Errors(b) => assert_eq!(b, &b"err".to_vec()),
        _ => panic!("fourth item must be Errors"),
    }
}

#[test]
fn metrics_rejects_trailing_bytes() {
    let ms = vec![GaggleMetrics::WorkerInit(1)];
    let mut bytes = encode_metrics(&ms);
    bytes.push(0);
    assert!(decode_metrics(&bytes).is_none());
}

#[test]
fn initializers_round_trip() {
    let is = vec![sample_init(7, 60), sample_init(7, 60)];
    let bytes = encode_initializers(&is);
    let back = decode_initializers(&bytes).expect("a valid assignment must decode");
    assert_eq!(back.len(), 2);
    assert_eq!(back[0].worker_id, 7);
    assert_eq!(back[0].run_time, 60);
    assert_eq!(back[0].task_sets_index, 3);
    assert_eq!(back[0].base_url, b"http://example.com/".to_vec());
    assert_eq!(back[0].min_wait, 10);
    assert_eq!(back[0].max_wait, 500);
    assert_eq!(back[0].config.manager_host, b"127.0.0.1".to_vec());
    assert_eq!(back[0].config.manager_port, 5115);
    assert_eq!(back[0].config.request_log, b"requests.log".to_vec());
    assert_eq!(back[0].config.debug_format, b"raw".to_vec());
    assert_eq!(back[0].config.throttle_requests, 250);
    assert_eq!(back[1].worker_id, 7);
}

#[test]
fn empty_assignment_round_trip() {
    let is: Vec<UserInitializer> = vec![];
    let bytes = encode_initializers(&is);
    let back = decode_initializers(&bytes).expect("an empty assignment must decode");
    assert_eq!(back.len(), 0);
}

#[test]
fn initializers_reject_trailing_bytes() {
    let is = vec![sample_init(1, 30)];
    let mut bytes = encode_initializers(&is);
    bytes.push(7);
    assert!(decode_initializers(&bytes).is_none());
}

#[test]
fn speculative_decode_is_unambiguous() {
    // A command message never decodes as an assignment, and the other way
    // round, so the try-assignment-then-command order cannot misread either.
    for c in [WorkerCommand::Run, WorkerCommand::Exit, WorkerCommand::Wait] {
        let cmd_bytes = encode_command(c);
        assert!(decode_initializers(&cmd_bytes).is_none());
    }
    let assign_bytes = encode_initializers(&vec![sample_init(2, 45)]);
    assert_eq!(decode_command(&assign_bytes), None);
}

#[test]
fn address_formatting() {
    let addr = manager_address(&b"127.0.0.1".to_vec(), 5115);
    assert_eq!(addr, b"tcp://127.0.0.1:5115".to_vec());
    let addr = manager_address(&b"manager.example".to_vec(), 80);
    assert_eq!(addr, b"tcp://manager.example:80".to_vec());
    let addr = manager_address(&b"h".to_vec(), 0);
    assert_eq!(addr, b"tcp://h:0".to_vec());
    let addr = manager_address(&b"h".to_vec(), 65535);
    assert_eq!(addr, b"tcp://h:65535".to_vec());
}
