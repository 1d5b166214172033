use gaggle::codec::encode_metrics;
use gaggle::manager::{ManagerError, ManagerPeer};
use gaggle::messages::{GaggleMetrics, WorkerCommand};

fn init_push(hash: u64) -> Vec<u8> {
    encode_metrics(&vec![GaggleMetrics::WorkerInit(hash)])
}

#[test]
fn registration_then_heartbeats() {
    let mut peer = ManagerPeer::new(0xABCD);
    assert!(!peer.registered);
    // The registration push.
    let msg = init_push(0xABCD);
    assert_eq!(peer.on_worker_message(&msg, WorkerCommand::Wait), Ok(WorkerCommand::Wait));
    assert!(peer.registered);
    // The same shape again is a heartbeat: answered with the current command,
    // never a duplicate-registration error.
    assert_eq!(peer.on_worker_message(&msg, WorkerCommand::Wait), Ok(WorkerCommand::Wait));
    assert!(peer.registered);
    assert_eq!(peer.on_worker_message(&msg, WorkerCommand::Run), Ok(WorkerCommand::Run));
    assert!(peer.registered);
}

#[test]
fn hash_mismatch_is_detected_early() {
    let mut peer = ManagerPeer::new(0xABCD);
    let msg = init_push(0xBEEF);
    assert_eq!(
        peer.on_worker_message(&msg, WorkerCommand::Wait),
        Err(ManagerError::HashMismatch)
    );
    assert!(!peer.registered);
}

#[test]
fn hash_mismatch_after_registration() {
    let mut peer = ManagerPeer::new(7);
    let good = init_push(7);
    assert_eq!(peer.on_worker_message(&good, WorkerCommand::Wait), Ok(WorkerCommand::Wait));
    let bad = init_push(8);
    assert_eq!(
        peer.on_worker_message(&bad, WorkerCommand::Wait),
        Err(ManagerError::HashMismatch)
    );
    assert!(peer.registered);
}

#[test]
fn invalid_push_is_rejected() {
    let mut peer = ManagerPeer::new(1);
    assert_eq!(
        peer.on_worker_message(&b"not a push".to_vec(), WorkerCommand::Wait),
        Err(ManagerError::InvalidMessage)
    );
    assert!(!peer.registered);
}

#[test]
fn telemetry_does_not_register() {
    let mut peer = ManagerPeer::new(1);
    let msg = encode_metrics(&vec![
        GaggleMetrics::Requests(b"batch".to_vec()),
        GaggleMetrics::Tasks(vec![]),
    ]);
    assert_eq!(peer.on_worker_message(&msg, WorkerCommand::Run), Ok(WorkerCommand::Run));
    assert!(!peer.registered);
}

#[test]
fn mixed_push_with_init_registers() {
    let mut peer = ManagerPeer::new(5);
    let msg = encode_metrics(&vec![
        GaggleMetrics::Errors(b"e".to_vec()),
        GaggleMetrics::WorkerInit(5),
    ]);
    assert_eq!(peer.on_worker_message(&msg, WorkerCommand::Wait), Ok(WorkerCommand::Wait));
    assert!(peer.registered);
}
