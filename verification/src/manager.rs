//! The Manager's side of the protocol, per connected Worker: take each push,
//! tell a registration from a heartbeat, detect a test-definition mismatch
//! early, and reply with the current command.
//!
//! A `WorkerInit` received after registration is a heartbeat — "still
//! waiting, please reply with the current command" — never a duplicate
//! registration error.

use vstd::prelude::*;

use crate::codec::{dec_metrics, decode_metrics};
use crate::messages::{MetricView, WorkerCommand};

verus! {

/// Why the Manager rejects a Worker push.
#[derive(Clone, Copy, Debug, PartialEq, Eq, Structural)]
pub enum ManagerError {
    /// The bytes are no metrics push.
    InvalidMessage,
    /// The Worker reported a test-definition fingerprint other than the
    /// Manager's own: the fleet would not run the identical test.
    HashMismatch,
}

/// What the Manager tracks per connected Worker.
pub struct ManagerPeer {
    /// The Manager's own fingerprint of the test definition.
    pub expected_hash: u64,
    /// Whether this Worker's registration arrived.
    pub registered: bool,
}

/// Whether some item of a push is a `WorkerInit`.
pub open spec fn has_worker_init(ms: Seq<MetricView>) -> bool {
    exists|j: int| 0 <= j < ms.len() && (#[trigger] ms[j]) is WorkerInit
}

/// Whether some `WorkerInit` of a push carries a fingerprint other than `h`.
pub open spec fn has_mismatched_init(ms: Seq<MetricView>, h: u64) -> bool {
    exists|j: int| 0 <= j < ms.len() && (#[trigger] ms[j]) is WorkerInit
        && ms[j]->WorkerInit_0 != h
}

/// The peer after one accepted push: registered once any `WorkerInit` with
/// the right fingerprint arrived, and for good.
pub open spec fn peer_next(p: ManagerPeer, ms: Seq<MetricView>) -> ManagerPeer {
    ManagerPeer { registered: p.registered || has_worker_init(ms), ..p }
}

impl ManagerPeer {
    /// A peer of which nothing arrived yet.
    pub fn new(expected_hash: u64) -> (p: ManagerPeer)
        ensures
            p.expected_hash == expected_hash,
            !p.registered,
    {
        ManagerPeer { expected_hash, registered: false }
    }

    /// Takes one Worker push and decides the reply.  A push that is no
    /// metrics message is invalid; a `WorkerInit` with a foreign fingerprint
    /// is a mismatch, whether first or repeated; everything else — telemetry
    /// batches, the registration, and every later heartbeat alike — is
    /// answered with the current command.
    pub fn on_worker_message(&mut self, msg: &Vec<u8>, current: WorkerCommand) -> (r: Result<
        WorkerCommand,
        ManagerError,
    >)
        ensures
            match dec_metrics(msg@) {
                Some(ms) => {
                    if has_mismatched_init(ms, old(self).expected_hash) {
                        &&& r == Err::<WorkerCommand, ManagerError>(ManagerError::HashMismatch)
                        &&& *final(self) == *old(self)
                    } else {
                        &&& r == Ok::<WorkerCommand, ManagerError>(current)
                        &&& *final(self) == peer_next(*old(self), ms)
                    }
                },
                None => {
                    &&& r == Err::<WorkerCommand, ManagerError>(ManagerError::InvalidMessage)
                    &&& *final(self) == *old(self)
                },
            },
    {
        let items = match decode_metrics(msg) {
            Some(items) => items,
            None => {
                return Err(ManagerError::InvalidMessage);
            },
        };
        let ghost ms = dec_metrics(msg@).unwrap();
        let mut saw_init = false;
        let mut j: usize = 0;
        while j < items.len()
            invariant
                j <= items.len(),
                dec_metrics(msg@) == Some(ms),
                ms == crate::messages::metrics_view(items@),
                !has_mismatched_init(ms.take(j as int), self.expected_hash),
                saw_init == has_worker_init(ms.take(j as int)),
                self == old(self),
            decreases items.len() - j,
        {
            match &items[j] {
                crate::messages::GaggleMetrics::WorkerInit(h) => {
                    if *h != self.expected_hash {
                        proof {
                            assert(ms[j as int] is WorkerInit
                                && ms[j as int]->WorkerInit_0 != self.expected_hash);
                        }
                        return Err(ManagerError::HashMismatch);
                    }
                    saw_init = true;
                },
                _ => {},
            }
            j = j + 1;
            proof {
                let pre = ms.take(j - 1);
                let cur = ms.take(j as int);
                assert(cur =~= pre.push(ms[j - 1]));
                assert forall|t: int| 0 <= t < cur.len() implies !(
                    (#[trigger] cur[t]) is WorkerInit
                        && cur[t]->WorkerInit_0 != self.expected_hash
                ) by {
                    if t < j - 1 {
                        assert(cur[t] == pre[t]);
                    }
                }
                assert(cur[j - 1] == ms[j - 1]);
                if has_worker_init(pre) {
                    let t = choose|t: int| 0 <= t < pre.len() && (#[trigger] pre[t]) is WorkerInit;
                    assert(cur[t] == pre[t]);
                    assert(has_worker_init(cur));
                }
                if ms[j - 1] is WorkerInit {
                    assert(has_worker_init(cur));
                }
                if has_worker_init(cur) && !has_worker_init(pre) && !(ms[j - 1] is WorkerInit) {
                    let t = choose|t: int| 0 <= t < cur.len() && (#[trigger] cur[t]) is WorkerInit;
                    if t < j - 1 {
                        assert(pre[t] == cur[t]);
                    }
                    assert(false);
                }
            }
        }
        proof {
            assert(ms.take(ms.len() as int) =~= ms);
        }
        self.registered = self.registered || saw_init;
        Ok(current)
    }
}

/// Law: once a Worker is registered, a repeated `WorkerInit` with the
/// registered fingerprint is a heartbeat — the reply is the current command,
/// never an error, and the peer's record does not change.
pub proof fn lemma_heartbeat_is_no_reregistration(p: ManagerPeer, h: u64)
    requires
        p.registered,
        h == p.expected_hash,
    ensures
        !has_mismatched_init(crate::worker::worker_init_message(h), p.expected_hash),
        peer_next(p, crate::worker::worker_init_message(h)) == p,
{
    let ms = crate::worker::worker_init_message(h);
    assert forall|j: int| 0 <= j < ms.len() implies !(
        (#[trigger] ms[j]) is WorkerInit && ms[j]->WorkerInit_0 != p.expected_hash
    ) by {
        assert(ms[j] == MetricView::WorkerInit(h));
    }
}

} // verus!
