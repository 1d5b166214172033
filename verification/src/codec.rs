//! Envelope codec: the compact, self-describing binary encoding used for
//! every message on the wire.  Integers travel big-endian in eight bytes,
//! byte strings carry a length prefix, enum variants carry a leading tag.
//!
//! A command message is a single tag byte; an assignment or a metrics push
//! starts with an eight-byte element count, so no byte string is both a valid
//! command and a valid assignment — the speculative decode the Worker
//! performs after registration rests on that.

use vstd::prelude::*;

use crate::messages::{
    ConfigView, GaggleMetrics, InitView, MetricView, RunConfiguration, UserInitializer,
    WorkerCommand, inits_view, metrics_view,
};

verus! {

/// Tag of `WorkerCommand::Run`.
pub const TAG_RUN: u8 = 1;
/// Tag of `WorkerCommand::Exit`.
pub const TAG_EXIT: u8 = 2;
/// Tag of `WorkerCommand::Wait`.
pub const TAG_WAIT: u8 = 3;
/// Tag of `GaggleMetrics::WorkerInit`.
pub const TAG_WORKER_INIT: u8 = 1;
/// Tag of `GaggleMetrics::Requests`.
pub const TAG_REQUESTS: u8 = 2;
/// Tag of `GaggleMetrics::Tasks`.
pub const TAG_TASKS: u8 = 3;
/// Tag of `GaggleMetrics::Errors`.
pub const TAG_ERRORS: u8 = 4;

// ---------------------------------------------------------------------------
// Primitive encodings
// ---------------------------------------------------------------------------

/// The big-endian value of eight bytes.
pub open spec fn u64_from_be(b0: u8, b1: u8, b2: u8, b3: u8, b4: u8, b5: u8, b6: u8, b7: u8) -> u64 {
    ((b0 as u64) << 56) | ((b1 as u64) << 48) | ((b2 as u64) << 40) | ((b3 as u64) << 32)
        | ((b4 as u64) << 24) | ((b5 as u64) << 16) | ((b6 as u64) << 8) | (b7 as u64)
}

/// A `u64` as eight big-endian bytes.
#[verifier::opaque]
pub open spec fn enc_u64(x: u64) -> Seq<u8> {
    seq![
        (x >> 56) as u8, (x >> 48) as u8, (x >> 40) as u8, (x >> 32) as u8,
        (x >> 24) as u8, (x >> 16) as u8, (x >> 8) as u8, x as u8,
    ]
}

/// Reads a `u64` off the front of `s`.
#[verifier::opaque]
pub open spec fn dec_u64(s: Seq<u8>) -> Option<(u64, Seq<u8>)> {
    if s.len() >= 8 {
        Some((u64_from_be(s[0], s[1], s[2], s[3], s[4], s[5], s[6], s[7]), s.skip(8)))
    } else {
        None
    }
}

/// A byte string as a length prefix followed by its bytes.
#[verifier::opaque]
pub open spec fn enc_bytes(b: Seq<u8>) -> Seq<u8> {
    enc_u64(b.len() as u64) + b
}

/// Reads a length-prefixed byte string off the front of `s`.
#[verifier::opaque]
pub open spec fn dec_bytes(s: Seq<u8>) -> Option<(Seq<u8>, Seq<u8>)> {
    match dec_u64(s) {
        Some((n, r)) => {
            if n as int <= r.len() {
                Some((r.take(n as int), r.skip(n as int)))
            } else {
                None
            }
        },
        None => None,
    }
}

/// A boolean as one byte, zero or one.
#[verifier::opaque]
pub open spec fn enc_bool(v: bool) -> Seq<u8> {
    seq![if v { 1u8 } else { 0u8 }]
}

/// Reads a boolean off the front of `s`; any byte but zero or one is invalid.
#[verifier::opaque]
pub open spec fn dec_bool(s: Seq<u8>) -> Option<(bool, Seq<u8>)> {
    if s.len() >= 1 && (s[0] == 0u8 || s[0] == 1u8) {
        Some((s[0] == 1u8, s.skip(1)))
    } else {
        None
    }
}

proof fn lemma_u64_be_roundtrip(x: u64)
    ensures
        u64_from_be(
            (x >> 56) as u8, (x >> 48) as u8, (x >> 40) as u8, (x >> 32) as u8,
            (x >> 24) as u8, (x >> 16) as u8, (x >> 8) as u8, x as u8,
        ) == x,
{
    assert((((x >> 56) as u8 as u64) << 56) | (((x >> 48) as u8 as u64) << 48)
        | (((x >> 40) as u8 as u64) << 40) | (((x >> 32) as u8 as u64) << 32)
        | (((x >> 24) as u8 as u64) << 24) | (((x >> 16) as u8 as u64) << 16)
        | (((x >> 8) as u8 as u64) << 8) | (x as u8 as u64) == x) by (bit_vector);
}

proof fn lemma_dec_enc_u64(x: u64, rest: Seq<u8>)
    ensures
        dec_u64(enc_u64(x) + rest) == Some((x, rest)),
{
    reveal(enc_u64);
    reveal(dec_u64);
    let s = enc_u64(x) + rest;
    assert(s.len() >= 8);
    lemma_u64_be_roundtrip(x);
    assert(s.skip(8) =~= rest);
}

proof fn lemma_dec_enc_bytes(b: Seq<u8>, rest: Seq<u8>)
    requires
        b.len() <= u64::MAX,
    ensures
        dec_bytes(enc_bytes(b) + rest) == Some((b, rest)),
{
    reveal(enc_bytes);
    reveal(dec_bytes);
    let tail = b + rest;
    vstd::seq_lib::lemma_concat_associative(enc_u64(b.len() as u64), b, rest);
    assert(enc_bytes(b) + rest == enc_u64(b.len() as u64) + tail);
    lemma_dec_enc_u64(b.len() as u64, tail);
    assert((b.len() as u64) as int == b.len() as int);
    assert(tail.take(b.len() as int) =~= b);
    assert(tail.skip(b.len() as int) =~= rest);
}

proof fn lemma_dec_enc_bool(v: bool, rest: Seq<u8>)
    ensures
        dec_bool(enc_bool(v) + rest) == Some((v, rest)),
{
    reveal(enc_bool);
    reveal(dec_bool);
    let s = enc_bool(v) + rest;
    assert(s[0] == (if v { 1u8 } else { 0u8 }));
    assert(s.skip(1) =~= rest);
}

// ---------------------------------------------------------------------------
// Commands
// ---------------------------------------------------------------------------

/// The tag byte of a command.
pub open spec fn command_tag(c: WorkerCommand) -> u8 {
    match c {
        WorkerCommand::Run => TAG_RUN,
        WorkerCommand::Exit => TAG_EXIT,
        WorkerCommand::Wait => TAG_WAIT,
    }
}

/// A command message: exactly its tag byte.
pub open spec fn enc_command(c: WorkerCommand) -> Seq<u8> {
    seq![command_tag(c)]
}

/// The command a whole buffer holds, if any.
pub open spec fn dec_command(s: Seq<u8>) -> Option<WorkerCommand> {
    if s.len() == 1 {
        if s[0] == TAG_RUN {
            Some(WorkerCommand::Run)
        } else if s[0] == TAG_EXIT {
            Some(WorkerCommand::Exit)
        } else if s[0] == TAG_WAIT {
            Some(WorkerCommand::Wait)
        } else {
            None
        }
    } else {
        None
    }
}

/// Law: decoding an encoded command gives the command back.
pub proof fn lemma_command_codec_inverse(c: WorkerCommand)
    ensures
        dec_command(enc_command(c)) == Some(c),
{
}

// ---------------------------------------------------------------------------
// Configuration and initializers
// ---------------------------------------------------------------------------

/// Whether a configuration's byte fields all fit the length prefix.  Every
/// value built from in-memory vectors does.
pub open spec fn wf_config(c: ConfigView) -> bool {
    &&& c.manager_host.len() <= u64::MAX
    &&& c.request_log.len() <= u64::MAX
    &&& c.request_format.len() <= u64::MAX
    &&& c.task_log.len() <= u64::MAX
    &&& c.task_format.len() <= u64::MAX
    &&& c.error_log.len() <= u64::MAX
    &&& c.error_format.len() <= u64::MAX
    &&& c.debug_log.len() <= u64::MAX
    &&& c.debug_format.len() <= u64::MAX
}

/// A configuration bundle, field after field.
pub open spec fn enc_config(c: ConfigView) -> Seq<u8> {
    enc_bool(c.manager) + enc_bool(c.worker) + enc_bytes(c.manager_host)
        + enc_u64(c.manager_port as u64) + enc_bytes(c.request_log) + enc_bytes(c.request_format)
        + enc_bytes(c.task_log) + enc_bytes(c.task_format) + enc_bytes(c.error_log)
        + enc_bytes(c.error_format) + enc_bytes(c.debug_log) + enc_bytes(c.debug_format)
        + enc_u64(c.throttle_requests)
}

/// Reads a configuration bundle off the front of `s`.
pub open spec fn dec_config(s: Seq<u8>) -> Option<(ConfigView, Seq<u8>)> {
    match dec_bool(s) {
        None => None,
        Some((manager, s)) => match dec_bool(s) {
            None => None,
            Some((worker, s)) => match dec_bytes(s) {
                None => None,
                Some((manager_host, s)) => match dec_u64(s) {
                    None => None,
                    Some((port, s)) => if port > u16::MAX as u64 {
                        None
                    } else {
                        match dec_bytes(s) {
                            None => None,
                            Some((request_log, s)) => match dec_bytes(s) {
                                None => None,
                                Some((request_format, s)) => match dec_bytes(s) {
                                    None => None,
                                    Some((task_log, s)) => match dec_bytes(s) {
                                        None => None,
                                        Some((task_format, s)) => match dec_bytes(s) {
                                            None => None,
                                            Some((error_log, s)) => match dec_bytes(s) {
                                                None => None,
                                                Some((error_format, s)) => match dec_bytes(s) {
                                                    None => None,
                                                    Some((debug_log, s)) => match dec_bytes(s) {
                                                        None => None,
                                                        Some((debug_format, s)) => match dec_u64(s) {
                                                            None => None,
                                                            Some((throttle_requests, s)) => Some((
                                                                ConfigView {
                                                                    manager,
                                                                    worker,
                                                                    manager_host,
                                                                    manager_port: port as u16,
                                                                    request_log,
                                                                    request_format,
                                                                    task_log,
                                                                    task_format,
                                                                    error_log,
                                                                    error_format,
                                                                    debug_log,
                                                                    debug_format,
                                                                    throttle_requests,
                                                                },
                                                                s,
                                                            )),
                                                        },
                                                    },
                                                },
                                            },
                                        },
                                    },
                                },
                            },
                        }
                    },
                },
            },
        },
    }
}

#[verifier::rlimit(30)]
proof fn lemma_dec_enc_config(c: ConfigView, rest: Seq<u8>)
    requires
        wf_config(c),
    ensures
        dec_config(enc_config(c) + rest) == Some((c, rest)),
{
    let t13 = enc_u64(c.throttle_requests) + rest;
    let t12 = enc_bytes(c.debug_format) + t13;
    let t11 = enc_bytes(c.debug_log) + t12;
    let t10 = enc_bytes(c.error_format) + t11;
    let t9 = enc_bytes(c.error_log) + t10;
    let t8 = enc_bytes(c.task_format) + t9;
    let t7 = enc_bytes(c.task_log) + t8;
    let t6 = enc_bytes(c.request_format) + t7;
    let t5 = enc_bytes(c.request_log) + t6;
    let t4 = enc_u64(c.manager_port as u64) + t5;
    let t3 = enc_bytes(c.manager_host) + t4;
    let t2 = enc_bool(c.worker) + t3;
    let t1 = enc_bool(c.manager) + t2;
    let e1 = enc_bool(c.manager);
    let e2 = enc_bool(c.worker);
    let e3 = enc_bytes(c.manager_host);
    let e4 = enc_u64(c.manager_port as u64);
    let e5 = enc_bytes(c.request_log);
    let e6 = enc_bytes(c.request_format);
    let e7 = enc_bytes(c.task_log);
    let e8 = enc_bytes(c.task_format);
    let e9 = enc_bytes(c.error_log);
    let e10 = enc_bytes(c.error_format);
    let e11 = enc_bytes(c.debug_log);
    let e12 = enc_bytes(c.debug_format);
    let e13 = enc_u64(c.throttle_requests);
    vstd::seq_lib::lemma_concat_associative(
        e1 + e2 + e3 + e4 + e5 + e6 + e7 + e8 + e9 + e10 + e11 + e12, e13, rest);
    vstd::seq_lib::lemma_concat_associative(
        e1 + e2 + e3 + e4 + e5 + e6 + e7 + e8 + e9 + e10 + e11, e12, t13);
    vstd::seq_lib::lemma_concat_associative(
        e1 + e2 + e3 + e4 + e5 + e6 + e7 + e8 + e9 + e10, e11, t12);
    vstd::seq_lib::lemma_concat_associative(
        e1 + e2 + e3 + e4 + e5 + e6 + e7 + e8 + e9, e10, t11);
    vstd::seq_lib::lemma_concat_associative(e1 + e2 + e3 + e4 + e5 + e6 + e7 + e8, e9, t10);
    vstd::seq_lib::lemma_concat_associative(e1 + e2 + e3 + e4 + e5 + e6 + e7, e8, t9);
    vstd::seq_lib::lemma_concat_associative(e1 + e2 + e3 + e4 + e5 + e6, e7, t8);
    vstd::seq_lib::lemma_concat_associative(e1 + e2 + e3 + e4 + e5, e6, t7);
    vstd::seq_lib::lemma_concat_associative(e1 + e2 + e3 + e4, e5, t6);
    vstd::seq_lib::lemma_concat_associative(e1 + e2 + e3, e4, t5);
    vstd::seq_lib::lemma_concat_associative(e1 + e2, e3, t4);
    vstd::seq_lib::lemma_concat_associative(e1, e2, t3);
    assert(enc_config(c) + rest == t1);
    lemma_dec_enc_bool(c.manager, t2);
    lemma_dec_enc_bool(c.worker, t3);
    lemma_dec_enc_bytes(c.manager_host, t4);
    lemma_dec_enc_u64(c.manager_port as u64, t5);
    lemma_dec_enc_bytes(c.request_log, t6);
    lemma_dec_enc_bytes(c.request_format, t7);
    lemma_dec_enc_bytes(c.task_log, t8);
    lemma_dec_enc_bytes(c.task_format, t9);
    lemma_dec_enc_bytes(c.error_log, t10);
    lemma_dec_enc_bytes(c.error_format, t11);
    lemma_dec_enc_bytes(c.debug_log, t12);
    lemma_dec_enc_bytes(c.debug_format, t13);
    lemma_dec_enc_u64(c.throttle_requests, rest);
    assert(dec_bool(t1) == Some((c.manager, t2)));
    assert(dec_bool(t2) == Some((c.worker, t3)));
    assert(dec_bytes(t3) == Some((c.manager_host, t4)));
    assert(dec_u64(t4) == Some((c.manager_port as u64, t5)));
    assert(dec_bytes(t5) == Some((c.request_log, t6)));
    assert(dec_bytes(t6) == Some((c.request_format, t7)));
    assert(dec_bytes(t7) == Some((c.task_log, t8)));
    assert(dec_bytes(t8) == Some((c.task_format, t9)));
    assert(dec_bytes(t9) == Some((c.error_log, t10)));
    assert(dec_bytes(t10) == Some((c.error_format, t11)));
    assert(dec_bytes(t11) == Some((c.debug_log, t12)));
    assert(dec_bytes(t12) == Some((c.debug_format, t13)));
    assert(dec_u64(t13) == Some((c.throttle_requests, rest)));
    let decoded = dec_config(t1).unwrap().0;
    assert(decoded =~= c);
}

/// Whether an initializer's byte fields all fit the length prefix.
pub open spec fn wf_init(i: InitView) -> bool {
    &&& i.base_url.len() <= u64::MAX
    &&& wf_config(i.config)
}

/// One initializer, field after field.
pub open spec fn enc_init(i: InitView) -> Seq<u8> {
    enc_u64(i.worker_id) + enc_u64(i.task_sets_index) + enc_bytes(i.base_url)
        + enc_u64(i.min_wait) + enc_u64(i.max_wait) + enc_config(i.config) + enc_u64(i.run_time)
}

/// Reads one initializer off the front of `s`.
pub open spec fn dec_init(s: Seq<u8>) -> Option<(InitView, Seq<u8>)> {
    match dec_u64(s) {
        None => None,
        Some((worker_id, s)) => match dec_u64(s) {
            None => None,
            Some((task_sets_index, s)) => match dec_bytes(s) {
                None => None,
                Some((base_url, s)) => match dec_u64(s) {
                    None => None,
                    Some((min_wait, s)) => match dec_u64(s) {
                        None => None,
                        Some((max_wait, s)) => match dec_config(s) {
                            None => None,
                            Some((config, s)) => match dec_u64(s) {
                                None => None,
                                Some((run_time, s)) => Some((
                                    InitView {
                                        worker_id,
                                        task_sets_index,
                                        base_url,
                                        min_wait,
                                        max_wait,
                                        config,
                                        run_time,
                                    },
                                    s,
                                )),
                            },
                        },
                    },
                },
            },
        },
    }
}

proof fn lemma_dec_enc_init(i: InitView, rest: Seq<u8>)
    requires
        wf_init(i),
    ensures
        dec_init(enc_init(i) + rest) == Some((i, rest)),
{
    let t7 = enc_u64(i.run_time) + rest;
    let t6 = enc_config(i.config) + t7;
    let t5 = enc_u64(i.max_wait) + t6;
    let t4 = enc_u64(i.min_wait) + t5;
    let t3 = enc_bytes(i.base_url) + t4;
    let t2 = enc_u64(i.task_sets_index) + t3;
    let t1 = enc_u64(i.worker_id) + t2;
    let e1 = enc_u64(i.worker_id);
    let e2 = enc_u64(i.task_sets_index);
    let e3 = enc_bytes(i.base_url);
    let e4 = enc_u64(i.min_wait);
    let e5 = enc_u64(i.max_wait);
    let e6 = enc_config(i.config);
    let e7 = enc_u64(i.run_time);
    vstd::seq_lib::lemma_concat_associative(e1 + e2 + e3 + e4 + e5 + e6, e7, rest);
    vstd::seq_lib::lemma_concat_associative(e1 + e2 + e3 + e4 + e5, e6, t7);
    vstd::seq_lib::lemma_concat_associative(e1 + e2 + e3 + e4, e5, t6);
    vstd::seq_lib::lemma_concat_associative(e1 + e2 + e3, e4, t5);
    vstd::seq_lib::lemma_concat_associative(e1 + e2, e3, t4);
    vstd::seq_lib::lemma_concat_associative(e1, e2, t3);
    assert(enc_init(i) + rest == t1);
    lemma_dec_enc_u64(i.worker_id, t2);
    lemma_dec_enc_u64(i.task_sets_index, t3);
    lemma_dec_enc_bytes(i.base_url, t4);
    lemma_dec_enc_u64(i.min_wait, t5);
    lemma_dec_enc_u64(i.max_wait, t6);
    lemma_dec_enc_config(i.config, t7);
    lemma_dec_enc_u64(i.run_time, rest);
    let decoded = dec_init(t1).unwrap().0;
    assert(decoded =~= i);
}

/// Whether a whole assignment fits the encoding's counters.
pub open spec fn wf_inits(is: Seq<InitView>) -> bool {
    &&& is.len() <= u64::MAX
    &&& forall|j: int| 0 <= j < is.len() ==> wf_init(#[trigger] is[j])
}

/// The elements of an assignment, one after the other.
pub open spec fn enc_inits_items(is: Seq<InitView>) -> Seq<u8>
    decreases is.len(),
{
    if is.len() == 0 {
        Seq::empty()
    } else {
        enc_init(is[0]) + enc_inits_items(is.skip(1))
    }
}

/// An assignment message: element count, then the elements.
pub open spec fn enc_inits(is: Seq<InitView>) -> Seq<u8> {
    enc_u64(is.len() as u64) + enc_inits_items(is)
}

/// Reads `n` initializers off the front of `s`.
pub open spec fn dec_inits_items(s: Seq<u8>, n: nat) -> Option<(Seq<InitView>, Seq<u8>)>
    decreases n,
{
    if n == 0 {
        Some((Seq::empty(), s))
    } else {
        match dec_init(s) {
            None => None,
            Some((i, r)) => match dec_inits_items(r, (n - 1) as nat) {
                None => None,
                Some((tail, rest)) => Some((seq![i] + tail, rest)),
            },
        }
    }
}

/// The assignment a whole buffer holds, if any: the counted elements must
/// consume the buffer exactly.
pub open spec fn dec_inits(s: Seq<u8>) -> Option<Seq<InitView>> {
    match dec_u64(s) {
        None => None,
        Some((n, r)) => match dec_inits_items(r, n as nat) {
            None => None,
            Some((is, rest)) => if rest.len() == 0 {
                Some(is)
            } else {
                None
            },
        },
    }
}

#[verifier::rlimit(30)]
proof fn lemma_dec_enc_inits_items(is: Seq<InitView>, rest: Seq<u8>)
    requires
        forall|j: int| 0 <= j < is.len() ==> wf_init(#[trigger] is[j]),
    ensures
        dec_inits_items(enc_inits_items(is) + rest, is.len()) == Some((is, rest)),
    decreases is.len(),
{
    if is.len() == 0 {
        assert(enc_inits_items(is) + rest =~= rest);
        assert(dec_inits_items(rest, 0) == Some((Seq::<InitView>::empty(), rest)));
        assert(is =~= Seq::<InitView>::empty());
    } else {
        let tail = is.skip(1);
        let tail_enc = enc_inits_items(tail) + rest;
        vstd::seq_lib::lemma_concat_associative(enc_init(is[0]), enc_inits_items(tail), rest);
        assert(enc_inits_items(is) + rest == enc_init(is[0]) + tail_enc);
        assert(wf_init(is[0]));
        assert(forall|j: int| 0 <= j < tail.len() ==> wf_init(#[trigger] tail[j])) by {
            assert(forall|j: int| 0 <= j < tail.len() ==> tail[j] == is[j + 1]);
        }
        lemma_dec_enc_init(is[0], tail_enc);
        lemma_dec_enc_inits_items(tail, rest);
        assert(seq![is[0]] + tail =~= is);
    }
}

/// Law: decoding an encoded assignment gives the same initializers back.
pub proof fn lemma_inits_codec_inverse(is: Seq<InitView>)
    requires
        wf_inits(is),
    ensures
        dec_inits(enc_inits(is)) == Some(is),
{
    let items = enc_inits_items(is);
    assert(enc_inits(is) =~= enc_u64(is.len() as u64) + (items + Seq::<u8>::empty()));
    assert(items + Seq::<u8>::empty() =~= items);
    lemma_dec_enc_u64(is.len() as u64, items);
    lemma_dec_enc_inits_items(is, Seq::empty());
}

// ---------------------------------------------------------------------------
// Metrics
// ---------------------------------------------------------------------------

/// Whether a metrics item's payload fits the length prefix.
pub open spec fn wf_metric(m: MetricView) -> bool {
    match m {
        MetricView::WorkerInit(_) => true,
        MetricView::Requests(b) => b.len() <= u64::MAX,
        MetricView::Tasks(b) => b.len() <= u64::MAX,
        MetricView::Errors(b) => b.len() <= u64::MAX,
    }
}

/// Whether a whole metrics push fits the encoding's counters.
pub open spec fn wf_metrics(ms: Seq<MetricView>) -> bool {
    &&& ms.len() <= u64::MAX
    &&& forall|j: int| 0 <= j < ms.len() ==> wf_metric(#[trigger] ms[j])
}

/// One metrics item: its tag, then its payload.
pub open spec fn enc_metric(m: MetricView) -> Seq<u8> {
    match m {
        MetricView::WorkerInit(h) => seq![TAG_WORKER_INIT] + enc_u64(h),
        MetricView::Requests(b) => seq![TAG_REQUESTS] + enc_bytes(b),
        MetricView::Tasks(b) => seq![TAG_TASKS] + enc_bytes(b),
        MetricView::Errors(b) => seq![TAG_ERRORS] + enc_bytes(b),
    }
}

/// Reads one metrics item off the front of `s`.
pub open spec fn dec_metric(s: Seq<u8>) -> Option<(MetricView, Seq<u8>)> {
    if s.len() < 1 {
        None
    } else {
        let t = s.skip(1);
        if s[0] == TAG_WORKER_INIT {
            match dec_u64(t) {
                None => None,
                Some((h, r)) => Some((MetricView::WorkerInit(h), r)),
            }
        } else if s[0] == TAG_REQUESTS {
            match dec_bytes(t) {
                None => None,
                Some((b, r)) => Some((MetricView::Requests(b), r)),
            }
        } else if s[0] == TAG_TASKS {
            match dec_bytes(t) {
                None => None,
                Some((b, r)) => Some((MetricView::Tasks(b), r)),
            }
        } else if s[0] == TAG_ERRORS {
            match dec_bytes(t) {
                None => None,
                Some((b, r)) => Some((MetricView::Errors(b), r)),
            }
        } else {
            None
        }
    }
}

/// The items of a push, one after the other.
pub open spec fn enc_metrics_items(ms: Seq<MetricView>) -> Seq<u8>
    decreases ms.len(),
{
    if ms.len() == 0 {
        Seq::empty()
    } else {
        enc_metric(ms[0]) + enc_metrics_items(ms.skip(1))
    }
}

/// A metrics message: item count, then the items.
pub open spec fn enc_metrics(ms: Seq<MetricView>) -> Seq<u8> {
    enc_u64(ms.len() as u64) + enc_metrics_items(ms)
}

/// Reads `n` metrics items off the front of `s`.
pub open spec fn dec_metrics_items(s: Seq<u8>, n: nat) -> Option<(Seq<MetricView>, Seq<u8>)>
    decreases n,
{
    if n == 0 {
        Some((Seq::empty(), s))
    } else {
        match dec_metric(s) {
            None => None,
            Some((m, r)) => match dec_metrics_items(r, (n - 1) as nat) {
                None => None,
                Some((tail, rest)) => Some((seq![m] + tail, rest)),
            },
        }
    }
}

/// The metrics push a whole buffer holds, if any.
pub open spec fn dec_metrics(s: Seq<u8>) -> Option<Seq<MetricView>> {
    match dec_u64(s) {
        None => None,
        Some((n, r)) => match dec_metrics_items(r, n as nat) {
            None => None,
            Some((ms, rest)) => if rest.len() == 0 {
                Some(ms)
            } else {
                None
            },
        },
    }
}

proof fn lemma_dec_enc_metric(m: MetricView, rest: Seq<u8>)
    requires
        wf_metric(m),
    ensures
        dec_metric(enc_metric(m) + rest) == Some((m, rest)),
{
    match m {
        MetricView::WorkerInit(h) => {
            assert((enc_metric(m) + rest).skip(1) =~= enc_u64(h) + rest);
            lemma_dec_enc_u64(h, rest);
        },
        MetricView::Requests(b) => {
            assert((enc_metric(m) + rest).skip(1) =~= enc_bytes(b) + rest);
            lemma_dec_enc_bytes(b, rest);
        },
        MetricView::Tasks(b) => {
            assert((enc_metric(m) + rest).skip(1) =~= enc_bytes(b) + rest);
            lemma_dec_enc_bytes(b, rest);
        },
        MetricView::Errors(b) => {
            assert((enc_metric(m) + rest).skip(1) =~= enc_bytes(b) + rest);
            lemma_dec_enc_bytes(b, rest);
        },
    }
}

proof fn lemma_dec_enc_metrics_items(ms: Seq<MetricView>, rest: Seq<u8>)
    requires
        forall|j: int| 0 <= j < ms.len() ==> wf_metric(#[trigger] ms[j]),
    ensures
        dec_metrics_items(enc_metrics_items(ms) + rest, ms.len()) == Some((ms, rest)),
    decreases ms.len(),
{
    if ms.len() == 0 {
        assert(enc_metrics_items(ms) + rest =~= rest);
        assert(ms =~= Seq::<MetricView>::empty());
    } else {
        let tail = ms.skip(1);
        let tail_enc = enc_metrics_items(tail) + rest;
        assert(enc_metrics_items(ms) + rest =~= enc_metric(ms[0]) + tail_enc);
        lemma_dec_enc_metric(ms[0], tail_enc);
        lemma_dec_enc_metrics_items(tail, rest);
        assert(seq![ms[0]] + tail =~= ms);
    }
}

/// Law: decoding an encoded metrics push gives the same items back.
pub proof fn lemma_metrics_codec_inverse(ms: Seq<MetricView>)
    requires
        wf_metrics(ms),
    ensures
        dec_metrics(enc_metrics(ms)) == Some(ms),
{
    let items = enc_metrics_items(ms);
    assert(enc_metrics(ms) =~= enc_u64(ms.len() as u64) + (items + Seq::<u8>::empty()));
    assert(items + Seq::<u8>::empty() =~= items);
    lemma_dec_enc_u64(ms.len() as u64, items);
    lemma_dec_enc_metrics_items(ms, Seq::empty());
}

/// Law: no byte string is both a valid command and a valid assignment, so
/// the Worker's speculative decode after registration is unambiguous.
pub proof fn lemma_assignment_unambiguous(s: Seq<u8>)
    ensures
        !(dec_command(s) is Some && dec_inits(s) is Some),
{
    reveal(dec_u64);
}

// ---------------------------------------------------------------------------
// Executable encoders
// ---------------------------------------------------------------------------

/// Appends a `u64` in big-endian order.
fn push_u64(out: &mut Vec<u8>, x: u64)
    ensures
        final(out)@ == old(out)@ + enc_u64(x),
{
    out.push((x >> 56) as u8);
    out.push((x >> 48) as u8);
    out.push((x >> 40) as u8);
    out.push((x >> 32) as u8);
    out.push((x >> 24) as u8);
    out.push((x >> 16) as u8);
    out.push((x >> 8) as u8);
    out.push(x as u8);
    proof {
        reveal(enc_u64);
        assert(out@ =~= old(out)@ + enc_u64(x));
    }
}

/// Appends a length-prefixed byte string.
fn push_bytes(out: &mut Vec<u8>, b: &Vec<u8>)
    ensures
        final(out)@ == old(out)@ + enc_bytes(b@),
{
    let ghost o0 = out@;
    push_u64(out, b.len() as u64);
    let mut i: usize = 0;
    while i < b.len()
        invariant
            i <= b.len(),
            out@ == o0 + enc_u64(b@.len() as u64) + b@.take(i as int),
        decreases b.len() - i,
    {
        out.push(b[i]);
        i = i + 1;
        proof {
            assert(out@ =~= o0 + enc_u64(b@.len() as u64) + b@.take(i as int));
        }
    }
    proof {
        reveal(enc_bytes);
        assert(b@.take(b@.len() as int) =~= b@);
        assert(out@ =~= o0 + enc_bytes(b@));
    }
}

/// Appends a boolean as one byte.
fn push_bool(out: &mut Vec<u8>, v: bool)
    ensures
        final(out)@ == old(out)@ + enc_bool(v),
{
    out.push(if v { 1u8 } else { 0u8 });
    proof {
        reveal(enc_bool);
        assert(out@ =~= old(out)@ + enc_bool(v));
    }
}

/// Encodes one command message.
pub fn encode_command(c: WorkerCommand) -> (r: Vec<u8>)
    ensures
        r@ == enc_command(c),
{
    let mut out: Vec<u8> = Vec::new();
    match c {
        WorkerCommand::Run => out.push(TAG_RUN),
        WorkerCommand::Exit => out.push(TAG_EXIT),
        WorkerCommand::Wait => out.push(TAG_WAIT),
    }
    proof {
        assert(out@ =~= enc_command(c));
    }
    out
}

/// Appends an encoded configuration bundle.
fn push_config(out: &mut Vec<u8>, c: &RunConfiguration)
    ensures
        final(out)@ == old(out)@ + enc_config(c@),
{
    let ghost o0 = out@;
    push_bool(out, c.manager);
    push_bool(out, c.worker);
    push_bytes(out, &c.manager_host);
    push_u64(out, c.manager_port as u64);
    push_bytes(out, &c.request_log);
    push_bytes(out, &c.request_format);
    push_bytes(out, &c.task_log);
    push_bytes(out, &c.task_format);
    push_bytes(out, &c.error_log);
    push_bytes(out, &c.error_format);
    push_bytes(out, &c.debug_log);
    push_bytes(out, &c.debug_format);
    push_u64(out, c.throttle_requests);
    proof {
        assert(out@ =~= o0 + enc_config(c@));
    }
}

/// Appends one encoded initializer.
fn push_init(out: &mut Vec<u8>, i: &UserInitializer)
    ensures
        final(out)@ == old(out)@ + enc_init(i@),
{
    let ghost o0 = out@;
    push_u64(out, i.worker_id);
    push_u64(out, i.task_sets_index);
    push_bytes(out, &i.base_url);
    push_u64(out, i.min_wait);
    push_u64(out, i.max_wait);
    push_config(out, &i.config);
    push_u64(out, i.run_time);
    proof {
        assert(out@ =~= o0 + enc_init(i@));
    }
}

proof fn lemma_enc_inits_items_push(t: Seq<InitView>, x: InitView)
    ensures
        enc_inits_items(t.push(x)) == enc_inits_items(t) + enc_init(x),
    decreases t.len(),
{
    if t.len() == 0 {
        reveal_with_fuel(enc_inits_items, 2);
        assert(t.push(x)[0] == x);
        assert(t.push(x).skip(1) =~= Seq::<InitView>::empty());
        assert(enc_inits_items(t.push(x)) =~= enc_init(x) + Seq::<u8>::empty());
        assert(enc_inits_items(t) + enc_init(x) =~= enc_init(x) + Seq::<u8>::empty());
    } else {
        assert(t.push(x)[0] == t[0]);
        assert(t.push(x).skip(1) =~= t.skip(1).push(x));
        lemma_enc_inits_items_push(t.skip(1), x);
        vstd::seq_lib::lemma_concat_associative(enc_init(t[0]), enc_inits_items(t.skip(1)), enc_init(x));
    }
}

/// Encodes a whole assignment message.
pub fn encode_initializers(is: &Vec<UserInitializer>) -> (r: Vec<u8>)
    ensures
        r@ == enc_inits(inits_view(is@)),
{
    let mut out: Vec<u8> = Vec::new();
    push_u64(&mut out, is.len() as u64);
    let mut k: usize = 0;
    proof {
        assert(inits_view(is@).take(0) =~= Seq::<InitView>::empty());
        assert(out@ =~= Seq::<u8>::empty() + enc_u64(is@.len() as u64));
        assert(out@ =~= enc_u64(is@.len() as u64) + enc_inits_items(inits_view(is@).take(0)));
    }
    while k < is.len()
        invariant
            k <= is.len(),
            out@ == enc_u64(is@.len() as u64) + enc_inits_items(inits_view(is@).take(k as int)),
        decreases is.len() - k,
    {
        push_init(&mut out, &is[k]);
        proof {
            let vs = inits_view(is@);
            assert(vs.take(k + 1) =~= vs.take(k as int).push(is@[k as int]@));
            lemma_enc_inits_items_push(vs.take(k as int), is@[k as int]@);
            vstd::seq_lib::lemma_concat_associative(
                enc_u64(is@.len() as u64),
                enc_inits_items(vs.take(k as int)),
                enc_init(is@[k as int]@),
            );
        }
        k = k + 1;
    }
    proof {
        assert(inits_view(is@).take(is@.len() as int) =~= inits_view(is@));
        assert((is@.len() as u64) == (inits_view(is@).len() as u64));
    }
    out
}

/// Appends one encoded metrics item.
fn push_metric(out: &mut Vec<u8>, m: &GaggleMetrics)
    ensures
        final(out)@ == old(out)@ + enc_metric(m@),
{
    let ghost o0 = out@;
    match m {
        GaggleMetrics::WorkerInit(h) => {
            out.push(TAG_WORKER_INIT);
            push_u64(out, *h);
        },
        GaggleMetrics::Requests(b) => {
            out.push(TAG_REQUESTS);
            push_bytes(out, b);
        },
        GaggleMetrics::Tasks(b) => {
            out.push(TAG_TASKS);
            push_bytes(out, b);
        },
        GaggleMetrics::Errors(b) => {
            out.push(TAG_ERRORS);
            push_bytes(out, b);
        },
    }
    proof {
        assert(out@ =~= o0 + enc_metric(m@));
    }
}

proof fn lemma_enc_metrics_items_push(t: Seq<MetricView>, x: MetricView)
    ensures
        enc_metrics_items(t.push(x)) == enc_metrics_items(t) + enc_metric(x),
    decreases t.len(),
{
    if t.len() == 0 {
        reveal_with_fuel(enc_metrics_items, 2);
        assert(t.push(x)[0] == x);
        assert(t.push(x).skip(1) =~= Seq::<MetricView>::empty());
        assert(enc_metrics_items(t.push(x)) =~= enc_metric(x) + Seq::<u8>::empty());
        assert(enc_metrics_items(t) + enc_metric(x) =~= enc_metric(x) + Seq::<u8>::empty());
    } else {
        assert(t.push(x)[0] == t[0]);
        assert(t.push(x).skip(1) =~= t.skip(1).push(x));
        lemma_enc_metrics_items_push(t.skip(1), x);
        vstd::seq_lib::lemma_concat_associative(enc_metric(t[0]), enc_metrics_items(t.skip(1)), enc_metric(x));
    }
}

/// Encodes a whole metrics push.
pub fn encode_metrics(ms: &Vec<GaggleMetrics>) -> (r: Vec<u8>)
    ensures
        r@ == enc_metrics(metrics_view(ms@)),
{
    let mut out: Vec<u8> = Vec::new();
    push_u64(&mut out, ms.len() as u64);
    let mut k: usize = 0;
    proof {
        assert(metrics_view(ms@).take(0) =~= Seq::<MetricView>::empty());
        assert(out@ =~= enc_u64(ms@.len() as u64) + enc_metrics_items(metrics_view(ms@).take(0)));
    }
    while k < ms.len()
        invariant
            k <= ms.len(),
            out@ == enc_u64(ms@.len() as u64) + enc_metrics_items(metrics_view(ms@).take(k as int)),
        decreases ms.len() - k,
    {
        push_metric(&mut out, &ms[k]);
        proof {
            let vs = metrics_view(ms@);
            assert(vs.take(k + 1) =~= vs.take(k as int).push(ms@[k as int]@));
            lemma_enc_metrics_items_push(vs.take(k as int), ms@[k as int]@);
            vstd::seq_lib::lemma_concat_associative(
                enc_u64(ms@.len() as u64),
                enc_metrics_items(vs.take(k as int)),
                enc_metric(ms@[k as int]@),
            );
        }
        k = k + 1;
    }
    proof {
        assert(metrics_view(ms@).take(ms@.len() as int) =~= metrics_view(ms@));
        assert((ms@.len() as u64) == (metrics_view(ms@).len() as u64));
    }
    out
}


// ---------------------------------------------------------------------------
// Executable decoders
// ---------------------------------------------------------------------------

/// Decodes a whole buffer as one command.
pub fn decode_command(buf: &Vec<u8>) -> (r: Option<WorkerCommand>)
    ensures
        r == dec_command(buf@),
{
    if buf.len() == 1 {
        let b = buf[0];
        if b == TAG_RUN {
            Some(WorkerCommand::Run)
        } else if b == TAG_EXIT {
            Some(WorkerCommand::Exit)
        } else if b == TAG_WAIT {
            Some(WorkerCommand::Wait)
        } else {
            None
        }
    } else {
        None
    }
}

/// Reads a big-endian `u64` at `off`; on success the new offset follows it.
fn take_u64(buf: &Vec<u8>, off: usize) -> (r: Option<(u64, usize)>)
    requires
        off <= buf@.len(),
    ensures
        match r {
            Some(p) => p.1 <= buf@.len()
                && dec_u64(buf@.skip(off as int)) == Some((p.0, buf@.skip(p.1 as int))),
            None => dec_u64(buf@.skip(off as int)) is None,
        },
{
    proof {
        reveal(dec_u64);
    }
    if buf.len() - off >= 8 {
        let x = ((buf[off] as u64) << 56) | ((buf[off + 1] as u64) << 48)
            | ((buf[off + 2] as u64) << 40) | ((buf[off + 3] as u64) << 32)
            | ((buf[off + 4] as u64) << 24) | ((buf[off + 5] as u64) << 16)
            | ((buf[off + 6] as u64) << 8) | (buf[off + 7] as u64);
        proof {
            let s = buf@.skip(off as int);
            assert(s.len() >= 8);
            assert(s.skip(8) =~= buf@.skip(off as int + 8));
        }
        Some((x, off + 8))
    } else {
        None
    }
}

/// Reads a length-prefixed byte string at `off`.
fn take_bytes(buf: &Vec<u8>, off: usize) -> (r: Option<(Vec<u8>, usize)>)
    requires
        off <= buf@.len(),
    ensures
        match r {
            Some(p) => p.1 <= buf@.len()
                && dec_bytes(buf@.skip(off as int)) == Some((p.0@, buf@.skip(p.1 as int))),
            None => dec_bytes(buf@.skip(off as int)) is None,
        },
{
    proof {
        reveal(dec_bytes);
    }
    let (n, o1) = match take_u64(buf, off) {
        Some(p) => p,
        None => {
            return None;
        },
    };
    if n <= (buf.len() - o1) as u64 {
        let end = o1 + n as usize;
        let mut v: Vec<u8> = Vec::new();
        let mut i: usize = o1;
        while i < end
            invariant
                o1 <= i <= end <= buf@.len(),
                v@ == buf@.subrange(o1 as int, i as int),
            decreases end - i,
        {
            v.push(buf[i]);
            i = i + 1;
            proof {
                assert(v@ =~= buf@.subrange(o1 as int, i as int));
            }
        }
        proof {
            let rem = buf@.skip(o1 as int);
            assert(rem.take(n as int) =~= buf@.subrange(o1 as int, end as int));
            assert(rem.skip(n as int) =~= buf@.skip(end as int));
        }
        Some((v, end))
    } else {
        None
    }
}

/// Reads a boolean byte at `off`.
fn take_bool(buf: &Vec<u8>, off: usize) -> (r: Option<(bool, usize)>)
    requires
        off <= buf@.len(),
    ensures
        match r {
            Some(p) => p.1 <= buf@.len()
                && dec_bool(buf@.skip(off as int)) == Some((p.0, buf@.skip(p.1 as int))),
            None => dec_bool(buf@.skip(off as int)) is None,
        },
{
    proof {
        reveal(dec_bool);
    }
    if off < buf.len() && (buf[off] == 0 || buf[off] == 1) {
        proof {
            assert(buf@.skip(off as int).skip(1) =~= buf@.skip(off as int + 1));
        }
        Some((buf[off] == 1, off + 1))
    } else {
        None
    }
}

/// Reads a configuration bundle at `off`.
fn take_config(buf: &Vec<u8>, off: usize) -> (r: Option<(RunConfiguration, usize)>)
    requires
        off <= buf@.len(),
    ensures
        match r {
            Some(p) => p.1 <= buf@.len()
                && dec_config(buf@.skip(off as int)) == Some((p.0@, buf@.skip(p.1 as int))),
            None => dec_config(buf@.skip(off as int)) is None,
        },
{
    let (manager, o) = match take_bool(buf, off) {
        Some(p) => p,
        None => {
            return None;
        },
    };
    let (worker, o) = match take_bool(buf, o) {
        Some(p) => p,
        None => {
            return None;
        },
    };
    let (manager_host, o) = match take_bytes(buf, o) {
        Some(p) => p,
        None => {
            return None;
        },
    };
    let (port, o) = match take_u64(buf, o) {
        Some(p) => p,
        None => {
            return None;
        },
    };
    if port > u16::MAX as u64 {
        return None;
    }
    let (request_log, o) = match take_bytes(buf, o) {
        Some(p) => p,
        None => {
            return None;
        },
    };
    let (request_format, o) = match take_bytes(buf, o) {
        Some(p) => p,
        None => {
            return None;
        },
    };
    let (task_log, o) = match take_bytes(buf, o) {
        Some(p) => p,
        None => {
            return None;
        },
    };
    let (task_format, o) = match take_bytes(buf, o) {
        Some(p) => p,
        None => {
            return None;
        },
    };
    let (error_log, o) = match take_bytes(buf, o) {
        Some(p) => p,
        None => {
            return None;
        },
    };
    let (error_format, o) = match take_bytes(buf, o) {
        Some(p) => p,
        None => {
            return None;
        },
    };
    let (debug_log, o) = match take_bytes(buf, o) {
        Some(p) => p,
        None => {
            return None;
        },
    };
    let (debug_format, o) = match take_bytes(buf, o) {
        Some(p) => p,
        None => {
            return None;
        },
    };
    let (throttle_requests, o) = match take_u64(buf, o) {
        Some(p) => p,
        None => {
            return None;
        },
    };
    let c = RunConfiguration {
        manager,
        worker,
        manager_host,
        manager_port: port as u16,
        request_log,
        request_format,
        task_log,
        task_format,
        error_log,
        error_format,
        debug_log,
        debug_format,
        throttle_requests,
    };
    proof {
        assert(dec_config(buf@.skip(off as int)).unwrap().0 =~= c@);
    }
    Some((c, o))
}

/// Reads one initializer at `off`.
fn take_init(buf: &Vec<u8>, off: usize) -> (r: Option<(UserInitializer, usize)>)
    requires
        off <= buf@.len(),
    ensures
        match r {
            Some(p) => p.1 <= buf@.len()
                && dec_init(buf@.skip(off as int)) == Some((p.0@, buf@.skip(p.1 as int))),
            None => dec_init(buf@.skip(off as int)) is None,
        },
{
    let (worker_id, o) = match take_u64(buf, off) {
        Some(p) => p,
        None => {
            return None;
        },
    };
    let (task_sets_index, o) = match take_u64(buf, o) {
        Some(p) => p,
        None => {
            return None;
        },
    };
    let (base_url, o) = match take_bytes(buf, o) {
        Some(p) => p,
        None => {
            return None;
        },
    };
    let (min_wait, o) = match take_u64(buf, o) {
        Some(p) => p,
        None => {
            return None;
        },
    };
    let (max_wait, o) = match take_u64(buf, o) {
        Some(p) => p,
        None => {
            return None;
        },
    };
    let (config, o) = match take_config(buf, o) {
        Some(p) => p,
        None => {
            return None;
        },
    };
    let (run_time, o) = match take_u64(buf, o) {
        Some(p) => p,
        None => {
            return None;
        },
    };
    let i = UserInitializer {
        worker_id,
        task_sets_index,
        base_url,
        min_wait,
        max_wait,
        config,
        run_time,
    };
    proof {
        assert(dec_init(buf@.skip(off as int)).unwrap().0 =~= i@);
    }
    Some((i, o))
}

/// Decodes a whole buffer as one assignment message.
pub fn decode_initializers(buf: &Vec<u8>) -> (r: Option<Vec<UserInitializer>>)
    ensures
        match r {
            Some(v) => dec_inits(buf@) == Some(inits_view(v@)),
            None => dec_inits(buf@) is None,
        },
{
    proof {
        assert(buf@.skip(0) =~= buf@);
    }
    let (n, mut off) = match take_u64(buf, 0) {
        Some(p) => p,
        None => {
            return None;
        },
    };
    let ghost s0 = buf@.skip(off as int);
    let mut out: Vec<UserInitializer> = Vec::new();
    let mut k: u64 = 0;
    proof {
        assert(inits_view(out@) =~= Seq::<InitView>::empty());
    }
    while k < n
        invariant
            k <= n,
            off <= buf@.len(),
            dec_u64(buf@) == Some((n, s0)),
            match dec_inits_items(buf@.skip(off as int), (n - k) as nat) {
                Some(p) => dec_inits_items(s0, n as nat) == Some(
                    (inits_view(out@) + p.0, p.1),
                ),
                None => dec_inits_items(s0, n as nat) is None,
            },
        decreases n - k,
    {
        let (iv, off2) = match take_init(buf, off) {
            Some(p) => p,
            None => {
                return None;
            },
        };
        proof {
            let m = (n - k) as nat;
            let s_cur = buf@.skip(off as int);
            let s_next = buf@.skip(off2 as int);
            assert(dec_inits_items(s_cur, m) == match dec_inits_items(s_next, (m - 1) as nat) {
                None => None::<(Seq<InitView>, Seq<u8>)>,
                Some(p) => Some((seq![iv@] + p.0, p.1)),
            });
            match dec_inits_items(s_next, (m - 1) as nat) {
                None => {},
                Some(p) => {
                    assert(inits_view(out@.push(iv)) =~= inits_view(out@).push(iv@));
                    assert(inits_view(out@).push(iv@) =~= inits_view(out@) + seq![iv@]);
                    vstd::seq_lib::lemma_concat_associative(inits_view(out@), seq![iv@], p.0);
                },
            }
        }
        out.push(iv);
        off = off2;
        k = k + 1;
    }
    proof {
        assert(dec_inits_items(buf@.skip(off as int), 0) == Some(
            (Seq::<InitView>::empty(), buf@.skip(off as int)),
        ));
        assert(inits_view(out@) + Seq::<InitView>::empty() =~= inits_view(out@));
    }
    if off == buf.len() {
        proof {
            assert(buf@.skip(off as int).len() == 0);
        }
        Some(out)
    } else {
        proof {
            assert(buf@.skip(off as int).len() > 0);
        }
        None
    }
}

/// Reads one metrics item at `off`.
fn take_metric(buf: &Vec<u8>, off: usize) -> (r: Option<(GaggleMetrics, usize)>)
    requires
        off <= buf@.len(),
    ensures
        match r {
            Some(p) => p.1 <= buf@.len()
                && dec_metric(buf@.skip(off as int)) == Some((p.0@, buf@.skip(p.1 as int))),
            None => dec_metric(buf@.skip(off as int)) is None,
        },
{
    if off >= buf.len() {
        return None;
    }
    let tag = buf[off];
    proof {
        assert(buf@.skip(off as int)[0] == buf@[off as int]);
        assert(buf@.skip(off as int).skip(1) =~= buf@.skip(off as int + 1));
    }
    if tag == TAG_WORKER_INIT {
        match take_u64(buf, off + 1) {
            Some((h, end)) => Some((GaggleMetrics::WorkerInit(h), end)),
            None => None,
        }
    } else if tag == TAG_REQUESTS {
        match take_bytes(buf, off + 1) {
            Some((b, end)) => Some((GaggleMetrics::Requests(b), end)),
            None => None,
        }
    } else if tag == TAG_TASKS {
        match take_bytes(buf, off + 1) {
            Some((b, end)) => Some((GaggleMetrics::Tasks(b), end)),
            None => None,
        }
    } else if tag == TAG_ERRORS {
        match take_bytes(buf, off + 1) {
            Some((b, end)) => Some((GaggleMetrics::Errors(b), end)),
            None => None,
        }
    } else {
        None
    }
}

/// Decodes a whole buffer as one metrics push.
pub fn decode_metrics(buf: &Vec<u8>) -> (r: Option<Vec<GaggleMetrics>>)
    ensures
        match r {
            Some(v) => dec_metrics(buf@) == Some(metrics_view(v@)),
            None => dec_metrics(buf@) is None,
        },
{
    proof {
        assert(buf@.skip(0) =~= buf@);
    }
    let (n, mut off) = match take_u64(buf, 0) {
        Some(p) => p,
        None => {
            return None;
        },
    };
    let ghost s0 = buf@.skip(off as int);
    let mut out: Vec<GaggleMetrics> = Vec::new();
    let mut k: u64 = 0;
    proof {
        assert(metrics_view(out@) =~= Seq::<MetricView>::empty());
    }
    while k < n
        invariant
            k <= n,
            off <= buf@.len(),
            dec_u64(buf@) == Some((n, s0)),
            match dec_metrics_items(buf@.skip(off as int), (n - k) as nat) {
                Some(p) => dec_metrics_items(s0, n as nat) == Some(
                    (metrics_view(out@) + p.0, p.1),
                ),
                None => dec_metrics_items(s0, n as nat) is None,
            },
        decreases n - k,
    {
        let (mv, off2) = match take_metric(buf, off) {
            Some(p) => p,
            None => {
                return None;
            },
        };
        proof {
            let m = (n - k) as nat;
            let s_next = buf@.skip(off2 as int);
            match dec_metrics_items(s_next, (m - 1) as nat) {
                None => {},
                Some(p) => {
                    assert(metrics_view(out@.push(mv)) =~= metrics_view(out@).push(mv@));
                    assert(metrics_view(out@).push(mv@) =~= metrics_view(out@) + seq![mv@]);
                    vstd::seq_lib::lemma_concat_associative(metrics_view(out@), seq![mv@], p.0);
                },
            }
        }
        out.push(mv);
        off = off2;
        k = k + 1;
    }
    proof {
        assert(metrics_view(out@) + Seq::<MetricView>::empty() =~= metrics_view(out@));
    }
    if off == buf.len() {
        Some(out)
    } else {
        proof {
            assert(buf@.skip(off as int).len() > 0);
        }
        None
    }
}

} // verus!
