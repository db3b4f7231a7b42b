//! The decision core of the streaming delivery stage.
//!
//! The host process owns the socket and the clock; this module owns every
//! decision. The sender is a state machine over {Disconnected, Connected}:
//! the host performs the returned action (connect, sleep, block on the
//! queue, write a record) and reports what happened as the next event. The
//! bounded handoff queue is modelled here as well, so the backpressure and
//! ordering discipline can be stated and proved.

use vstd::prelude::*;
use crate::codec::{encode_sample_line, sample_line_rep};
use crate::pipeline::Sample;
use crate::RETRY_INTERVAL_SECS;
use crate::LANGUAGE_NAME;

verus! {

/// Connection state of the one sender task.
#[derive(Clone, Copy, PartialEq, Eq, Structural, Debug)]
pub enum SenderState {
    /// No connection; the next step is a connection attempt.
    Disconnected,
    /// A live connection; the next step drains the queue.
    Connected,
    /// The queue closed and drained: the clean terminal state.
    Done,
}

/// What the host observed while performing the previous action.
pub enum SenderEvent {
    /// A connection attempt succeeded.
    ConnectSucceeded,
    /// A connection attempt failed.
    ConnectFailed,
    /// The queue handed over a sample.
    SampleReceived(Sample),
    /// The queue is closed and drained.
    QueueClosed,
    /// The last record was written and flushed.
    WriteSucceeded,
    /// Writing the last record failed; the in-flight record is dropped
    /// (at-most-once delivery).
    WriteFailed,
}

/// What the host must do next.
pub enum SenderAction {
    /// Try to connect to the collector now.
    AttemptConnect,
    /// Sleep this many seconds, then try to connect again.
    SleepThenRetry(u64),
    /// Block on the queue for the next sample.
    AwaitSample,
    /// Write this line (newline included) and flush it.
    WriteRecord(String),
    /// Stop cleanly.
    Exit,
}

/// Which events can be observed in which state.
pub open spec fn event_fits(st: SenderState, ev: SenderEvent) -> bool {
    match ev {
        SenderEvent::ConnectSucceeded => st is Disconnected,
        SenderEvent::ConnectFailed => st is Disconnected,
        SenderEvent::SampleReceived(_) => st is Connected,
        SenderEvent::QueueClosed => st is Connected,
        SenderEvent::WriteSucceeded => st is Connected,
        SenderEvent::WriteFailed => st is Connected,
    }
}

/// One decision of the sender task. Every transition of the streaming stage
/// is here: connect failures sleep a fixed interval and retry forever;
/// a received sample is framed as one newline-terminated record; a write
/// failure reconnects at once; a closed, drained queue ends the task.
pub fn sender_step(st: SenderState, ev: SenderEvent) -> (r: (SenderState, SenderAction))
    requires
        event_fits(st, ev),
    ensures
        ev is ConnectSucceeded ==> r.0 is Connected && r.1 is AwaitSample,
        ev is ConnectFailed ==> r.0 is Disconnected && (r.1 matches SenderAction::SleepThenRetry(
            secs,
        ) && secs == RETRY_INTERVAL_SECS),
        forall|s: Sample|
            ev == SenderEvent::SampleReceived(s) ==> r.0 is Connected && (
            r.1 matches SenderAction::WriteRecord(line) && line@ =~= sample_line_rep(
                LANGUAGE_NAME@,
                s.name@,
                s.duration_nanos as nat,
            ) + seq!['\n']),
        ev is WriteSucceeded ==> r.0 is Connected && r.1 is AwaitSample,
        ev is WriteFailed ==> r.0 is Disconnected && r.1 is AttemptConnect,
        ev is QueueClosed ==> r.0 is Done && r.1 is Exit,
{
    match ev {
        SenderEvent::ConnectSucceeded => (SenderState::Connected, SenderAction::AwaitSample),
        SenderEvent::ConnectFailed => (
            SenderState::Disconnected,
            SenderAction::SleepThenRetry(RETRY_INTERVAL_SECS),
        ),
        SenderEvent::SampleReceived(s) => {
            let mut line = encode_sample_line(LANGUAGE_NAME, s.name, s.duration_nanos);
            line.append("\n");
            proof {
                reveal_strlit("\n");
                assert(line@ =~= sample_line_rep(
                    LANGUAGE_NAME@,
                    s.name@,
                    s.duration_nanos as nat,
                ) + seq!['\n']);
            }
            (SenderState::Connected, SenderAction::WriteRecord(line))
        },
        SenderEvent::QueueClosed => (SenderState::Done, SenderAction::Exit),
        SenderEvent::WriteSucceeded => (SenderState::Connected, SenderAction::AwaitSample),
        SenderEvent::WriteFailed => (SenderState::Disconnected, SenderAction::AttemptConnect),
    }
}

// ---------------------------------------------------------------------------
// The reconnect discipline
// ---------------------------------------------------------------------------

/// The state reached and the sleeps performed after a sequence of connection
/// outcomes, starting disconnected: each failure records one fixed-interval
/// sleep, a success connects.
pub open spec fn fold_connect(outcomes: Seq<bool>) -> (SenderState, Seq<u64>)
    decreases outcomes.len(),
{
    if outcomes.len() == 0 {
        (SenderState::Disconnected, Seq::empty())
    } else {
        let prev = fold_connect(outcomes.drop_last());
        if prev.0 is Connected {
            prev
        } else if outcomes.last() {
            (SenderState::Connected, prev.1)
        } else {
            (SenderState::Disconnected, prev.1.push(RETRY_INTERVAL_SECS))
        }
    }
}

/// Reconnect law: if the collector refuses the first `n` attempts and then
/// accepts, the sender sleeps the fixed retry interval exactly once per
/// refusal — never giving up, never growing the backoff — and ends
/// connected.
pub proof fn lemma_reconnect_discipline(outcomes: Seq<bool>, n: int)
    requires
        0 <= n,
        outcomes.len() == n + 1,
        forall|i: int| 0 <= i < n ==> !outcomes[i],
        outcomes[n],
    ensures
        fold_connect(outcomes).0 is Connected,
        fold_connect(outcomes).1.len() == n,
        forall|i: int| 0 <= i < n ==> fold_connect(outcomes).1[i] == RETRY_INTERVAL_SECS,
    decreases n,
{
    let prefix = outcomes.drop_last();
    if n == 0 {
        assert(fold_connect(prefix).0 is Disconnected);
    } else {
        lemma_all_failures_keep_retrying(prefix);
    }
}

/// After nothing but failures the sender is still disconnected and has slept
/// once per failure, always the same interval.
pub proof fn lemma_all_failures_keep_retrying(outcomes: Seq<bool>)
    requires
        forall|i: int| 0 <= i < outcomes.len() ==> !outcomes[i],
    ensures
        fold_connect(outcomes).0 is Disconnected,
        fold_connect(outcomes).1.len() == outcomes.len(),
        forall|i: int|
            0 <= i < outcomes.len() ==> fold_connect(outcomes).1[i] == RETRY_INTERVAL_SECS,
    decreases outcomes.len(),
{
    if outcomes.len() > 0 {
        lemma_all_failures_keep_retrying(outcomes.drop_last());
    }
}

// ---------------------------------------------------------------------------
// The bounded handoff queue, as a model
// ---------------------------------------------------------------------------

/// Model of the bounded queue between the samplers and the sender: the
/// entries in arrival order, and the fixed capacity.
pub struct QueueModel {
    pub cap: nat,
    pub entries: Seq<(Seq<char>, u64)>,
}

impl QueueModel {
    /// Entries never exceed the capacity.
    pub open spec fn wf(self) -> bool {
        self.entries.len() <= self.cap
    }

    /// A producer's enqueue: refused — the producer blocks, nothing is
    /// dropped — exactly when the queue is full.
    pub open spec fn enqueue(self, s: (Seq<char>, u64)) -> Option<QueueModel> {
        if self.entries.len() >= self.cap {
            None
        } else {
            Some(QueueModel { cap: self.cap, entries: self.entries.push(s) })
        }
    }

    /// The sender's dequeue: the oldest entry leaves first.
    pub open spec fn dequeue(self) -> Option<(QueueModel, (Seq<char>, u64))> {
        if self.entries.len() == 0 {
            None
        } else {
            Some(
                (
                    QueueModel { cap: self.cap, entries: self.entries.drop_first() },
                    self.entries.first(),
                ),
            )
        }
    }
}

/// Backpressure law: with the queue at capacity, one more enqueue is refused
/// — the producer blocks until the consumer drains — and no entry is ever
/// dropped to make room; and an accepted enqueue keeps the queue within its
/// capacity and loses nothing.
pub proof fn lemma_backpressure(q: QueueModel, s: (Seq<char>, u64))
    requires
        q.wf(),
    ensures
        q.entries.len() == q.cap ==> q.enqueue(s) is None,
        q.enqueue(s) matches Some(q2) ==> q2.wf() && q2.entries =~= q.entries.push(s),
{
}

/// Enqueue each of `ss` in order, assuming every enqueue is accepted.
pub open spec fn enqueue_all(q: QueueModel, ss: Seq<(Seq<char>, u64)>) -> QueueModel
    decreases ss.len(),
{
    if ss.len() == 0 {
        q
    } else {
        let prev = enqueue_all(q, ss.drop_last());
        QueueModel { cap: q.cap, entries: prev.entries.push(ss.last()) }
    }
}

/// Ordering law: what one producer enqueues leaves the queue in enqueue
/// order — after the sender connects, queued samples are forwarded first-in
/// first-out.
pub proof fn lemma_fifo_order(q: QueueModel, ss: Seq<(Seq<char>, u64)>)
    ensures
        enqueue_all(q, ss).entries =~= q.entries + ss,
        enqueue_all(q, ss).cap == q.cap,
    decreases ss.len(),
{
    if ss.len() > 0 {
        lemma_fifo_order(q, ss.drop_last());
        assert(q.entries + ss =~= (q.entries + ss.drop_last()).push(ss.last()));
    }
}

/// Draining law: a dequeue hands back exactly the oldest entry and keeps the
/// rest in order.
pub proof fn lemma_dequeue_oldest(q: QueueModel)
    requires
        q.wf(),
        q.entries.len() > 0,
    ensures
        q.dequeue() matches Some(r) && r.1 == q.entries[0] && r.0.entries =~= q.entries.drop_first()
            && r.0.wf(),
{
}

} // verus!
