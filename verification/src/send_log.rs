//! Send times of pipelined messages that still wait for their reply, kept in
//! order in a `crossbeam_queue::SegQueue`.

use vstd::prelude::*;
use crossbeam_queue::SegQueue;

verus! {

#[verifier::external_type_specification]
#[verifier::external_body]
#[verifier::reject_recursive_types(T)]
pub struct ExSegQueue<T>(SegQueue<T>);

/// The elements of a queue, oldest first.
pub uninterp spec fn queue_items(q: SegQueue<u64>) -> Seq<u64>;

/// Calls `SegQueue::new`: the crate documents a new queue as empty.
#[verifier::external_body]
fn queue_new() -> (q: SegQueue<u64>)
    ensures
        queue_items(q) == Seq::<u64>::empty(),
{
    SegQueue::new()
}

/// Calls `SegQueue::push`: the value goes to the back of the queue.
#[verifier::external_body]
fn queue_push(q: &mut SegQueue<u64>, value: u64)
    ensures
        queue_items(*final(q)) == queue_items(*old(q)).push(value),
{
    q.push(value)
}

/// Calls `SegQueue::pop`: `None` on an empty queue, which stays empty; else the
/// head of the queue, which leaves it.
#[verifier::external_body]
fn queue_pop(q: &mut SegQueue<u64>) -> (r: Option<u64>)
    ensures
        queue_items(*old(q)).len() == 0 ==> r is None && queue_items(*final(q)) == queue_items(*old(q)),
        queue_items(*old(q)).len() > 0 ==> r == Some(queue_items(*old(q))[0])
            && queue_items(*final(q)) == queue_items(*old(q)).drop_first(),
{
    q.pop()
}

/// Send times (in nanoseconds of a monotonic clock) of messages written on a
/// pipelined connection whose replies have not arrived yet, oldest first.
pub struct SendLog {
    queue: SegQueue<u64>,
}

impl View for SendLog {
    type V = Seq<u64>;

    closed spec fn view(&self) -> Seq<u64> {
        queue_items(self.queue)
    }
}

impl SendLog {
    /// An empty log.
    pub fn new() -> (log: SendLog)
        ensures
            log@ == Seq::<u64>::empty(),
    {
        SendLog { queue: queue_new() }
    }

    /// Notes the send time of a message just written.
    pub fn push(&mut self, sent_at: u64)
        ensures
            final(self)@ == old(self)@.push(sent_at),
    {
        queue_push(&mut self.queue, sent_at);
    }

    /// Takes the send time of the oldest message still waiting, if any.
    pub fn pop(&mut self) -> (r: Option<u64>)
        ensures
            old(self)@.len() == 0 ==> r is None && final(self)@ == old(self)@,
            old(self)@.len() > 0 ==> r == Some(old(self)@[0]) && final(self)@ == old(self)@.drop_first(),
    {
        queue_pop(&mut self.queue)
    }
}


/// An operation on a send log.
pub enum LogOp {
    Push(u64),
    Pop,
}

/// What a log holding `log` holds after `ops` (first), and what the pops handed
/// out, in order (second), following `SendLog::push` and `SendLog::pop`.
pub open spec fn run_log(log: Seq<u64>, ops: Seq<LogOp>) -> (Seq<u64>, Seq<u64>)
    decreases ops.len(),
{
    if ops.len() == 0 {
        (log, Seq::empty())
    } else {
        let (held, out) = run_log(log, ops.drop_last());
        match ops.last() {
            LogOp::Push(t) => (held.push(t), out),
            LogOp::Pop => if held.len() > 0 {
                (held.drop_first(), out.push(held[0]))
            } else {
                (held, out)
            },
        }
    }
}

/// The values pushed by `ops`, in order.
pub open spec fn pushed(ops: Seq<LogOp>) -> Seq<u64>
    decreases ops.len(),
{
    if ops.len() == 0 {
        Seq::empty()
    } else {
        match ops.last() {
            LogOp::Push(t) => pushed(ops.drop_last()).push(t),
            LogOp::Pop => pushed(ops.drop_last()),
        }
    }
}

/// First in, first out: however pushes and pops interleave, what the pops hand
/// out followed by what the log still holds is what it held at first followed by
/// what was pushed. So the k-th reply of a pipelined connection is matched with
/// the k-th send time.
pub proof fn lemma_log_is_fifo(log: Seq<u64>, ops: Seq<LogOp>)
    ensures
        run_log(log, ops).1 + run_log(log, ops).0 == log + pushed(ops),
    decreases ops.len(),
{
    if ops.len() > 0 {
        lemma_log_is_fifo(log, ops.drop_last());
        let (held, out) = run_log(log, ops.drop_last());
        match ops.last() {
            LogOp::Push(t) => {
                assert(out + held.push(t) == (out + held).push(t));
            },
            LogOp::Pop => {
                if held.len() > 0 {
                    assert(out.push(held[0]) + held.drop_first() == out + held);
                }
            },
        }
    }
}


/// No more replies are matched with a send time than there were send times: the
/// pops of a log hand out at most what it held at first and what was pushed, and
/// the first of them in order.
pub proof fn lemma_pops_never_outnumber_pushes(log: Seq<u64>, ops: Seq<LogOp>)
    ensures
        run_log(log, ops).1.len() <= log.len() + pushed(ops).len(),
        run_log(log, ops).1 == (log + pushed(ops)).take(run_log(log, ops).1.len() as int),
{
    lemma_log_is_fifo(log, ops);
    let (held, out) = run_log(log, ops);
    assert((out + held).take(out.len() as int) == out);
}

} // verus!
