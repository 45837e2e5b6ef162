//! The queue of the threads that are ready to run.
use crossbeam_queue::SegQueue;
use vstd::prelude::*;
use crate::scheduler::thread::Thread;

verus! {

#[verifier::external_type_specification]
#[verifier::external_body]
#[verifier::reject_recursive_types(T)]
pub struct ExSegQueue<T>(SegQueue<T>);

/// The threads in the queue, the one that leaves next first.
pub uninterp spec fn queued(queue: SegQueue<Thread>) -> Seq<Thread>;

/// `SegQueue::new`: a queue that holds nothing.
#[verifier::external_body]
pub(crate) fn queue_new() -> (queue: SegQueue<Thread>)
    ensures
        queued(queue) == Seq::<Thread>::empty(),
{
    SegQueue::new()
}

/// `SegQueue::push`: the element goes to the tail, behind all that are in
/// the queue.
#[verifier::external_body]
pub(crate) fn queue_push(queue: &mut SegQueue<Thread>, thread: Thread)
    ensures
        queued(*final(queue)) == queued(*old(queue)).push(thread),
{
    queue.push(thread)
}

/// `SegQueue::pop`: the element at the head leaves the queue and is
/// returned; an empty queue returns nothing and stays empty.
#[verifier::external_body]
pub(crate) fn queue_pop(queue: &mut SegQueue<Thread>) -> (r: Option<Thread>)
    ensures
        queued(*old(queue)).len() == 0 ==> r is None && queued(*final(queue)) == queued(*old(queue)),
        queued(*old(queue)).len() > 0 ==> r == Some(queued(*old(queue))[0]) && queued(*final(queue))
            == queued(*old(queue)).drop_first(),
{
    queue.pop()
}

/// `SegQueue::len`: the number of elements in the queue.
#[verifier::external_body]
pub(crate) fn queue_len(queue: &SegQueue<Thread>) -> (r: usize)
    ensures
        r == queued(*queue).len(),
{
    queue.len()
}

} // verus!
