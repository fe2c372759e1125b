//! Launches that another process hands over to this one.

use vstd::prelude::*;

verus! {

/// The most launches that wait for the next frame.
pub const MAX_PENDING_FORWARDED_LAUNCHES: usize = 32;

/// The queue after one more launch was handed over: behind the others, and
/// dropped where the queue is full.
pub open spec fn queued(queue: Seq<Option<String>>, cwd: Option<String>) -> Seq<Option<String>> {
    if queue.len() < MAX_PENDING_FORWARDED_LAUNCHES {
        queue.push(cwd)
    } else {
        queue
    }
}

/// Queue a launch that another process handed over, with the directory it asks
/// for. A full queue drops it.
pub fn push_forwarded_launch(queue: &mut Vec<Option<String>>, cwd: Option<String>)
    ensures
        final(queue)@ == queued(old(queue)@, cwd),
{
    if queue.len() < MAX_PENDING_FORWARDED_LAUNCHES {
        queue.push(cwd);
    }
}

/// Take the launches queued since the last call, in order.
pub fn take_forwarded_launches(queue: &mut Vec<Option<String>>) -> (r: Vec<Option<String>>)
    ensures
        r@ == old(queue)@,
        final(queue)@ == Seq::<Option<String>>::empty(),
{
    let mut out: Vec<Option<String>> = Vec::new();
    out.append(queue);
    assert(out@ =~= old(queue)@);
    out
}

/// The queue never holds more than its bound.
pub proof fn the_launch_queue_is_bounded(queue: Seq<Option<String>>, cwd: Option<String>)
    requires
        queue.len() <= MAX_PENDING_FORWARDED_LAUNCHES,
    ensures
        queued(queue, cwd).len() <= MAX_PENDING_FORWARDED_LAUNCHES,
{
}

/// A launch that is handed over waits behind the others while fewer than
/// thirty-two wait; with as many waiting it is dropped, and the others stay.
pub proof fn launches_wait_in_turn(queue: Seq<Option<String>>, cwd: Option<String>)
    ensures
        queue.len() < 32 ==> queued(queue, cwd).len() == queue.len() + 1 && queued(
            queue,
            cwd,
        ).last() == cwd && queued(queue, cwd).drop_last() == queue,
        queue.len() >= 32 ==> queued(queue, cwd) == queue,
{
    assert(queue.push(cwd).drop_last() =~= queue);
}

} // verus!
