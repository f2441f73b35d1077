//! Reading raw keyboard input.
use crate::task::keyboard::ScancodeQueue;
use vstd::prelude::*;

verus! {

/// Takes the oldest scancode that the keyboard interrupt queued, if any.
pub fn getch(queue: &mut ScancodeQueue) -> (r: Option<u8>)
    ensures
        old(queue)@.len() == 0 ==> r == None::<u8> && final(queue)@ == old(queue)@,
        old(queue)@.len() > 0 ==> r == Some(old(queue)@[0]) && final(queue)@ == old(
            queue,
        )@.drop_first(),
        final(queue)@.len() <= crate::task::keyboard::SCANCODE_QUEUE_CAPACITY,
{
    queue.pop()
}

} // verus!
