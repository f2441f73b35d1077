//! The queue of keyboard scancodes filled by the keyboard interrupt and drained
//! by the code that decodes keys.
use circular_buffer::CircularBuffer;
use vstd::prelude::*;

verus! {

/// Number of scancodes the queue can hold.
pub const SCANCODE_QUEUE_CAPACITY: usize = 128;

#[verifier::external_type_specification]
#[verifier::external_body]
#[verifier::reject_recursive_types(T)]
pub struct ExCircularBuffer<const N: usize, T>(CircularBuffer<N, T>);

/// The scancodes held by a buffer, front first.
pub uninterp spec fn scancode_buffer_items(buf: CircularBuffer<128, u8>) -> Seq<u8>;

/// `CircularBuffer::new`: the buffer starts empty.
#[verifier::external_body]
fn scancode_buffer_new() -> (r: CircularBuffer<128, u8>)
    ensures
        scancode_buffer_items(r) == Seq::<u8>::empty(),
{
    CircularBuffer::new()
}

/// `CircularBuffer::try_push_back`: with fewer than 128 items the byte is
/// appended at the back and `Ok(())` returned; a full buffer is left as it was
/// and the byte handed back in `Err`. A buffer of capacity 128 never holds more
/// than 128 items.
#[verifier::external_body]
fn scancode_buffer_try_push_back(buf: &mut CircularBuffer<128, u8>, item: u8) -> (r: Result<(), u8>)
    ensures
        scancode_buffer_items(*old(buf)).len() < 128 ==> r is Ok,
        scancode_buffer_items(*old(buf)).len() < 128 ==> scancode_buffer_items(*final(buf))
            == scancode_buffer_items(*old(buf)).push(item),
        scancode_buffer_items(*old(buf)).len() >= 128 ==> (r matches Err(back) && back == item),
        scancode_buffer_items(*old(buf)).len() >= 128 ==> scancode_buffer_items(*final(buf))
            == scancode_buffer_items(*old(buf)),
        scancode_buffer_items(*final(buf)).len() <= 128,
{
    buf.try_push_back(item)
}

/// `CircularBuffer::pop_front`: an empty buffer gives `None` and stays empty;
/// otherwise the front item is removed and returned. A buffer of capacity 128
/// never holds more than 128 items.
#[verifier::external_body]
fn scancode_buffer_pop_front(buf: &mut CircularBuffer<128, u8>) -> (r: Option<u8>)
    ensures
        scancode_buffer_items(*old(buf)).len() == 0 ==> r is None,
        scancode_buffer_items(*old(buf)).len() == 0 ==> scancode_buffer_items(*final(buf))
            == scancode_buffer_items(*old(buf)),
        scancode_buffer_items(*old(buf)).len() > 0 ==> r == Some(scancode_buffer_items(*old(buf))[0]),
        scancode_buffer_items(*old(buf)).len() > 0 ==> scancode_buffer_items(*final(buf))
            == scancode_buffer_items(*old(buf)).drop_first(),
        scancode_buffer_items(*final(buf)).len() <= 128,
{
    buf.pop_front()
}

/// A first-in first-out queue of up to 128 keyboard scancodes.
pub struct ScancodeQueue {
    buf: CircularBuffer<128, u8>,
}

impl View for ScancodeQueue {
    type V = Seq<u8>;

    closed spec fn view(&self) -> Seq<u8> {
        scancode_buffer_items(self.buf)
    }
}

impl ScancodeQueue {
    /// An empty queue.
    pub fn new() -> (r: Self)
        ensures
            r@ == Seq::<u8>::empty(),
    {
        ScancodeQueue { buf: scancode_buffer_new() }
    }

    /// Removes and returns the oldest scancode, if any.
    pub fn pop(&mut self) -> (r: Option<u8>)
        ensures
            old(self)@.len() == 0 ==> r == None::<u8> && final(self)@ == old(self)@,
            old(self)@.len() > 0 ==> r == Some(old(self)@[0]) && final(self)@ == old(self)@.drop_first(),
            final(self)@.len() <= SCANCODE_QUEUE_CAPACITY,
    {
        scancode_buffer_pop_front(&mut self.buf)
    }
}

/// The waiting scancodes after one more arrives: it joins the back, unless 128
/// are already waiting, in which case it is dropped.
pub open spec fn scancode_added(queue: Seq<u8>, scancode: u8) -> Seq<u8> {
    if queue.len() < SCANCODE_QUEUE_CAPACITY {
        queue.push(scancode)
    } else {
        queue
    }
}

/// The queue never holds more than 128 scancodes, and a scancode that finds
/// room comes out after every scancode already waiting.
pub proof fn lemma_scancode_queue_fifo(queue: Seq<u8>, scancode: u8)
    requires
        queue.len() <= SCANCODE_QUEUE_CAPACITY,
    ensures
        scancode_added(queue, scancode).len() <= SCANCODE_QUEUE_CAPACITY,
        queue.len() < SCANCODE_QUEUE_CAPACITY ==> scancode_added(queue, scancode).take(
            queue.len() as int,
        ) == queue && scancode_added(queue, scancode)[queue.len() as int] == scancode,
{
    if queue.len() < SCANCODE_QUEUE_CAPACITY {
        assert(queue.push(scancode).take(queue.len() as int) =~= queue);
    }
}

/// Queues a scancode from the keyboard. When 128 scancodes are already waiting
/// the new one is dropped; the result tells whether it was kept.
pub fn add_scancode(queue: &mut ScancodeQueue, scancode: u8) -> (kept: bool)
    ensures
        final(queue)@ == scancode_added(old(queue)@, scancode),
        kept == (old(queue)@.len() < SCANCODE_QUEUE_CAPACITY),
        final(queue)@.len() <= SCANCODE_QUEUE_CAPACITY,
{
    let pushed = scancode_buffer_try_push_back(&mut queue.buf, scancode);
    match pushed {
        Ok(()) => true,
        Err(_) => false,
    }
}

/// Takes the oldest queued scancode, if any.
pub fn getch(queue: &mut ScancodeQueue) -> (r: Option<u8>)
    ensures
        old(queue)@.len() == 0 ==> r == None::<u8> && final(queue)@ == old(queue)@,
        old(queue)@.len() > 0 ==> r == Some(old(queue)@[0]) && final(queue)@ == old(
            queue,
        )@.drop_first(),
        final(queue)@.len() <= SCANCODE_QUEUE_CAPACITY,
{
    queue.pop()
}

} // verus!
