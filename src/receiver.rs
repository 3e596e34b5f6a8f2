//! Gathering a message's bytes from fixed-size reads.
use vstd::prelude::*;

verus! {

/// The size of one read.
pub const BUFFER_SIZE: usize = 1024;

/// Accumulates reads of up to `BUFFER_SIZE` bytes; a read that fills less
/// than the whole buffer ends the message.
pub struct Receiver;

impl Receiver {
    pub fn new() -> (r: Receiver) {
        Receiver
    }

    /// How many bytes one read asks for.
    pub fn buffer_size(&self) -> (r: usize)
        ensures
            r == BUFFER_SIZE,
    {
        BUFFER_SIZE
    }

    /// Appends the bytes of one read to what came before, and says whether
    /// another read is due: only after a read that filled the buffer.
    pub fn absorb(&self, received: &mut Vec<u8>, chunk: &[u8]) -> (more: bool)
        requires
            chunk@.len() <= BUFFER_SIZE,
        ensures
            final(received)@ == old(received)@ + chunk@,
            more == (chunk@.len() == BUFFER_SIZE),
    {
        let mut i: usize = 0;
        while i < chunk.len()
            invariant
                i <= chunk@.len(),
                received@ == old(received)@ + chunk@.subrange(0, i as int),
            decreases chunk@.len() - i,
        {
            received.push(chunk[i]);
            assert(chunk@.subrange(0, i + 1) =~= chunk@.subrange(0, i as int).push(chunk@[i as int]));
            i = i + 1;
        }
        assert(chunk@.subrange(0, chunk@.len() as int) =~= chunk@);
        chunk.len() == BUFFER_SIZE
    }
}

} // verus!
