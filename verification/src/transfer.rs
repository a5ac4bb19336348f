use vstd::prelude::*;
use crate::buffer::Buffer;

verus! {

/// What one read or write call on a byte stream reported.
#[derive(Debug, Clone, Copy, PartialEq, Eq, Structural)]
pub enum TransferOutcome {
    /// The call moved this many bytes.
    Transferred(usize),
    /// The call would have blocked.
    WouldBlock,
    /// The call failed for another reason.
    Failed,
}

/// What a read or write loop does next.
#[derive(Debug, Clone, Copy, PartialEq, Eq, Structural)]
pub enum TransferStep {
    /// Call again; this many bytes are moved so far.
    Again(usize),
    /// Stop; this many bytes were moved in all.
    Finished(usize),
    /// Stop and report the failure.
    Failed,
}

/// Where reading into `buffer` resumes: after the bytes it already holds,
/// such as the start of a frame that was incomplete when it was decoded, so
/// that the frame is decoded again once the rest of it arrives.
pub fn resume_read(buffer: &Buffer) -> (total_bytes_read: usize)
    requires
        buffer.wf(),
    ensures
        total_bytes_read == buffer@.len(),
        total_bytes_read <= buffer.capacity(),
{
    buffer.len()
}

/// Starts a round of reading into `buffer`: the bytes read so far become
/// its content and the answer is the free space left after them, into
/// which the next read goes. No free space means the buffer is full.
pub fn prepare_read(buffer: &mut Buffer, total_bytes_read: usize) -> (free: usize)
    requires
        old(buffer).wf(),
        total_bytes_read <= old(buffer).capacity(),
    ensures
        final(buffer).wf(),
        final(buffer)@ == old(buffer).storage().take(total_bytes_read as int),
        final(buffer).storage() == old(buffer).storage(),
        final(buffer).capacity() == old(buffer).capacity(),
        free == old(buffer).capacity() - total_bytes_read,
{
    buffer.set_size(total_bytes_read);
    proof { buffer.lemma_content_in_storage(); }
    let free_space = buffer.remaining().len();
    proof { buffer.lemma_content_in_storage(); }
    free_space
}

/// Decides the next step of a read loop after a read into `free` bytes of
/// free space: a read of zero bytes or one that would block ends the loop
/// with what was read so far; any other read adds to the total.
pub fn after_read(total_bytes_read: usize, free: usize, outcome: TransferOutcome) -> (step: TransferStep)
    requires
        total_bytes_read + free <= usize::MAX,
        outcome matches TransferOutcome::Transferred(n) ==> n <= free,
    ensures
        step == match outcome {
            TransferOutcome::Transferred(n) => if n == 0 {
                TransferStep::Finished(total_bytes_read)
            } else {
                TransferStep::Again((total_bytes_read + n) as usize)
            },
            TransferOutcome::WouldBlock => TransferStep::Finished(total_bytes_read),
            TransferOutcome::Failed => TransferStep::Failed,
        },
{
    match outcome {
        TransferOutcome::Transferred(bytes_read) => {
            if bytes_read == 0 {
                TransferStep::Finished(total_bytes_read)
            } else {
                TransferStep::Again(total_bytes_read + bytes_read)
            }
        },
        TransferOutcome::WouldBlock => TransferStep::Finished(total_bytes_read),
        TransferOutcome::Failed => TransferStep::Failed,
    }
}

/// The content of `buffer` not yet written, after the first
/// `total_bytes_written` bytes.
pub fn unwritten(buffer: &Buffer, total_bytes_written: usize) -> (pending: &[u8])
    requires
        buffer.wf(),
        total_bytes_written <= buffer@.len(),
    ensures
        pending@ == buffer@.skip(total_bytes_written as int),
{
    let (_, pending) = buffer.bytes().split_at(total_bytes_written);
    pending
}

/// Decides the next step of a write loop after writing from `pending`
/// unwritten bytes: every write adds to the total, a write that would block
/// ends the loop with what was written so far.
pub fn after_write(total_bytes_written: usize, pending: usize, outcome: TransferOutcome) -> (step: TransferStep)
    requires
        total_bytes_written + pending <= usize::MAX,
        outcome matches TransferOutcome::Transferred(n) ==> n <= pending,
    ensures
        step == match outcome {
            TransferOutcome::Transferred(n) => TransferStep::Again((total_bytes_written + n) as usize),
            TransferOutcome::WouldBlock => TransferStep::Finished(total_bytes_written),
            TransferOutcome::Failed => TransferStep::Failed,
        },
{
    match outcome {
        TransferOutcome::Transferred(bytes_written) => TransferStep::Again(total_bytes_written + bytes_written),
        TransferOutcome::WouldBlock => TransferStep::Finished(total_bytes_written),
        TransferOutcome::Failed => TransferStep::Failed,
    }
}

} // verus!
