use vstd::prelude::*;

verus! {

/// Where a managed byte stream is in its life.
#[derive(Debug, Clone, Copy, PartialEq, Eq, Structural)]
pub enum StreamState {
    /// Not yet connected: no event has reported it readable or writable.
    NotReady,
    /// Connected and exchanging frames.
    Ready,
    /// Hung up or failed; it is closed and removed.
    Done,
}

/// What to do with a stream that the event loop reports readable or writable.
#[derive(Debug, Clone, Copy, PartialEq, Eq, Structural)]
pub enum TransferAction {
    /// The stream is done: ignore the event.
    Skip,
    /// Read or write frames.
    Transfer,
    /// The first event of the connection: tell the handler the stream is
    /// ready, then read or write frames.
    NotifyReadyThenTransfer,
}

/// The readiness that the event loop reports for one stream.
#[derive(Debug, Clone, Copy, PartialEq, Eq, Structural)]
pub struct Readiness {
    pub readable: bool,
    pub writable: bool,
    pub hup: bool,
    pub error: bool,
}

pub open spec fn transfer_action(state: StreamState) -> TransferAction {
    match state {
        StreamState::NotReady => TransferAction::NotifyReadyThenTransfer,
        StreamState::Ready => TransferAction::Transfer,
        StreamState::Done => TransferAction::Skip,
    }
}

pub open spec fn state_after_transfer(state: StreamState) -> StreamState {
    match state {
        StreamState::NotReady => StreamState::Ready,
        _ => state,
    }
}

/// The state after one readiness event: a readable or writable event makes
/// a waiting stream ready; a hang-up or an error ends it.
pub open spec fn state_after_event(state: StreamState, events: Readiness) -> StreamState {
    if events.hup || events.error {
        StreamState::Done
    } else if events.readable || events.writable {
        state_after_transfer(state)
    } else {
        state
    }
}

/// What the writable phase of a readiness event does.
pub open spec fn write_phase(state: StreamState, events: Readiness) -> TransferAction {
    if events.writable {
        transfer_action(state)
    } else {
        TransferAction::Skip
    }
}

/// The state once the writable phase of a readiness event is over.
pub open spec fn state_after_write_phase(state: StreamState, events: Readiness) -> StreamState {
    if events.writable {
        state_after_transfer(state)
    } else {
        state
    }
}

/// What the readable phase of a readiness event does; it comes after the
/// writable phase.
pub open spec fn read_phase(state: StreamState, events: Readiness) -> TransferAction {
    if events.readable {
        transfer_action(state_after_write_phase(state, events))
    } else {
        TransferAction::Skip
    }
}

/// How many of two phase actions tell the handler that the stream is ready.
pub open spec fn notifications(write: TransferAction, read: TransferAction) -> nat {
    (if write == TransferAction::NotifyReadyThenTransfer { 1nat } else { 0nat }) + (if read
        == TransferAction::NotifyReadyThenTransfer {
        1nat
    } else {
        0nat
    })
}

/// How many times one readiness event tells the handler that the stream is
/// ready.
pub open spec fn ready_notifications(state: StreamState, events: Readiness) -> nat {
    notifications(write_phase(state, events), read_phase(state, events))
}

/// The state after a sequence of readiness events.
pub open spec fn state_after_events(state: StreamState, events: Seq<Readiness>) -> StreamState
    decreases events.len(),
{
    if events.len() == 0 {
        state
    } else {
        state_after_events(state_after_event(state, events[0]), events.drop_first())
    }
}

/// How many times a sequence of readiness events tells the handler that the
/// stream is ready.
pub open spec fn total_ready_notifications(state: StreamState, events: Seq<Readiness>) -> nat
    decreases events.len(),
{
    if events.len() == 0 {
        0
    } else {
        ready_notifications(state, events[0]) + total_ready_notifications(
            state_after_event(state, events[0]),
            events.drop_first(),
        )
    }
}

/// Handles the state of a stream reported readable or writable: a waiting
/// stream becomes ready, and the answer says whether to tell the handler,
/// and whether to transfer frames at all.
pub fn begin_transfer(state: &mut StreamState) -> (action: TransferAction)
    ensures
        action == transfer_action(*old(state)),
        *final(state) == state_after_transfer(*old(state)),
        *old(state) == StreamState::NotReady ==> action == TransferAction::NotifyReadyThenTransfer
            && *final(state) == StreamState::Ready,
        *old(state) == StreamState::Ready ==> action == TransferAction::Transfer && *final(state)
            == StreamState::Ready,
        *old(state) == StreamState::Done ==> action == TransferAction::Skip && *final(state)
            == StreamState::Done,
{
    match *state {
        StreamState::NotReady => {
            *state = StreamState::Ready;
            TransferAction::NotifyReadyThenTransfer
        },
        StreamState::Ready => TransferAction::Transfer,
        StreamState::Done => TransferAction::Skip,
    }
}

/// A hang-up or an error ends the stream.
pub fn end_stream(state: &mut StreamState)
    ensures
        *final(state) == StreamState::Done,
{
    *state = StreamState::Done;
}

/// Whether the stream is over and must be closed and removed.
pub fn is_done(state: StreamState) -> (done: bool)
    ensures
        done == (state == StreamState::Done),
{
    match state {
        StreamState::Done => true,
        _ => false,
    }
}

/// How one readiness event is handled: the writable phase, then the
/// readable phase, then the state the stream is left in.
#[derive(Debug, Clone, Copy, PartialEq, Eq, Structural)]
pub struct ReadinessPlan {
    pub write: TransferAction,
    pub read: TransferAction,
    pub state: StreamState,
}

/// Plans the handling of one readiness event of a stream in `state`: a
/// writable event is handled first, then a readable one, then a hang-up or
/// an error ends the stream.
pub fn plan_readiness(state: StreamState, events: Readiness) -> (plan: ReadinessPlan)
    ensures
        plan.write == write_phase(state, events),
        plan.read == read_phase(state, events),
        plan.state == state_after_event(state, events),
        notifications(plan.write, plan.read) == ready_notifications(state, events),
        events.hup || events.error ==> plan.state == StreamState::Done,
        !events.hup && !events.error && state == StreamState::Done ==> plan.state == StreamState::Done,
        !events.hup && !events.error && state != StreamState::Done && (events.readable || events.writable)
            ==> plan.state == StreamState::Ready,
        !events.hup && !events.error && !events.readable && !events.writable ==> plan.state == state,
        !events.writable ==> plan.write == TransferAction::Skip,
        !events.readable ==> plan.read == TransferAction::Skip,
        state == StreamState::Done ==> plan.write == TransferAction::Skip && plan.read == TransferAction::Skip,
        events.writable && state == StreamState::NotReady ==> plan.write
            == TransferAction::NotifyReadyThenTransfer,
        events.writable && state == StreamState::Ready ==> plan.write == TransferAction::Transfer,
        events.readable && !events.writable && state == StreamState::NotReady ==> plan.read
            == TransferAction::NotifyReadyThenTransfer,
        events.readable && state != StreamState::Done && (events.writable || state == StreamState::Ready)
            ==> plan.read == TransferAction::Transfer,
{
    let mut current = state;
    let mut write = TransferAction::Skip;
    if events.writable {
        write = begin_transfer(&mut current);
    }
    let mut read = TransferAction::Skip;
    if events.readable {
        read = begin_transfer(&mut current);
    }
    if events.hup {
        end_stream(&mut current);
    }
    if events.error {
        end_stream(&mut current);
    }
    ReadinessPlan { write: write, read: read, state: current }
}

/// A hang-up or an error ends the stream, whatever state it was in.
pub proof fn law_hangup_or_error_ends_stream(state: StreamState, events: Readiness)
    requires
        events.hup || events.error,
    ensures
        state_after_event(state, events) == StreamState::Done,
{
}

/// Without a hang-up or an error, a readable or writable event leaves a
/// stream that is not done ready, and no event at all leaves it as it was.
pub proof fn law_transfer_events_make_ready(state: StreamState, events: Readiness)
    requires
        !events.hup,
        !events.error,
    ensures
        state != StreamState::Done && (events.readable || events.writable) ==> state_after_event(state, events)
            == StreamState::Ready,
        state == StreamState::Done ==> state_after_event(state, events) == StreamState::Done,
        !events.readable && !events.writable ==> state_after_event(state, events) == state,
{
}

/// The phases: nothing happens in a phase whose readiness was not reported
/// or on a finished stream; the first reported phase of a waiting stream
/// tells the handler it is ready, and any later phase just transfers.
pub proof fn law_phases(state: StreamState, events: Readiness)
    ensures
        !events.writable ==> write_phase(state, events) == TransferAction::Skip,
        !events.readable ==> read_phase(state, events) == TransferAction::Skip,
        state == StreamState::Done ==> write_phase(state, events) == TransferAction::Skip && read_phase(
            state,
            events,
        ) == TransferAction::Skip,
        events.writable && state == StreamState::NotReady ==> write_phase(state, events)
            == TransferAction::NotifyReadyThenTransfer,
        events.writable && state == StreamState::Ready ==> write_phase(state, events) == TransferAction::Transfer,
        events.readable && !events.writable && state == StreamState::NotReady ==> read_phase(state, events)
            == TransferAction::NotifyReadyThenTransfer,
        events.readable && state != StreamState::Done && (events.writable || state == StreamState::Ready)
            ==> read_phase(state, events) == TransferAction::Transfer,
{
}

/// Output is pending exactly when the write buffer holds a byte or the
/// outbox holds a frame; an absent holder holds nothing.
pub proof fn law_pending_output(write_buffer_len: Option<usize>, outbox_len: Option<usize>)
    ensures
        write_buffer_len matches Some(n) && n > 0 ==> output_pending(write_buffer_len, outbox_len),
        outbox_len matches Some(n) && n > 0 ==> output_pending(write_buffer_len, outbox_len),
        !(write_buffer_len matches Some(n) && n > 0) && !(outbox_len matches Some(n) && n > 0)
            ==> !output_pending(write_buffer_len, outbox_len),
        !output_pending(None, None),
{
}

/// A finished stream stays finished, whatever events follow.
pub proof fn law_done_is_final(events: Seq<Readiness>)
    ensures
        state_after_events(StreamState::Done, events) == StreamState::Done,
    decreases events.len(),
{
    if events.len() > 0 {
        law_done_is_final(events.drop_first());
    }
}

/// Over the whole life of a stream, the handler hears at most once that the
/// stream is ready, and never once the stream has left its waiting state.
pub proof fn law_ready_notified_at_most_once(state: StreamState, events: Seq<Readiness>)
    ensures
        total_ready_notifications(state, events) <= 1,
        state != StreamState::NotReady ==> total_ready_notifications(state, events) == 0,
    decreases events.len(),
{
    if events.len() > 0 {
        let next = state_after_event(state, events[0]);
        law_ready_notified_at_most_once(next, events.drop_first());
        if state == StreamState::NotReady {
            assert(ready_notifications(state, events[0]) > 0 ==> next != StreamState::NotReady);
        }
    }
}

/// Whether frames or bytes wait to be written: bytes in the write buffer, or
/// frames in the outbox. An absent buffer or outbox holds nothing.
pub open spec fn output_pending(write_buffer_len: Option<usize>, outbox_len: Option<usize>) -> bool {
    (write_buffer_len matches Some(n) && n > 0) || (outbox_len matches Some(n) && n > 0)
}

/// Whether the stream has bytes or frames waiting to be written, given the
/// length of its write buffer and of its outbox, where it holds them.
pub fn has_bytes_to_write(write_buffer_len: Option<usize>, outbox_len: Option<usize>) -> (pending: bool)
    ensures
        pending == output_pending(write_buffer_len, outbox_len),
        write_buffer_len matches Some(n) && n > 0 ==> pending,
        outbox_len matches Some(n) && n > 0 ==> pending,
        !(write_buffer_len matches Some(n) && n > 0) && !(outbox_len matches Some(n) && n > 0) ==> !pending,
{
    let in_buffer = match write_buffer_len {
        Some(n) => n > 0,
        None => false,
    };
    let in_outbox = match outbox_len {
        Some(n) => n > 0,
        None => false,
    };
    in_buffer || in_outbox
}

/// Which of a stream's pooled buffers to give back to their pools.
#[derive(Debug, Clone, Copy, PartialEq, Eq, Structural)]
pub struct Release {
    pub read_buffer: bool,
    pub write_buffer: bool,
}

/// A holder that was released is absent afterwards.
pub open spec fn kept(len: Option<usize>, released: bool) -> Option<usize> {
    if released {
        None
    } else {
        len
    }
}

/// Chooses the buffers to give back: an empty read buffer; the write buffer
/// when it is empty, and also whenever the outbox is present and empty. The
/// outbox itself stays.
pub fn release_empty_buffers(
    read_buffer_len: Option<usize>,
    write_buffer_len: Option<usize>,
    outbox_len: Option<usize>,
) -> (release: Release)
    ensures
        release.read_buffer == (read_buffer_len == Some(0usize)),
        release.write_buffer == (write_buffer_len == Some(0usize) || outbox_len == Some(0usize)),
{
    let mut drop_read_buffer = false;
    if let Some(len) = read_buffer_len {
        if len == 0 {
            drop_read_buffer = true;
        }
    }
    let mut drop_write_buffer = false;
    if let Some(len) = write_buffer_len {
        if len == 0 {
            drop_write_buffer = true;
        }
    }
    let mut drop_outbox = false;
    if let Some(len) = outbox_len {
        if len == 0 {
            drop_outbox = true;
        }
    }
    if drop_outbox {
        drop_write_buffer = true;
    }
    Release { read_buffer: drop_read_buffer, write_buffer: drop_write_buffer }
}

/// Giving the buffers back loses no output, except where the write buffer
/// still holds bytes while the outbox is present and empty: that write
/// buffer is given back with its bytes.
pub proof fn law_release_keeps_pending_output(
    read_buffer_len: Option<usize>,
    write_buffer_len: Option<usize>,
    outbox_len: Option<usize>,
    release: Release,
)
    requires
        release.read_buffer == (read_buffer_len == Some(0usize)),
        release.write_buffer == (write_buffer_len == Some(0usize) || outbox_len == Some(0usize)),
        outbox_len == Some(0usize) ==> !(write_buffer_len matches Some(n) && n > 0),
    ensures
        output_pending(kept(write_buffer_len, release.write_buffer), outbox_len)
            == output_pending(write_buffer_len, outbox_len),
{
}

} // verus!
