use mai::stream_state::{plan_readiness, Readiness, ReadinessPlan};
use mai::stream_state::{begin_transfer, end_stream, has_bytes_to_write, is_done, release_empty_buffers, Release, TransferAction};
use mai::transfer::{after_read, after_write, prepare_read, resume_read, unwritten, TransferOutcome, TransferStep};
use mai::{Buffer, StreamId, StreamManager, StreamSession, StreamState, Timeout, Token, TokenBucket};

#[test]
fn token_conversions() {
    assert_eq!(Token::from_usize(7), Token(7));
    assert_eq!(Token(9).as_usize(), 9);
}

#[test]
fn token_bucket_hands_back_last_returned() {
    let mut bucket = TokenBucket::new();
    assert_eq!(bucket.get(), None);
    bucket.put(Token(3));
    bucket.put(Token(5));
    assert_eq!(bucket.get(), Some(Token(5)));
    assert_eq!(bucket.get(), Some(Token(3)));
    assert_eq!(bucket.get(), None);
}

#[test]
fn manager_numbers_streams_in_order() {
    let mut manager: StreamManager<&str> = StreamManager::new();
    assert_eq!(manager.insert("a"), Token(0));
    assert_eq!(manager.insert("b"), Token(1));
    assert_eq!(manager.insert("c"), Token(2));
}

#[test]
fn manager_reuses_freed_token() {
    let mut manager: StreamManager<&str> = StreamManager::new();
    manager.insert("a");
    manager.insert("b");
    manager.insert("c");
    assert_eq!(manager.remove(Token(1)), Some("b"));
    assert_eq!(manager.insert("d"), Token(1));
    assert_eq!(manager.insert("e"), Token(3));
    assert_eq!(manager.get_mut(Token(1)).map(|s| *s), Some("d"));
}

#[test]
fn manager_get_mut_changes_session() {
    let mut manager: StreamManager<u32> = StreamManager::new();
    let token = manager.insert(10);
    if let Some(session) = manager.get_mut(token) {
        *session += 5;
    }
    assert_eq!(manager.get_mut(token).map(|s| *s), Some(15));
    assert!(manager.get_mut(Token(4)).is_none());
}

#[test]
fn manager_remove_of_unknown_token_returns_none() {
    let mut manager: StreamManager<u32> = StreamManager::new();
    manager.insert(1);
    assert_eq!(manager.remove(Token(8)), None);
    assert_eq!(manager.remove(Token(0)), Some(1));
}

#[test]
fn first_event_makes_stream_ready() {
    let mut state = StreamState::NotReady;
    assert_eq!(begin_transfer(&mut state), TransferAction::NotifyReadyThenTransfer);
    assert_eq!(state, StreamState::Ready);
    assert_eq!(begin_transfer(&mut state), TransferAction::Transfer);
    assert_eq!(state, StreamState::Ready);
}

#[test]
fn done_stream_skips_transfers() {
    let mut state = StreamState::Ready;
    end_stream(&mut state);
    assert!(is_done(state));
    assert_eq!(begin_transfer(&mut state), TransferAction::Skip);
    assert_eq!(state, StreamState::Done);
    assert!(!is_done(StreamState::Ready));
}

#[test]
fn pending_output_cases() {
    assert!(!has_bytes_to_write(None, None));
    assert!(!has_bytes_to_write(Some(0), Some(0)));
    assert!(has_bytes_to_write(Some(3), None));
    assert!(has_bytes_to_write(None, Some(1)));
}

#[test]
fn release_only_empty_holders() {
    assert_eq!(
        release_empty_buffers(Some(0), Some(4), Some(1)),
        Release { read_buffer: true, write_buffer: false }
    );
    assert_eq!(
        release_empty_buffers(None, Some(0), Some(2)),
        Release { read_buffer: false, write_buffer: true }
    );
    assert_eq!(
        release_empty_buffers(Some(3), Some(4), Some(0)),
        Release { read_buffer: false, write_buffer: true }
    );
}

#[test]
fn read_resumes_after_held_bytes() {
    let mut buffer = Buffer::with_capacity(6);
    buffer.extend(&[9, 8]);
    let start = resume_read(&buffer);
    assert_eq!(start, 2);
    assert_eq!(prepare_read(&mut buffer, start), 4);
    assert_eq!(buffer.bytes(), &[9, 8]);
}

#[test]
fn read_rounds() {
    let mut buffer = Buffer::with_capacity(6);
    buffer.extend(&[1, 2, 3]);
    assert_eq!(prepare_read(&mut buffer, 0), 6);
    assert_eq!(buffer.len(), 0);
    assert_eq!(prepare_read(&mut buffer, 2), 4);
    assert_eq!(buffer.bytes(), &[1, 2]);
    assert_eq!(after_read(2, 4, TransferOutcome::Transferred(3)), TransferStep::Again(5));
    assert_eq!(after_read(2, 4, TransferOutcome::Transferred(0)), TransferStep::Finished(2));
    assert_eq!(after_read(2, 4, TransferOutcome::WouldBlock), TransferStep::Finished(2));
    assert_eq!(after_read(2, 4, TransferOutcome::Failed), TransferStep::Failed);
}

#[test]
fn write_rounds() {
    let mut buffer = Buffer::with_capacity(6);
    buffer.extend(&[1, 2, 3, 4]);
    assert_eq!(unwritten(&buffer, 1), &[2, 3, 4]);
    assert_eq!(unwritten(&buffer, 4), &[]);
    assert_eq!(after_write(1, 3, TransferOutcome::Transferred(2)), TransferStep::Again(3));
    assert_eq!(after_write(1, 3, TransferOutcome::WouldBlock), TransferStep::Finished(1));
    assert_eq!(after_write(1, 3, TransferOutcome::Failed), TransferStep::Failed);
}

#[test]
fn timeouts_name_their_stream() {
    let global = Timeout::global(5usize);
    assert_eq!(global.token, None);
    assert_eq!(global.data, 5);
    let stream = Timeout::for_stream(Token(2), "t");
    assert_eq!(stream.token, Some(Token(2)));
    assert_eq!(stream.data, "t");
}

#[test]
fn stream_id_keeps_token() {
    let id = StreamId::new(4, Token(6));
    assert_eq!(id.token(), Token(6));
}

#[test]
fn stream_session_parts() {
    let mut pair = StreamSession::new(1u8, String::from("s"));
    {
        let (stream, session) = pair.components();
        *stream = 2;
        session.push('!');
    }
    assert_eq!(*pair.stream(), 2);
    assert_eq!(pair.session().as_str(), "s!");
}

#[test]
fn releasing_empty_holders_keeps_pending_output() {
    let cases = [
        (Some(0), Some(3), Some(1)),
        (None, Some(0), Some(2)),
        (Some(5), Some(0), Some(0)),
        (None, None, None),
        (None, Some(0), None),
    ];
    for &(read, write, outbox) in cases.iter() {
        let release = release_empty_buffers(read, write, outbox);
        let write_after = if release.write_buffer { None } else { write };
        assert_eq!(has_bytes_to_write(write_after, outbox), has_bytes_to_write(write, outbox));
    }
}

#[test]
fn readiness_plan_notifies_once_and_orders_phases() {
    let both = Readiness { readable: true, writable: true, hup: false, error: false };
    assert_eq!(
        plan_readiness(StreamState::NotReady, both),
        ReadinessPlan {
            write: TransferAction::NotifyReadyThenTransfer,
            read: TransferAction::Transfer,
            state: StreamState::Ready,
        }
    );
    let read_and_hup = Readiness { readable: true, writable: false, hup: true, error: false };
    assert_eq!(
        plan_readiness(StreamState::Ready, read_and_hup),
        ReadinessPlan { write: TransferAction::Skip, read: TransferAction::Transfer, state: StreamState::Done }
    );
    assert_eq!(
        plan_readiness(StreamState::Done, both),
        ReadinessPlan { write: TransferAction::Skip, read: TransferAction::Skip, state: StreamState::Done }
    );
}

#[test]
fn manager_tokens_stay_partitioned_over_a_history() {
    let mut manager: StreamManager<u8> = StreamManager::new();
    let a = manager.insert(1);
    let b = manager.insert(2);
    manager.remove(a);
    manager.remove(b);
    let c = manager.insert(3);
    let d = manager.insert(4);
    let e = manager.insert(5);
    assert_eq!((c, d, e), (Token(1), Token(0), Token(2)));
}
