use std::collections::VecDeque;

use mai::codec::{absorb_decoded, absorb_encoded, decode_frames, encode_frames, DecodeProgress, EncodeProgress};
use mai::{Buffer, BytesRead, BytesWritten, Codec, DecodedFrame, DecodingError, DecodingResult, EncodingError, EncodingResult};

/// Frames are byte strings of at most 254 bytes, each sent as its length
/// followed by its bytes; a length byte of 255 breaks the protocol.
struct LengthPrefixed;

impl Codec<Vec<u8>> for LengthPrefixed {
    fn new() -> Self {
        LengthPrefixed
    }

    fn encode(&mut self, frame: &Vec<u8>, buffer: &mut [u8]) -> EncodingResult {
        if frame.len() >= 255 {
            return Err(EncodingError::ProtocolError);
        }
        if buffer.len() < frame.len() + 1 {
            return Err(EncodingError::InsufficientBuffer);
        }
        buffer[0] = frame.len() as u8;
        buffer[1..frame.len() + 1].copy_from_slice(frame);
        Ok(BytesWritten(frame.len() + 1))
    }

    fn decode(&mut self, buffer: &[u8]) -> DecodingResult<Vec<u8>> {
        let length = buffer[0] as usize;
        if length == 255 {
            return Err(DecodingError::ProtocolError);
        }
        if buffer.len() < length + 1 {
            return Err(DecodingError::IncompleteFrame);
        }
        Ok(DecodedFrame::new(buffer[1..length + 1].to_vec(), BytesRead(length + 1)))
    }
}

fn buffer_with(capacity: usize, content: &[u8]) -> Buffer {
    let mut buffer = Buffer::with_capacity(capacity);
    buffer.extend(content);
    buffer
}

#[test]
fn decoded_frame_new_keeps_fields() {
    let decoded = DecodedFrame::new("hello", BytesRead(5));
    assert_eq!(decoded.frame, "hello");
    assert_eq!(decoded.bytes_read, BytesRead(5));
}

#[test]
fn decode_consumes_every_complete_frame() {
    let mut codec = LengthPrefixed::new();
    let mut buffer = buffer_with(32, &[2, b'a', b'b', 1, b'c']);
    let mut frames = Vec::new();
    assert_eq!(decode_frames(&mut codec, &mut buffer, &mut frames), Ok(()));
    assert_eq!(frames, vec![b"ab".to_vec(), b"c".to_vec()]);
    assert_eq!(buffer.bytes(), &[]);
}

#[test]
fn decode_keeps_incomplete_frame_at_front() {
    let mut codec = LengthPrefixed::new();
    let mut buffer = buffer_with(32, &[2, b'a', b'b', 3, b'x']);
    let mut frames = vec![b"old".to_vec()];
    assert_eq!(decode_frames(&mut codec, &mut buffer, &mut frames), Ok(()));
    assert_eq!(frames, vec![b"old".to_vec(), b"ab".to_vec()]);
    assert_eq!(buffer.bytes(), &[3, b'x']);
}

#[test]
fn decode_protocol_error_leaves_buffer() {
    let mut codec = LengthPrefixed::new();
    let mut buffer = buffer_with(32, &[1, b'a', 255, 0]);
    let mut frames = Vec::new();
    assert_eq!(decode_frames(&mut codec, &mut buffer, &mut frames), Err(DecodingError::ProtocolError));
    assert_eq!(frames, vec![b"a".to_vec()]);
    assert_eq!(buffer.bytes(), &[1, b'a', 255, 0]);
}

#[test]
fn decode_empty_buffer_does_nothing() {
    let mut codec = LengthPrefixed::new();
    let mut buffer = Buffer::with_capacity(8);
    let mut frames: Vec<Vec<u8>> = Vec::new();
    assert_eq!(decode_frames(&mut codec, &mut buffer, &mut frames), Ok(()));
    assert!(frames.is_empty());
    assert_eq!(buffer.len(), 0);
}

#[test]
fn absorb_decoded_continues_after_a_frame() {
    let mut buffer = buffer_with(8, &[1, b'a', 1, b'b']);
    let mut frames = Vec::new();
    let progress = absorb_decoded(&mut buffer, &mut frames, 0, Ok(DecodedFrame::new(b'a', BytesRead(2))));
    assert!(matches!(progress, DecodeProgress::Continue(2)));
    assert_eq!(frames, vec![b'a']);
    assert_eq!(buffer.bytes(), &[1, b'a', 1, b'b']);
}

#[test]
fn absorb_decoded_empties_buffer_at_end() {
    let mut buffer = buffer_with(8, &[1, b'a', 1, b'b']);
    let mut frames = Vec::new();
    let progress = absorb_decoded(&mut buffer, &mut frames, 2, Ok(DecodedFrame::new(b'b', BytesRead(2))));
    assert!(matches!(progress, DecodeProgress::Done(Ok(()))));
    assert_eq!(buffer.len(), 0);
}

#[test]
fn absorb_decoded_restacks_incomplete_frame() {
    let mut buffer = buffer_with(8, &[1, b'a', 3, b'b']);
    let mut frames: Vec<u8> = Vec::new();
    let progress = absorb_decoded(&mut buffer, &mut frames, 2, Err(DecodingError::IncompleteFrame));
    assert!(matches!(progress, DecodeProgress::Done(Ok(()))));
    assert_eq!(buffer.bytes(), &[3, b'b']);
    assert!(frames.is_empty());
}

#[test]
fn absorb_decoded_reports_protocol_error() {
    let mut buffer = buffer_with(8, &[1, b'a']);
    let mut frames: Vec<u8> = Vec::new();
    let progress = absorb_decoded(&mut buffer, &mut frames, 0, Err(DecodingError::ProtocolError));
    assert!(matches!(progress, DecodeProgress::Done(Err(DecodingError::ProtocolError))));
    assert_eq!(buffer.bytes(), &[1, b'a']);
}

#[test]
fn encode_writes_frames_in_order() {
    let mut codec = LengthPrefixed::new();
    let mut buffer = buffer_with(32, &[9]);
    let mut outbox: VecDeque<Vec<u8>> = VecDeque::from(vec![b"ab".to_vec(), b"c".to_vec()]);
    assert_eq!(encode_frames(&mut codec, &mut buffer, &mut outbox), Ok(()));
    assert_eq!(buffer.bytes(), &[9, 2, b'a', b'b', 1, b'c']);
    assert!(outbox.is_empty());
}

#[test]
fn encode_stops_at_frame_that_does_not_fit() {
    let mut codec = LengthPrefixed::new();
    let mut buffer = Buffer::with_capacity(4);
    let mut outbox: VecDeque<Vec<u8>> = VecDeque::from(vec![b"ab".to_vec(), b"cd".to_vec(), b"e".to_vec()]);
    assert_eq!(encode_frames(&mut codec, &mut buffer, &mut outbox), Ok(()));
    assert_eq!(buffer.bytes(), &[2, b'a', b'b']);
    assert_eq!(outbox, VecDeque::from(vec![b"cd".to_vec(), b"e".to_vec()]));
}

#[test]
fn encode_drops_frame_the_protocol_refuses() {
    let mut codec = LengthPrefixed::new();
    let mut buffer = Buffer::with_capacity(512);
    let mut outbox: VecDeque<Vec<u8>> = VecDeque::from(vec![b"a".to_vec(), vec![0u8; 300], b"z".to_vec()]);
    assert_eq!(encode_frames(&mut codec, &mut buffer, &mut outbox), Err(EncodingError::ProtocolError));
    assert_eq!(buffer.bytes(), &[1, b'a']);
    assert_eq!(outbox, VecDeque::from(vec![b"z".to_vec()]));
}

#[test]
fn absorb_encoded_grows_content() {
    let mut buffer = buffer_with(8, &[1]);
    buffer.remaining()[0] = 42;
    let mut outbox: VecDeque<u8> = VecDeque::new();
    let progress = absorb_encoded(&mut buffer, &mut outbox, 7, Ok(BytesWritten(1)));
    assert!(matches!(progress, EncodeProgress::Continue));
    assert_eq!(buffer.bytes(), &[1, 42]);
    assert!(outbox.is_empty());
}

#[test]
fn absorb_encoded_puts_back_frame_that_does_not_fit() {
    let mut buffer = buffer_with(8, &[1]);
    let mut outbox: VecDeque<u8> = VecDeque::from(vec![8]);
    let progress = absorb_encoded(&mut buffer, &mut outbox, 7, Err(EncodingError::InsufficientBuffer));
    assert!(matches!(progress, EncodeProgress::Done(Ok(()))));
    assert_eq!(outbox, VecDeque::from(vec![7, 8]));
    assert_eq!(buffer.bytes(), &[1]);
}

#[test]
fn absorb_encoded_drops_refused_frame() {
    let mut buffer = buffer_with(8, &[1]);
    let mut outbox: VecDeque<u8> = VecDeque::from(vec![8]);
    let progress = absorb_encoded(&mut buffer, &mut outbox, 7, Err(EncodingError::ProtocolError));
    assert!(matches!(progress, EncodeProgress::Done(Err(EncodingError::ProtocolError))));
    assert_eq!(outbox, VecDeque::from(vec![8]));
    assert_eq!(buffer.bytes(), &[1]);
}

#[test]
fn encoded_frames_decode_back() {
    let mut codec = LengthPrefixed::new();
    let mut buffer = Buffer::with_capacity(64);
    let sent = vec![b"hello".to_vec(), Vec::new(), b"mai".to_vec()];
    let mut outbox: VecDeque<Vec<u8>> = sent.iter().cloned().collect();
    assert_eq!(encode_frames(&mut codec, &mut buffer, &mut outbox), Ok(()));
    let mut received = Vec::new();
    assert_eq!(decode_frames(&mut codec, &mut buffer, &mut received), Ok(()));
    assert_eq!(received, sent);
    assert_eq!(buffer.len(), 0);
}
