use vstd::prelude::*;
use std::collections::VecDeque;
use crate::buffer::Buffer;

verus! {

/// The number of bytes a codec consumed while decoding a frame.
#[derive(Debug, Clone, Copy, PartialEq, Eq, Structural)]
pub struct BytesRead(pub usize);

/// The number of bytes a codec produced while encoding a frame.
#[derive(Debug, Clone, Copy, PartialEq, Eq, Structural)]
pub struct BytesWritten(pub usize);

/// Why a codec could not decode a frame.
#[derive(Debug, Clone, Copy, PartialEq, Eq, Structural)]
pub enum DecodingError {
    /// The bytes break the protocol.
    ProtocolError,
    /// The bytes hold only the start of a frame.
    IncompleteFrame,
}

/// Why a codec could not encode a frame.
#[derive(Debug, Clone, Copy, PartialEq, Eq, Structural)]
pub enum EncodingError {
    /// The frame cannot be expressed in the protocol.
    ProtocolError,
    /// The free space given to the codec is too small for the frame.
    InsufficientBuffer,
}

/// A frame together with the number of bytes it was decoded from.
pub struct DecodedFrame<F> {
    pub frame: F,
    pub bytes_read: BytesRead,
}

impl<F> DecodedFrame<F> {
    pub fn new(frame: F, bytes_read: BytesRead) -> (decoded: DecodedFrame<F>)
        ensures
            decoded.frame == frame,
            decoded.bytes_read == bytes_read,
    {
        DecodedFrame { frame: frame, bytes_read: bytes_read }
    }
}

pub type DecodingResult<F> = Result<DecodedFrame<F>, DecodingError>;

pub type EncodingResult = Result<BytesWritten, EncodingError>;

/// Reads and writes a protocol's frames as bytes. Implemented by the users
/// of the library for their own frame types.
pub trait Codec<F>: Send + Sized {
    fn new() -> Self;

    /// Whether `encode` and `decode` behave as `encoding` and `decoding`
    /// describe. A codec that describes its behaviour says so; by default a
    /// codec promises only the bounds stated on `encode` and `decode`.
    open spec fn obeys_codec_spec() -> bool {
        false
    }

    /// What `encode` does with `frame` and the free space `space`: its
    /// answer, what the space holds afterwards, and the codec afterwards.
    open spec fn encoding(&self, frame: F, space: Seq<u8>) -> (EncodingResult, Seq<u8>, Self) {
        arbitrary()
    }

    /// What `decode` does with `input`: its answer and the codec afterwards.
    open spec fn decoding(&self, input: Seq<u8>) -> (DecodingResult<F>, Self) {
        arbitrary()
    }

    /// Writes `frame` at the start of `buffer`, reporting how many bytes it
    /// used; those bytes are within `buffer`.
    fn encode(&mut self, frame: &F, buffer: &mut [u8]) -> (result: EncodingResult)
        ensures
            Self::obeys_codec_spec() ==> (result, final(buffer)@, *final(self)) == old(self).encoding(
                *frame,
                old(buffer)@,
            ),
            final(buffer)@.len() == old(buffer)@.len(),
            result matches Ok(written) ==> written.0 <= old(buffer)@.len(),
    ;

    /// Reads one frame from the start of a non-empty `buffer`. A decoded
    /// frame consumes at least one byte and no more than `buffer` holds.
    fn decode(&mut self, buffer: &[u8]) -> (result: DecodingResult<F>)
        requires
            buffer@.len() > 0,
        ensures
            Self::obeys_codec_spec() ==> (result, *final(self)) == old(self).decoding(buffer@),
            result matches Ok(decoded) ==> 0 < decoded.bytes_read.0 <= buffer@.len(),
    ;
}

/// Where decoding a buffer's content ends.
pub enum DecodeEnd {
    /// Every byte was consumed by a decoded frame.
    Consumed,
    /// The bytes from this offset on are an incomplete frame.
    Incomplete(nat),
    /// The codec reported a protocol error.
    Failed,
}

/// The outcome of decoding a content: the frames decoded in order, where
/// decoding ended, and the codec afterwards.
pub struct DecodeRun<F, C> {
    pub frames: Seq<F>,
    pub end: DecodeEnd,
    pub codec: C,
}

/// Decoding `content` from offset `start` on: the codec is handed the
/// content from the current offset on, each decoded frame moves the offset
/// past its bytes, and decoding stops at the end of the content, at an
/// incomplete frame or at a protocol error.
pub open spec fn decode_run<F, C: Codec<F>>(codec: C, content: Seq<u8>, start: nat) -> DecodeRun<F, C>
    decreases content.len() - start,
{
    if start >= content.len() {
        DecodeRun { frames: Seq::empty(), end: DecodeEnd::Consumed, codec: codec }
    } else {
        let (answer, next_codec) = codec.decoding(content.skip(start as int));
        match answer {
            Ok(decoded) => {
                let next = start + decoded.bytes_read.0;
                if decoded.bytes_read.0 > 0 && next <= content.len() {
                    let rest = decode_run(next_codec, content, next as nat);
                    DecodeRun { frames: seq![decoded.frame] + rest.frames, end: rest.end, codec: rest.codec }
                } else {
                    DecodeRun { frames: seq![decoded.frame], end: DecodeEnd::Failed, codec: next_codec }
                }
            },
            Err(DecodingError::IncompleteFrame) => {
                DecodeRun { frames: Seq::empty(), end: DecodeEnd::Incomplete(start), codec: next_codec }
            },
            Err(DecodingError::ProtocolError) => {
                DecodeRun { frames: Seq::empty(), end: DecodeEnd::Failed, codec: next_codec }
            },
        }
    }
}

/// The outcome of encoding an outbox: the result, the frames left in the
/// outbox, the buffer's storage and content length, and the codec afterwards.
pub struct EncodeRun<F, C> {
    pub result: Result<(), EncodingError>,
    pub outbox: Seq<F>,
    pub storage: Seq<u8>,
    pub len: nat,
    pub codec: C,
}

/// Encoding `outbox` into a buffer whose storage is `storage` and whose
/// content is its first `len` bytes: each frame from the front is handed to
/// the codec with the free space after the content; an encoded frame's
/// bytes join the content; a frame that does not fit stays at the front and
/// ends encoding; a frame the protocol refuses is dropped and ends encoding
/// with the error.
pub open spec fn encode_run<F, C: Codec<F>>(
    codec: C,
    outbox: Seq<F>,
    storage: Seq<u8>,
    len: nat,
) -> EncodeRun<F, C>
    decreases outbox.len(),
{
    if outbox.len() == 0 {
        EncodeRun { result: Ok(()), outbox: outbox, storage: storage, len: len, codec: codec }
    } else {
        let frame = outbox[0];
        let (answer, space, next_codec) = codec.encoding(frame, storage.skip(len as int));
        let next_storage = storage.take(len as int) + space;
        match answer {
            Ok(written) => {
                if len + written.0 <= next_storage.len() {
                    encode_run(next_codec, outbox.drop_first(), next_storage, (len + written.0) as nat)
                } else {
                    EncodeRun {
                        result: Ok(()),
                        outbox: outbox.drop_first(),
                        storage: next_storage,
                        len: len,
                        codec: next_codec,
                    }
                }
            },
            Err(EncodingError::InsufficientBuffer) => {
                EncodeRun { result: Ok(()), outbox: outbox, storage: next_storage, len: len, codec: next_codec }
            },
            Err(EncodingError::ProtocolError) => {
                EncodeRun {
                    result: Err(EncodingError::ProtocolError),
                    outbox: outbox.drop_first(),
                    storage: next_storage,
                    len: len,
                    codec: next_codec,
                }
            },
        }
    }
}

/// Decoding past the end of the content decodes nothing and leaves the
/// codec as it was.
pub proof fn law_decode_run_at_end<F, C: Codec<F>>(codec: C, content: Seq<u8>, start: nat)
    requires
        start >= content.len(),
    ensures
        decode_run(codec, content, start).frames == Seq::<F>::empty(),
        decode_run(codec, content, start).end == DecodeEnd::Consumed,
        decode_run(codec, content, start).codec == codec,
{
}

/// Decoding starts by handing the codec the content from the start offset
/// on. An incomplete frame there ends decoding at that very offset with no
/// frame; a protocol error there ends it with no frame; a decoded frame is
/// the first frame, and decoding goes on just past its bytes.
pub proof fn law_decode_run_first_answer<F, C: Codec<F>>(codec: C, content: Seq<u8>, start: nat)
    requires
        start < content.len(),
    ensures
        ({
            let (answer, next_codec) = codec.decoding(content.skip(start as int));
            let run = decode_run(codec, content, start);
            match answer {
                Err(DecodingError::IncompleteFrame) => {
                    &&& run.end == DecodeEnd::Incomplete(start)
                    &&& run.frames == Seq::<F>::empty()
                    &&& run.codec == next_codec
                },
                Err(DecodingError::ProtocolError) => {
                    &&& run.end == DecodeEnd::Failed
                    &&& run.frames == Seq::<F>::empty()
                    &&& run.codec == next_codec
                },
                Ok(decoded) => {
                    &&& run.frames.len() >= 1
                    &&& run.frames[0] == decoded.frame
                    &&& (0 < decoded.bytes_read.0 && start + decoded.bytes_read.0 <= content.len()) ==> {
                        let rest = decode_run(next_codec, content, (start + decoded.bytes_read.0) as nat);
                        &&& run.frames == seq![decoded.frame] + rest.frames
                        &&& run.end == rest.end
                        &&& run.codec == rest.codec
                    }
                },
            }
        }),
{
}

/// An incomplete frame is found at an offset within the content, at or
/// after where decoding started, so the bytes kept are never empty.
pub proof fn law_decode_run_incomplete_within_content<F, C: Codec<F>>(codec: C, content: Seq<u8>, start: nat)
    ensures
        decode_run(codec, content, start).end matches DecodeEnd::Incomplete(offset) ==> start <= offset
            < content.len(),
    decreases content.len() - start,
{
    if start < content.len() {
        let (answer, next_codec) = codec.decoding(content.skip(start as int));
        if let Ok(decoded) = answer {
            if decoded.bytes_read.0 > 0 && start + decoded.bytes_read.0 <= content.len() {
                law_decode_run_incomplete_within_content(
                    next_codec,
                    content,
                    (start + decoded.bytes_read.0) as nat,
                );
            }
        }
    }
}

/// Encoding an empty outbox changes nothing.
pub proof fn law_encode_run_empty_outbox<F, C: Codec<F>>(codec: C, outbox: Seq<F>, storage: Seq<u8>, len: nat)
    requires
        outbox.len() == 0,
    ensures
        encode_run(codec, outbox, storage, len) == (EncodeRun {
            result: Ok::<(), EncodingError>(()),
            outbox: outbox,
            storage: storage,
            len: len,
            codec: codec,
        }),
{
}

/// Encoding starts with the frame at the front of the outbox and the free
/// space after the content. A frame the protocol refuses ends encoding with
/// the error, whatever the content, and only that frame leaves the outbox;
/// a frame that does not fit ends it with success and stays; an encoded
/// frame that fits extends the content by its bytes and encoding goes on.
pub proof fn law_encode_run_first_answer<F, C: Codec<F>>(codec: C, outbox: Seq<F>, storage: Seq<u8>, len: nat)
    requires
        outbox.len() > 0,
    ensures
        ({
            let (answer, space, next_codec) = codec.encoding(outbox[0], storage.skip(len as int));
            let next_storage = storage.take(len as int) + space;
            let run = encode_run(codec, outbox, storage, len);
            match answer {
                Err(EncodingError::ProtocolError) => {
                    &&& run.result == Err::<(), EncodingError>(EncodingError::ProtocolError)
                    &&& run.outbox == outbox.drop_first()
                    &&& run.len == len
                    &&& run.storage == next_storage
                    &&& run.codec == next_codec
                },
                Err(EncodingError::InsufficientBuffer) => {
                    &&& run.result == Ok::<(), EncodingError>(())
                    &&& run.outbox == outbox
                    &&& run.len == len
                    &&& run.storage == next_storage
                    &&& run.codec == next_codec
                },
                Ok(written) => len + written.0 <= next_storage.len() ==> run == encode_run(
                    next_codec,
                    outbox.drop_first(),
                    next_storage,
                    (len + written.0) as nat,
                ),
            }
        }),
{
}

/// Encoding never shortens the content, keeps it within the storage, and
/// fails only with a protocol
/// error, after taking at least the refused frame from the outbox.
pub proof fn law_encode_run_grows<F, C: Codec<F>>(codec: C, outbox: Seq<F>, storage: Seq<u8>, len: nat)
    ensures
        encode_run(codec, outbox, storage, len).len >= len,
        len <= storage.len() ==> encode_run(codec, outbox, storage, len).len <= encode_run(
            codec,
            outbox,
            storage,
            len,
        ).storage.len(),
        encode_run(codec, outbox, storage, len).outbox.len() <= outbox.len(),
        encode_run(codec, outbox, storage, len).result is Err ==> {
            &&& encode_run(codec, outbox, storage, len).result == Err::<(), EncodingError>(
                EncodingError::ProtocolError,
            )
            &&& encode_run(codec, outbox, storage, len).outbox.len() < outbox.len()
        },
    decreases outbox.len(),
{
    if outbox.len() > 0 {
        let (answer, space, next_codec) = codec.encoding(outbox[0], storage.skip(len as int));
        let next_storage = storage.take(len as int) + space;
        if let Ok(written) = answer {
            if len + written.0 <= next_storage.len() {
                law_encode_run_grows(next_codec, outbox.drop_first(), next_storage, (len + written.0) as nat);
            }
        }
    }
}

/// What decoding does after one answer of the codec.
pub enum DecodeProgress {
    /// Decode again from this offset of the buffer's content.
    Continue(usize),
    /// Decoding is over with this result.
    Done(Result<(), DecodingError>),
}

/// Takes the codec's answer for the content of `buffer` from offset `start`
/// on: a decoded frame joins `frames`; once every byte is consumed, or the
/// rest is an incomplete frame, the unconsumed bytes are moved to the front
/// of the buffer; a protocol error leaves the buffer as it was.
pub fn absorb_decoded<F>(
    buffer: &mut Buffer,
    frames: &mut Vec<F>,
    start: usize,
    outcome: DecodingResult<F>,
) -> (progress: DecodeProgress)
    requires
        old(buffer).wf(),
        start < old(buffer)@.len(),
        outcome matches Ok(decoded) ==> decoded.bytes_read.0 <= old(buffer)@.len() - start,
    ensures
        final(buffer).wf(),
        final(buffer).capacity() == old(buffer).capacity(),
        match outcome {
            Ok(decoded) => {
                let next = start + decoded.bytes_read.0;
                &&& final(frames)@ == old(frames)@.push(decoded.frame)
                &&& next == old(buffer)@.len() ==> {
                    &&& progress == DecodeProgress::Done(Ok(()))
                    &&& final(buffer)@ == Seq::<u8>::empty()
                }
                &&& next < old(buffer)@.len() ==> {
                    &&& progress == DecodeProgress::Continue(next as usize)
                    &&& final(buffer)@ == old(buffer)@
                    &&& final(buffer).storage() == old(buffer).storage()
                }
            },
            Err(DecodingError::IncompleteFrame) => {
                &&& progress == DecodeProgress::Done(Ok(()))
                &&& final(buffer)@ == old(buffer)@.skip(start as int)
                &&& final(frames)@ == old(frames)@
            },
            Err(DecodingError::ProtocolError) => {
                &&& progress == DecodeProgress::Done(Err(DecodingError::ProtocolError))
                &&& final(buffer)@ == old(buffer)@
                &&& final(buffer).storage() == old(buffer).storage()
                &&& final(frames)@ == old(frames)@
            },
        },
{
    let number_of_bytes = buffer.len();
    match outcome {
        Ok(decoded) => {
            let BytesRead(size_in_bytes) = decoded.bytes_read;
            let next = start + size_in_bytes;
            frames.push(decoded.frame);
            if next == number_of_bytes {
                buffer.set_size(0);
                DecodeProgress::Done(Ok(()))
            } else {
                DecodeProgress::Continue(next)
            }
        },
        Err(DecodingError::IncompleteFrame) => {
            let bytes_remaining = number_of_bytes - start;
            buffer.restack(start);
            proof { buffer.lemma_content_in_storage(); }
            buffer.set_size(bytes_remaining);
            DecodeProgress::Done(Ok(()))
        },
        Err(error) => DecodeProgress::Done(Err(error)),
    }
}

/// Decodes as many frames as the content of `buffer` holds, appending them
/// to `frames` in the order the codec produced them. The codec is handed the
/// content from offset 0 on, then from just past each decoded frame. Once
/// every byte is consumed the buffer is empty; at an incomplete frame that
/// frame's bytes are moved to the front of the buffer; at a protocol error
/// the buffer is unchanged and the error is returned. For a codec that
/// describes its behaviour, the frames, the end and the codec afterwards are
/// exactly those of `decode_run`.
pub fn decode_frames<F, C: Codec<F>>(
    codec: &mut C,
    buffer: &mut Buffer,
    frames: &mut Vec<F>,
) -> (result: Result<(), DecodingError>)
    requires
        old(buffer).wf(),
    ensures
        final(buffer).wf(),
        final(buffer).capacity() == old(buffer).capacity(),
        final(frames)@.len() >= old(frames)@.len(),
        final(frames)@.take(old(frames)@.len() as int) == old(frames)@,
        match result {
            Ok(()) => exists|consumed: int|
                0 <= consumed <= old(buffer)@.len()
                && final(buffer)@ == old(buffer)@.skip(consumed)
                && final(frames)@.len() - old(frames)@.len() <= consumed,
            Err(error) => error == DecodingError::ProtocolError && final(buffer)@ == old(buffer)@,
        },
        C::obeys_codec_spec() ==> ({
            let run = decode_run(*old(codec), old(buffer)@, 0);
            &&& final(frames)@ == old(frames)@ + run.frames
            &&& *final(codec) == run.codec
            &&& match run.end {
                DecodeEnd::Consumed => result == Ok::<(), DecodingError>(()) && final(buffer)@ == Seq::<u8>::empty(),
                DecodeEnd::Incomplete(offset) => {
                    &&& result == Ok::<(), DecodingError>(())
                    &&& final(buffer)@ == old(buffer)@.skip(offset as int)
                },
                DecodeEnd::Failed => {
                    &&& result == Err::<(), DecodingError>(DecodingError::ProtocolError)
                    &&& final(buffer)@ == old(buffer)@
                },
            }
        }),
        old(buffer)@.len() == 0 ==> {
            &&& result == Ok::<(), DecodingError>(())
            &&& final(frames)@ == old(frames)@
            &&& *final(codec) == *old(codec)
        },
        C::obeys_codec_spec() && old(buffer)@.len() > 0 ==> match (*old(codec)).decoding(old(buffer)@).0 {
            Err(DecodingError::IncompleteFrame) => {
                &&& result == Ok::<(), DecodingError>(())
                &&& final(buffer)@ == old(buffer)@
                &&& final(frames)@ == old(frames)@
            },
            Err(DecodingError::ProtocolError) => {
                &&& result == Err::<(), DecodingError>(DecodingError::ProtocolError)
                &&& final(buffer)@ == old(buffer)@
                &&& final(frames)@ == old(frames)@
            },
            Ok(decoded) => {
                &&& final(frames)@.len() > old(frames)@.len()
                &&& final(frames)@[old(frames)@.len() as int] == decoded.frame
            },
        },
        C::obeys_codec_spec() && result is Ok && final(buffer)@.len() > 0 ==> {
            &&& final(buffer)@.len() <= old(buffer)@.len()
            &&& final(buffer)@ == old(buffer)@.skip(old(buffer)@.len() - final(buffer)@.len())
        },
{
    proof {
        law_decode_run_incomplete_within_content(*old(codec), old(buffer)@, 0);
    }
    let ghost content = buffer@;
    let ghost total = decode_run(*codec, content, 0);
    let number_of_bytes = buffer.len();
    if number_of_bytes == 0 {
        buffer.set_size(0);
        assert(frames@ =~= old(frames)@ + total.frames);
        assert(old(buffer)@.skip(0) =~= old(buffer)@);
        assert(frames@.take(frames@.len() as int) =~= frames@);
        return Ok(());
    }
    let ghost mut done: Seq<F> = Seq::empty();
    assert(frames@ =~= old(frames)@ + done);
    assert(total.frames =~= done + total.frames);
    let mut start_of_remaining: usize = 0;
    loop
        invariant
            buffer.wf(),
            buffer@ == content,
            content == old(buffer)@,
            buffer.storage() == old(buffer).storage(),
            buffer.capacity() == old(buffer).capacity(),
            number_of_bytes == content.len(),
            start_of_remaining < number_of_bytes,
            total == decode_run(*old(codec), content, 0),
            frames@ == old(frames)@ + done,
            done.len() <= start_of_remaining,
            C::obeys_codec_spec() ==> ({
                let rest = decode_run(*codec, content, start_of_remaining as nat);
                &&& total.frames == done + rest.frames
                &&& total.end == rest.end
                &&& total.codec == rest.codec
            }),
        decreases number_of_bytes - start_of_remaining,
    {
        let ghost codec_before = *codec;
        let ghost rest_before = decode_run(codec_before, content, start_of_remaining as nat);
        let outcome = {
            let (_, filled) = buffer.bytes().split_at(start_of_remaining);
            assert(filled@ =~= content.skip(start_of_remaining as int));
            codec.decode(filled)
        };
        let ghost frames_before = frames@;
        match absorb_decoded(buffer, frames, start_of_remaining, outcome) {
            DecodeProgress::Continue(next) => {
                proof {
                    let f = frames@.last();
                    assert(frames@ =~= frames_before.push(f));
                    if C::obeys_codec_spec() {
                        let rest = decode_run(*codec, content, next as nat);
                        assert(rest_before.frames =~= seq![f] + rest.frames);
                        assert(total.frames =~= done.push(f) + rest.frames);
                    }
                    done = done.push(f);
                    assert(frames@ =~= old(frames)@ + done);
                }
                start_of_remaining = next;
            },
            DecodeProgress::Done(result) => {
                proof {
                    if frames@.len() > frames_before.len() {
                        let f = frames@.last();
                        assert(frames@ =~= frames_before.push(f));
                        assert(frames@ =~= old(frames)@ + done.push(f));
                        if C::obeys_codec_spec() {
                            let rest = decode_run(*codec, content, number_of_bytes as nat);
                            assert(rest.frames =~= Seq::<F>::empty());
                            assert(rest_before.frames =~= seq![f]);
                            assert(frames@ =~= old(frames)@ + total.frames);
                        }
                        assert(old(buffer)@.skip(number_of_bytes as int) =~= buffer@);
                    } else if C::obeys_codec_spec() {
                        assert(rest_before.frames =~= Seq::<F>::empty());
                        assert(frames@ =~= old(frames)@ + total.frames);
                    }
                    assert(frames@.take(old(frames)@.len() as int) =~= old(frames)@);
                    if C::obeys_codec_spec() {
                        lemma_first_answer_effect(*old(codec), content, old(frames)@, frames@, buffer@, result);
                    }
                }
                return result;
            },
        }
    }
}

/// What the codec's first answer means for the outcome of decoding a
/// non-empty content, given the outcome that `decode_run` describes.
proof fn lemma_first_answer_effect<F, C: Codec<F>>(
    codec: C,
    content: Seq<u8>,
    old_frames: Seq<F>,
    final_frames: Seq<F>,
    final_content: Seq<u8>,
    result: Result<(), DecodingError>,
)
    requires
        content.len() > 0,
        ({
            let run = decode_run(codec, content, 0);
            &&& final_frames == old_frames + run.frames
            &&& match run.end {
                DecodeEnd::Consumed => result == Ok::<(), DecodingError>(()) && final_content == Seq::<u8>::empty(),
                DecodeEnd::Incomplete(offset) => {
                    &&& result == Ok::<(), DecodingError>(())
                    &&& final_content == content.skip(offset as int)
                },
                DecodeEnd::Failed => {
                    &&& result == Err::<(), DecodingError>(DecodingError::ProtocolError)
                    &&& final_content == content
                },
            }
        }),
    ensures
        match codec.decoding(content).0 {
            Err(DecodingError::IncompleteFrame) => {
                &&& result == Ok::<(), DecodingError>(())
                &&& final_content == content
                &&& final_frames == old_frames
            },
            Err(DecodingError::ProtocolError) => {
                &&& result == Err::<(), DecodingError>(DecodingError::ProtocolError)
                &&& final_content == content
                &&& final_frames == old_frames
            },
            Ok(decoded) => {
                &&& final_frames.len() > old_frames.len()
                &&& final_frames[old_frames.len() as int] == decoded.frame
            },
        },
{
    law_decode_run_first_answer(codec, content, 0);
    assert(content.skip(0) =~= content);
    let run = decode_run(codec, content, 0);
    if run.frames.len() == 0 {
        assert(final_frames =~= old_frames);
    } else {
        assert(final_frames[old_frames.len() as int] == run.frames[0]);
    }
}

/// What encoding does after one answer of the codec.
pub enum EncodeProgress {
    /// Encode the next frame of the outbox.
    Continue,
    /// Encoding is over with this result.
    Done(Result<(), EncodingError>),
}

/// Takes the codec's answer for `frame`, taken from the front of `outbox`
/// and encoded into the free space of `buffer`: the written bytes join the
/// content; a frame that did not fit goes back to the front of the outbox;
/// a frame the protocol refuses is dropped.
pub fn absorb_encoded<F>(
    buffer: &mut Buffer,
    outbox: &mut VecDeque<F>,
    frame: F,
    outcome: EncodingResult,
) -> (progress: EncodeProgress)
    requires
        old(buffer).wf(),
        outcome matches Ok(written) ==> old(buffer)@.len() + written.0 <= old(buffer).capacity(),
    ensures
        final(buffer).wf(),
        final(buffer).capacity() == old(buffer).capacity(),
        final(buffer).storage() == old(buffer).storage(),
        match outcome {
            Ok(written) => {
                &&& progress == EncodeProgress::Continue
                &&& final(buffer)@ == old(buffer).storage().take(old(buffer)@.len() + written.0)
                &&& final(outbox)@ == old(outbox)@
            },
            Err(EncodingError::InsufficientBuffer) => {
                &&& progress == EncodeProgress::Done(Ok(()))
                &&& final(buffer)@ == old(buffer)@
                &&& final(outbox)@ == seq![frame] + old(outbox)@
            },
            Err(EncodingError::ProtocolError) => {
                &&& progress == EncodeProgress::Done(Err(EncodingError::ProtocolError))
                &&& final(buffer)@ == old(buffer)@
                &&& final(outbox)@ == old(outbox)@
            },
        },
{
    match outcome {
        Ok(BytesWritten(bytes_written)) => {
            let current = buffer.len();
            buffer.set_size(current + bytes_written);
            EncodeProgress::Continue
        },
        Err(EncodingError::InsufficientBuffer) => {
            outbox.push_front(frame);
            EncodeProgress::Done(Ok(()))
        },
        Err(error) => EncodeProgress::Done(Err(error)),
    }
}

/// Encodes frames from the front of `outbox`, in order, into the free
/// space of `buffer` just after its content, until the outbox is empty, a
/// frame does not fit (it stays at the front of the outbox) or the protocol
/// refuses a frame (that frame is dropped and the error returned). The
/// content only grows: what was there stays in front. For a codec that
/// describes its behaviour, the result, the outbox, the buffer and the codec
/// afterwards are exactly those of `encode_run`.
pub fn encode_frames<F, C: Codec<F>>(
    codec: &mut C,
    buffer: &mut Buffer,
    outbox: &mut VecDeque<F>,
) -> (result: Result<(), EncodingError>)
    requires
        old(buffer).wf(),
    ensures
        final(buffer).wf(),
        final(buffer).capacity() == old(buffer).capacity(),
        match result {
            Ok(()) => exists|sent: int|
                0 <= sent <= old(outbox)@.len() && final(outbox)@ == old(outbox)@.skip(sent),
            Err(error) => error == EncodingError::ProtocolError && exists|sent: int|
                1 <= sent <= old(outbox)@.len() && final(outbox)@ == old(outbox)@.skip(sent),
        },
        C::obeys_codec_spec() ==> ({
            let run = encode_run(*old(codec), old(outbox)@, old(buffer).storage(), old(buffer)@.len());
            &&& result == run.result
            &&& final(outbox)@ == run.outbox
            &&& final(buffer).storage() == run.storage
            &&& final(buffer)@.len() == run.len
            &&& final(buffer)@ == run.storage.take(run.len as int)
            &&& *final(codec) == run.codec
        }),
        final(buffer)@.take(old(buffer)@.len() as int) == old(buffer)@,
        old(outbox)@.len() == 0 ==> {
            &&& result == Ok::<(), EncodingError>(())
            &&& final(buffer)@ == old(buffer)@
            &&& *final(codec) == *old(codec)
        },
        C::obeys_codec_spec() && old(outbox)@.len() > 0 ==> match (*old(codec)).encoding(
            old(outbox)@[0],
            old(buffer).storage().skip(old(buffer)@.len() as int),
        ).0 {
            Err(EncodingError::ProtocolError) => {
                &&& result == Err::<(), EncodingError>(EncodingError::ProtocolError)
                &&& final(outbox)@ == old(outbox)@.drop_first()
                &&& final(buffer)@ == old(buffer)@
            },
            Err(EncodingError::InsufficientBuffer) => {
                &&& result == Ok::<(), EncodingError>(())
                &&& final(outbox)@ == old(outbox)@
                &&& final(buffer)@ == old(buffer)@
            },
            Ok(written) => written.0 <= (*old(codec)).encoding(
                old(outbox)@[0],
                old(buffer).storage().skip(old(buffer)@.len() as int),
            ).1.len() ==> {
                &&& final(outbox)@.len() < old(outbox)@.len()
                &&& final(buffer)@.len() >= old(buffer)@.len() + written.0
            },
        },
{
    proof { buffer.lemma_content_in_storage(); }
    let ghost total = encode_run(*codec, outbox@, buffer.storage(), buffer@.len());
    let buffer_starting_size: usize = buffer.len();
    let ghost initial = buffer@;
    let mut total_bytes_written: usize = 0;
    let mut sent: usize = 0;
    let outbox_starting_len: usize = outbox.len();
    while outbox.len() > 0
        invariant_except_break
            C::obeys_codec_spec() ==> total == encode_run(*codec, outbox@, buffer.storage(), buffer@.len()),
            outbox@ == old(outbox)@.skip(sent as int),
        invariant
            buffer.wf(),
            buffer.capacity() == old(buffer).capacity(),
            buffer@.len() == buffer_starting_size + total_bytes_written,
            buffer@.take(buffer_starting_size as int) == initial,
            initial == old(buffer)@,
            buffer_starting_size == initial.len(),
            buffer.capacity() <= usize::MAX,
            old(buffer).wf(),
            total == encode_run(*old(codec), old(outbox)@, old(buffer).storage(), old(buffer)@.len()),
            sent <= old(outbox)@.len(),
            outbox_starting_len == old(outbox)@.len(),
            old(outbox)@.len() == 0 ==> {
                &&& sent == 0
                &&& outbox@.len() == 0
                &&& *codec == *old(codec)
                &&& total_bytes_written == 0
            },
        ensures
            C::obeys_codec_spec() ==> {
                &&& total.result == Ok::<(), EncodingError>(())
                &&& total.outbox == outbox@
                &&& total.storage == buffer.storage()
                &&& total.len == buffer@.len()
                &&& total.codec == *codec
            },
            outbox@ == old(outbox)@.skip(sent as int),
        decreases outbox@.len(),
    {
        let ghost codec_before = *codec;
        let ghost outbox_before = outbox@;
        let ghost storage_before = buffer.storage();
        let ghost len_before = buffer@.len();
        let frame = match outbox.pop_front() {
            Some(frame) => frame,
            None => {
                break;
            },
        };
        assert(outbox@ =~= outbox_before.drop_first());
        sent = sent + 1;
        assert(outbox@ =~= old(outbox)@.skip(sent as int));
        proof { buffer.lemma_content_in_storage(); }
        let outcome = codec.encode(&frame, buffer.remaining());
        proof { buffer.lemma_content_in_storage(); }
        let bytes_written: usize = match &outcome {
            Ok(BytesWritten(written)) => *written,
            Err(_) => 0,
        };
        let ghost outbox_popped = outbox@;
        match absorb_encoded(buffer, outbox, frame, outcome) {
            EncodeProgress::Continue => {
                total_bytes_written = total_bytes_written + bytes_written;
                assert(buffer@.take(buffer_starting_size as int) =~= initial);
            },
            EncodeProgress::Done(Ok(())) => {
                assert(outbox@ =~= outbox_before);
                sent = sent - 1;
                break;
            },
            EncodeProgress::Done(Err(error)) => {
                proof {
                    buffer.lemma_content_in_storage();
                    if C::obeys_codec_spec() {
                        old(buffer).lemma_content_in_storage();
                        lemma_first_encoding_effect(
                            *old(codec),
                            old(outbox)@,
                            old(buffer).storage(),
                            old(buffer)@.len(),
                            outbox@,
                            buffer@,
                            Err(error),
                        );
                    }
                }
                return Err(error);
            },
        }
    }
    proof {
        buffer.lemma_content_in_storage();
        if old(outbox)@.len() == 0 {
            assert(buffer@ =~= buffer@.take(buffer_starting_size as int));
        }
        if C::obeys_codec_spec() && old(outbox)@.len() > 0 {
            old(buffer).lemma_content_in_storage();
            lemma_first_encoding_effect(
                *old(codec),
                old(outbox)@,
                old(buffer).storage(),
                old(buffer)@.len(),
                outbox@,
                buffer@,
                Ok(()),
            );
        }
    }
    Ok(())
}

/// What the codec's answer for the front frame means for the outcome of
/// encoding a non-empty outbox, given the outcome that `encode_run`
/// describes.
proof fn lemma_first_encoding_effect<F, C: Codec<F>>(
    codec: C,
    outbox: Seq<F>,
    storage: Seq<u8>,
    len: nat,
    final_outbox: Seq<F>,
    final_content: Seq<u8>,
    result: Result<(), EncodingError>,
)
    requires
        outbox.len() > 0,
        len <= storage.len(),
        ({
            let run = encode_run(codec, outbox, storage, len);
            &&& result == run.result
            &&& final_outbox == run.outbox
            &&& final_content == run.storage.take(run.len as int)
        }),
    ensures
        match codec.encoding(outbox[0], storage.skip(len as int)).0 {
            Err(EncodingError::ProtocolError) => {
                &&& result == Err::<(), EncodingError>(EncodingError::ProtocolError)
                &&& final_outbox == outbox.drop_first()
                &&& final_content == storage.take(len as int)
            },
            Err(EncodingError::InsufficientBuffer) => {
                &&& result == Ok::<(), EncodingError>(())
                &&& final_outbox == outbox
                &&& final_content == storage.take(len as int)
            },
            Ok(written) => written.0 <= codec.encoding(outbox[0], storage.skip(len as int)).1.len() ==> {
                &&& final_outbox.len() < outbox.len()
                &&& final_content.len() >= len + written.0
            },
        },
{
    law_encode_run_first_answer(codec, outbox, storage, len);
    let (answer, space, next_codec) = codec.encoding(outbox[0], storage.skip(len as int));
    let next_storage = storage.take(len as int) + space;
    let run = encode_run(codec, outbox, storage, len);
    match answer {
        Ok(written) => {
            if written.0 <= space.len() {
                assert(next_storage.len() == len + space.len());
                law_encode_run_grows(next_codec, outbox.drop_first(), next_storage, (len + written.0) as nat);
            }
        },
        Err(EncodingError::ProtocolError) => {
            assert(next_storage.take(len as int) =~= storage.take(len as int));
        },
        Err(EncodingError::InsufficientBuffer) => {
            assert(next_storage.take(len as int) =~= storage.take(len as int));
        },
    }
}

} // verus!
