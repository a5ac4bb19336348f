//! Frame-oriented stream management: byte buffers, frame codecs, token
//! allocation and the decisions that drive each managed byte stream.

pub mod buffer;
pub mod codec;
pub mod error;
pub mod settings;
pub mod stream_id;
pub mod stream_manager;
pub mod stream_session;
pub mod stream_state;
pub mod timeout;
pub mod token;
pub mod transfer;

pub use buffer::Buffer;
pub use codec::{
    BytesRead, BytesWritten, Codec, DecodedFrame, DecodingError, DecodingResult, EncodingError, EncodingResult,
};
pub use error::Error;
pub use settings::{
    Bytes, EngineSettings, InitialBufferPoolSize, InitialBufferSize, Kilobytes, Megabytes, MaxBufferPoolSize,
    OptionSetter, ToBytes,
};
pub use stream_id::StreamId;
pub use stream_manager::StreamManager;
pub use stream_session::StreamSession;
pub use stream_state::StreamState;
pub use timeout::Timeout;
pub use token::{Token, TokenBucket};
