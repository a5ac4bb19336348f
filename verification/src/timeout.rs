use vstd::prelude::*;
use crate::token::Token;

verus! {

/// A timeout that the user scheduled, for one stream or for the engine.
#[derive(Debug)]
pub struct Timeout<T> {
    /// The stream the timeout belongs to; `None` for the engine as a whole.
    pub token: Option<Token>,
    pub data: T,
}

impl<T> Timeout<T> {
    /// A timeout of the engine as a whole.
    pub fn global(data: T) -> (timeout: Timeout<T>)
        ensures
            timeout.token == Option::<Token>::None,
            timeout.data == data,
    {
        Timeout { token: None, data: data }
    }

    /// A timeout of the stream named by `token`.
    pub fn for_stream(token: Token, data: T) -> (timeout: Timeout<T>)
        ensures
            timeout.token == Some(token),
            timeout.data == data,
    {
        Timeout { token: Some(token), data: data }
    }
}

} // verus!
