use vstd::prelude::*;
use crate::token::Token;

verus! {

/// Names a stream by a number of the user's and by its token.
#[derive(Debug, Clone, Copy, PartialEq, Eq, Structural)]
pub struct StreamId {
    id: u32,
    token: Token,
}

impl StreamId {
    pub closed spec fn id(&self) -> u32 {
        self.id
    }

    pub closed spec fn token_spec(&self) -> Token {
        self.token
    }

    pub fn new(id: u32, token: Token) -> (stream_id: StreamId)
        ensures
            stream_id.id() == id,
            stream_id.token_spec() == token,
    {
        StreamId { id: id, token: token }
    }

    pub fn token(&self) -> (token: Token)
        ensures
            token == self.token_spec(),
    {
        self.token
    }
}

} // verus!
