use vstd::prelude::*;

verus! {

/// Identifies a managed stream: an index that the event loop reports back
/// with each event of the stream.
#[derive(Debug, Clone, Copy, PartialEq, Eq, Structural, Hash, PartialOrd, Ord)]
pub struct Token(pub usize);

impl Token {
    /// The token with index `index`.
    pub fn from_usize(index: usize) -> (token: Token)
        ensures
            token.0 == index,
    {
        Token(index)
    }

    /// The index of the token.
    pub fn as_usize(&self) -> (index: usize)
        ensures
            index == self.0,
    {
        self.0
    }
}

/// The bucket after a token is handed out: the most recently returned
/// token leaves it, if there is one.
pub open spec fn bucket_after_get(free: Seq<usize>) -> Seq<usize> {
    if free.len() == 0 {
        free
    } else {
        free.drop_last()
    }
}

/// The token the bucket hands out: the most recently returned one.
pub open spec fn bucket_get_result(free: Seq<usize>) -> Option<Token> {
    if free.len() == 0 {
        None
    } else {
        Some(Token(free.last()))
    }
}

/// Tokens that were given back and may be handed out again, most recently
/// returned last.
pub struct TokenBucket {
    free_tokens: Vec<usize>,
}

impl View for TokenBucket {
    type V = Seq<usize>;

    closed spec fn view(&self) -> Seq<usize> {
        self.free_tokens@
    }
}

impl TokenBucket {
    pub fn new() -> (bucket: TokenBucket)
        ensures
            bucket@ == Seq::<usize>::empty(),
    {
        TokenBucket { free_tokens: Vec::new() }
    }

    /// Hands out the most recently returned token, if any.
    pub fn get(&mut self) -> (token: Option<Token>)
        ensures
            token == bucket_get_result(old(self)@),
            final(self)@ == bucket_after_get(old(self)@),
            old(self)@.len() == 0 ==> token is None && final(self)@ == old(self)@,
            old(self)@.len() > 0 ==> token == Some(Token(old(self)@.last())) && final(self)@ == old(
                self,
            )@.take(old(self)@.len() - 1),
    {
        match self.free_tokens.pop() {
            Some(index) => Some(Token::from_usize(index)),
            None => None,
        }
    }

    /// Gives a token back.
    pub fn put(&mut self, token: Token)
        ensures
            final(self)@ == old(self)@.push(token.0),
    {
        self.free_tokens.push(token.as_usize());
    }
}

/// The bucket hands out last the token it was given last: a token put in
/// comes back from the next `get`, and the bucket is then as before.
pub proof fn law_bucket_returns_last_token(free: Seq<usize>, token: Token)
    ensures
        bucket_get_result(free.push(token.0)) == Some(token),
        bucket_after_get(free.push(token.0)) == free,
        bucket_get_result(Seq::<usize>::empty()) == Option::<Token>::None,
{
    assert(free.push(token.0).drop_last() =~= free);
}

} // verus!
