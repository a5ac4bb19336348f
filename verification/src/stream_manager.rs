use vstd::prelude::*;
use std::collections::BTreeMap;
use crate::token::{Token, TokenBucket, bucket_after_get};

verus! {

broadcast use vstd::std_specs::btree::group_btree_axioms, vstd::laws_cmp::group_laws_cmp;

/// Calls `BTreeMap::get_mut`: a mutable reference to the value stored under
/// `key`, or `None` where the map has no such key.
#[verifier::external_body]
fn map_get_mut<S>(streams: &mut BTreeMap<usize, S>, key: usize) -> (slot: Option<&mut S>)
    ensures
        match slot {
            Some(value) => {
                &&& old(streams)@.contains_key(key)
                &&& *value == old(streams)@[key]
                &&& final(streams)@ == old(streams)@.insert(key, *final(value))
            },
            None => {
                &&& !old(streams)@.contains_key(key)
                &&& final(streams)@ == old(streams)@
            },
        },
{
    streams.get_mut(&key)
}

/// The token the next insertion is given: the most recently freed one, or
/// else the number of sessions held.
pub open spec fn next_token(session_count: nat, free: Seq<usize>) -> Token {
    if free.len() > 0 {
        Token(free.last())
    } else {
        Token(session_count as usize)
    }
}

/// Every token below the number of tokens in circulation is either held by
/// exactly one session or free, and no token is free twice.
pub open spec fn tokens_accounted(held: Set<usize>, free: Seq<usize>) -> bool {
    &&& held.finite()
    &&& free.no_duplicates()
    &&& forall|i: int| 0 <= i < free.len() ==> !held.contains(#[trigger] free[i])
    &&& forall|t: usize|
        (held.contains(t) || free.contains(t)) <==> (t as int) < held.len() + free.len()
}

/// The sessions of the managed streams, each under the token that names it.
pub struct StreamManager<S> {
    streams: BTreeMap<usize, S>,
    token_bucket: TokenBucket,
}

impl<S> StreamManager<S> {
    /// The sessions by token index.
    pub closed spec fn sessions(&self) -> Map<usize, S> {
        self.streams@
    }

    /// Tokens freed by removals and not yet handed out again.
    pub closed spec fn free_tokens(&self) -> Seq<usize> {
        self.token_bucket@
    }

    pub open spec fn tokens_accounted(&self) -> bool {
        tokens_accounted(self.sessions().dom(), self.free_tokens())
    }

    pub fn new() -> (manager: StreamManager<S>)
        ensures
            manager.sessions() == Map::<usize, S>::empty(),
            manager.free_tokens() == Seq::<usize>::empty(),
            manager.tokens_accounted(),
    {
        let manager = StreamManager { streams: BTreeMap::new(), token_bucket: TokenBucket::new() };
        proof {
            assert forall|t: usize|
                (manager.sessions().dom().contains(t) || manager.free_tokens().contains(t))
                    <==> (t as int) < manager.sessions().dom().len() + manager.free_tokens().len() by {
                assert(manager.sessions().dom() =~= Set::<usize>::empty());
            }
        }
        manager
    }

    /// The session under `token`, to be changed in place.
    pub fn get_mut(&mut self, token: Token) -> (slot: Option<&mut S>)
        ensures
            final(self).free_tokens() == old(self).free_tokens(),
            match slot {
                Some(session) => {
                    &&& old(self).sessions().contains_key(token.0)
                    &&& *session == old(self).sessions()[token.0]
                    &&& final(self).sessions() == old(self).sessions().insert(token.0, *final(session))
                },
                None => {
                    &&& !old(self).sessions().contains_key(token.0)
                    &&& final(self).sessions() == old(self).sessions()
                },
            },
    {
        map_get_mut(&mut self.streams, token.as_usize())
    }

    fn get_next_token(&mut self) -> (token: Token)
        ensures
            token == next_token(old(self).sessions().len(), old(self).free_tokens()),
            final(self).free_tokens() == bucket_after_get(old(self).free_tokens()),
            final(self).sessions() == old(self).sessions(),
            old(self).free_tokens().len() == 0 ==> old(self).sessions().len() <= usize::MAX,
    {
        if let Some(token) = self.token_bucket.get() {
            return token;
        }
        Token::from_usize(self.streams.len())
    }

    /// Stores `session` under a new token and returns the token. While the
    /// tokens are accounted for, the token is one no session holds.
    pub fn insert(&mut self, session: S) -> (token: Token)
        ensures
            token == next_token(old(self).sessions().len(), old(self).free_tokens()),
            final(self).sessions() == old(self).sessions().insert(token.0, session),
            final(self).free_tokens() == bucket_after_get(old(self).free_tokens()),
            old(self).free_tokens().len() > 0 ==> {
                &&& token.0 == old(self).free_tokens().last()
                &&& final(self).free_tokens() == old(self).free_tokens().take(old(self).free_tokens().len() - 1)
            },
            old(self).free_tokens().len() == 0 ==> {
                &&& token.0 == old(self).sessions().len()
                &&& final(self).free_tokens() == old(self).free_tokens()
            },
            old(self).tokens_accounted() ==> {
                &&& !old(self).sessions().contains_key(token.0)
                &&& final(self).tokens_accounted()
            },
    {
        let next_token = self.get_next_token();
        self.streams.insert(next_token.as_usize(), session);
        proof {
            if old(self).tokens_accounted() {
                lemma_insert_keeps_accounts(
                    old(self).sessions().dom(),
                    old(self).free_tokens(),
                    next_token.0,
                );
                assert(self.sessions().dom() =~= old(self).sessions().dom().insert(next_token.0));
            }
        }
        next_token
    }

    /// Removes the session under `token` and frees the token. Removing a
    /// token that some session holds keeps the tokens accounted for.
    pub fn remove(&mut self, token: Token) -> (removed: Option<S>)
        ensures
            final(self).free_tokens() == old(self).free_tokens().push(token.0),
            final(self).sessions() == old(self).sessions().remove(token.0),
            removed == (if old(self).sessions().contains_key(token.0) {
                Some(old(self).sessions()[token.0])
            } else {
                None
            }),
            old(self).tokens_accounted() && old(self).sessions().contains_key(token.0)
                ==> final(self).tokens_accounted(),
    {
        self.token_bucket.put(token);
        let removed = self.streams.remove(&token.as_usize());
        proof {
            if old(self).tokens_accounted() && old(self).sessions().contains_key(token.0) {
                lemma_remove_keeps_accounts(
                    old(self).sessions().dom(),
                    old(self).free_tokens(),
                    token.0,
                );
                assert(self.sessions().dom() =~= old(self).sessions().dom().remove(token.0));
            }
        }
        removed
    }
}

/// A freed token is the next one handed out: after `remove(token)` the free
/// tokens end with it, and `insert` then answers that same token.
pub proof fn law_freed_token_is_reused(session_count: nat, free: Seq<usize>, token: Token)
    ensures
        next_token(session_count, free.push(token.0)) == token,
        bucket_after_get(free.push(token.0)) == free,
        session_count <= usize::MAX ==> next_token(session_count, Seq::<usize>::empty()).0 == session_count,
{
    assert(free.push(token.0).drop_last() =~= free);
}

/// One change to the tokens in use: an insertion, or the removal of the
/// session under a token.
pub enum TokenEvent {
    Insert,
    Remove(usize),
}

/// The tokens held and free after one event, as `insert` and `remove`
/// change them.
pub open spec fn after_token_event(held: Set<usize>, free: Seq<usize>, event: TokenEvent) -> (Set<usize>, Seq<usize>) {
    match event {
        TokenEvent::Insert => (held.insert(next_token(held.len(), free).0), bucket_after_get(free)),
        TokenEvent::Remove(token) => (held.remove(token), free.push(token)),
    }
}

/// The tokens held and free after a sequence of events.
pub open spec fn after_token_events(held: Set<usize>, free: Seq<usize>, events: Seq<TokenEvent>) -> (
    Set<usize>,
    Seq<usize>,
)
    decreases events.len(),
{
    if events.len() == 0 {
        (held, free)
    } else {
        let (next_held, next_free) = after_token_event(held, free, events[0]);
        after_token_events(next_held, next_free, events.drop_first())
    }
}

/// Every removal in the sequence removes a token that is held at that time.
pub open spec fn removes_held_tokens(held: Set<usize>, free: Seq<usize>, events: Seq<TokenEvent>) -> bool
    decreases events.len(),
{
    if events.len() == 0 {
        true
    } else {
        let (next_held, next_free) = after_token_event(held, free, events[0]);
        &&& (events[0] matches TokenEvent::Remove(token) ==> held.contains(token))
        &&& removes_held_tokens(next_held, next_free, events.drop_first())
    }
}

/// Starting from a new manager, as long as every removal removes a held
/// token, the tokens held and the free tokens partition the tokens handed
/// out so far, and each insertion gets a token no session holds.
pub proof fn law_tokens_partitioned(events: Seq<TokenEvent>)
    requires
        removes_held_tokens(Set::empty(), Seq::empty(), events),
        events.len() <= usize::MAX,
    ensures
        ({
            let (held, free) = after_token_events(Set::empty(), Seq::empty(), events);
            tokens_accounted(held, free)
        }),
{
    let held = Set::<usize>::empty();
    let free = Seq::<usize>::empty();
    assert forall|t: usize| (held.contains(t) || free.contains(t)) <==> (t as int) < held.len() + free.len() by {
    }
    lemma_history_keeps_accounts(held, free, events);
}

proof fn lemma_history_keeps_accounts(held: Set<usize>, free: Seq<usize>, events: Seq<TokenEvent>)
    requires
        tokens_accounted(held, free),
        removes_held_tokens(held, free, events),
        held.len() + free.len() + events.len() <= usize::MAX + 1,
    ensures
        ({
            let (final_held, final_free) = after_token_events(held, free, events);
            tokens_accounted(final_held, final_free)
        }),
    decreases events.len(),
{
    if events.len() > 0 {
        let (next_held, next_free) = after_token_event(held, free, events[0]);
        match events[0] {
            TokenEvent::Insert => {
                lemma_insert_keeps_accounts(held, free, next_token(held.len(), free).0);
                if free.len() == 0 {
                    assert(next_free =~= free);
                } else {
                    assert(next_free.len() == free.len() - 1);
                }
            },
            TokenEvent::Remove(token) => {
                lemma_remove_keeps_accounts(held, free, token);
            },
        }
        lemma_history_keeps_accounts(next_held, next_free, events.drop_first());
    }
}

/// Handing out the next token keeps every token accounted for.
proof fn lemma_insert_keeps_accounts(held: Set<usize>, free: Seq<usize>, token: usize)
    requires
        tokens_accounted(held, free),
        token == next_token(held.len(), free).0,
        free.len() == 0 ==> held.len() <= usize::MAX,
    ensures
        !held.contains(token),
        tokens_accounted(held.insert(token), bucket_after_get(free)),
{
    let held2 = held.insert(token);
    let free2 = bucket_after_get(free);
    if free.len() > 0 {
        assert(free[free.len() - 1] == token);
        assert(!held.contains(token));
        assert forall|i: int| 0 <= i < free2.len() implies !held2.contains(#[trigger] free2[i]) by {
            assert(free2[i] == free[i]);
            assert(free[i] != free[free.len() - 1]);
        }
        assert forall|t: usize|
            (held2.contains(t) || free2.contains(t)) <==> (t as int) < held2.len() + free2.len() by {
            if free2.contains(t) {
                let i = choose|i: int| 0 <= i < free2.len() && free2[i] == t;
                assert(free[i] == t);
            }
            if free.contains(t) && t != token {
                let i = choose|i: int| 0 <= i < free.len() && free[i] == t;
                assert(i != free.len() - 1);
                assert(free2[i] == t);
            }
            if t == token {
                assert(free.contains(t));
            }
        }
    } else {
        assert(!held.contains(token)) by {
            if held.contains(token) {
                assert((token as int) < held.len() + free.len());
            }
        }
        assert forall|t: usize|
            (held2.contains(t) || free2.contains(t)) <==> (t as int) < held2.len() + free2.len() by {
            assert(!free.contains(t));
        }
    }
}

/// Freeing a held token keeps every token accounted for.
proof fn lemma_remove_keeps_accounts(held: Set<usize>, free: Seq<usize>, token: usize)
    requires
        tokens_accounted(held, free),
        held.contains(token),
    ensures
        tokens_accounted(held.remove(token), free.push(token)),
{
    let held2 = held.remove(token);
    let free2 = free.push(token);
    assert(!free.contains(token));
    assert forall|i: int, j: int| 0 <= i < free2.len() && 0 <= j < free2.len() && i != j
        implies free2[i] != free2[j] by {
        if i == free.len() {
            assert(free.contains(free2[j]));
        } else if j == free.len() {
            assert(free.contains(free2[i]));
        }
    }
    assert forall|i: int| 0 <= i < free2.len() implies !held2.contains(#[trigger] free2[i]) by {
        if i < free.len() {
            assert(free2[i] == free[i]);
        }
    }
    assert forall|t: usize|
        (held2.contains(t) || free2.contains(t)) <==> (t as int) < held2.len() + free2.len() by {
        if free2.contains(t) && t != token {
            let i = choose|i: int| 0 <= i < free2.len() && free2[i] == t;
            assert(free[i] == t);
        }
        if free.contains(t) {
            let i = choose|i: int| 0 <= i < free.len() && free[i] == t;
            assert(free2[i] == t);
        }
        if t == token {
            assert(free2[free.len() as int] == t);
        }
    }
}

} // verus!
