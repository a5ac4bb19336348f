use vstd::prelude::*;

verus! {

/// A managed stream together with the user's session state for it.
pub struct StreamSession<E, S> {
    efs: E,
    session: S,
}

impl<E, S> StreamSession<E, S> {
    pub closed spec fn stream_spec(&self) -> E {
        self.efs
    }

    pub closed spec fn session_spec(&self) -> S {
        self.session
    }

    pub fn new(efs: E, session: S) -> (stream_session: StreamSession<E, S>)
        ensures
            stream_session.stream_spec() == efs,
            stream_session.session_spec() == session,
    {
        StreamSession { efs: efs, session: session }
    }

    /// The stream and the session, both to be changed in place.
    pub fn components(&mut self) -> (parts: (&mut E, &mut S))
        ensures
            *parts.0 == old(self).stream_spec(),
            *parts.1 == old(self).session_spec(),
            final(self).stream_spec() == *final(parts.0),
            final(self).session_spec() == *final(parts.1),
    {
        let StreamSession { efs, session } = self;
        (efs, session)
    }

    /// The stream, to be changed in place.
    pub fn stream(&mut self) -> (efs: &mut E)
        ensures
            *efs == old(self).stream_spec(),
            final(self).stream_spec() == *final(efs),
            final(self).session_spec() == old(self).session_spec(),
    {
        &mut self.efs
    }

    /// The session, to be changed in place.
    pub fn session(&mut self) -> (session: &mut S)
        ensures
            *session == old(self).session_spec(),
            final(self).session_spec() == *final(session),
            final(self).stream_spec() == old(self).stream_spec(),
    {
        &mut self.session
    }
}

} // verus!
