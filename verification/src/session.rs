//! Sessions and the manager that hands them out.

use vstd::prelude::*;
use crate::source::CaptureSource;

verus! {

/// A handle to one capture stream.
///
/// A session does not own the capture it was made for: `owner` only names
/// it, and naming a capture does not keep it alive.
#[derive(Clone, Copy, Debug, Hash, PartialEq, Eq, Structural)]
pub struct Session {
    /// Identity of the session; a manager never hands out the same one twice.
    pub id: u64,
    /// The target this session captures.
    pub source: CaptureSource,
    /// Identity of the capture this session was made for, if it was made for
    /// one.
    pub owner: Option<u64>,
}

/// What a [`SessionManager`] is, as a value.
pub struct ManagerView {
    /// How many sessions the manager has created.
    pub created: u64,
    /// How many sessions the manager creates at most.
    pub limit: u64,
}

impl ManagerView {
    /// The manager has not created more than it may.
    pub open spec fn wf(self) -> bool {
        self.created <= self.limit
    }

    /// The manager can create another session.
    pub open spec fn can_create(self) -> bool {
        self.created < self.limit
    }

    /// What the next request for a session on `source` for `owner` gets:
    /// a session whose identity is the number of sessions created before it,
    /// or nothing once the limit is reached.
    pub open spec fn offer(self, source: CaptureSource, owner: Option<u64>) -> Option<Session> {
        if self.can_create() {
            Some(Session { id: self.created, source, owner })
        } else {
            None
        }
    }

    /// The manager after a request that got `offer`.
    pub open spec fn served(self, offer: Option<Session>) -> ManagerView {
        if offer is Some {
            ManagerView { created: (self.created + 1) as u64, ..self }
        } else {
            self
        }
    }

    /// `session` is one of the sessions that the manager has created.
    pub open spec fn handed_out(self, session: Session) -> bool {
        session.id < self.created
    }
}

/// Creates sessions, counts them, and refuses once it has reached its limit.
pub struct SessionManager {
    created: u64,
    limit: u64,
}

impl SessionManager {
    #[verifier::type_invariant]
    spec fn inv(&self) -> bool {
        self@.wf()
    }

    /// The manager as a value.
    pub closed spec fn view(&self) -> ManagerView {
        ManagerView { created: self.created, limit: self.limit }
    }

    /// A manager that has created nothing yet and refuses only when session
    /// identities run out.
    pub fn new() -> (manager: Self)
        ensures
            manager@ == (ManagerView { created: 0, limit: u64::MAX }),
    {
        SessionManager { created: 0, limit: u64::MAX }
    }

    /// A manager that has created nothing yet and creates `limit` sessions
    /// at most.
    pub fn with_limit(limit: u64) -> (manager: Self)
        ensures
            manager@ == (ManagerView { created: 0, limit }),
    {
        SessionManager { created: 0, limit }
    }

    /// The number of sessions created so far.
    pub fn created(&self) -> (count: u64)
        ensures
            count == self@.created,
            self@.wf(),
    {
        proof {
            use_type_invariant(self);
        }
        self.created
    }

    /// Creates a session on `source` that names `owner` as its capture.
    ///
    /// Fails, and counts nothing, exactly when the limit is reached.
    pub fn create_session(&mut self, source: CaptureSource, owner: Option<u64>) -> (session: Option<
        Session,
    >)
        ensures
            session == old(self)@.offer(source, owner),
            final(self)@ == old(self)@.served(session),
            final(self)@.wf(),
    {
        proof {
            use_type_invariant(&*self);
        }
        if self.created < self.limit {
            let id: u64 = self.created;
            self.created = id + 1;
            Some(Session { id, source, owner })
        } else {
            None
        }
    }
}

} // verus!
