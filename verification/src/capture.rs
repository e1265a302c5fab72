//! The capture itself: a target and at most one active session.

use vstd::prelude::*;
use crate::session::{ManagerView, Session, SessionManager};
use crate::source::CaptureSource;
use crate::table::CaptureTable;

verus! {

/// What a [`Capture`] is, as a value.
pub struct CaptureView {
    /// Identity of the capture; back-references of sessions name it.
    pub id: u64,
    /// The target, fixed when the capture is made.
    pub source: CaptureSource,
    /// The active session, if the capture is capturing.
    pub session: Option<Session>,
}

impl CaptureView {
    /// A capture holds only a session that was made for it and its target.
    pub open spec fn wf(self) -> bool {
        self.session matches Some(s) ==> s.owner == Some(self.id) && s.source == self.source
    }

    /// No session is active.
    pub open spec fn idle(self) -> bool {
        self.session is None
    }

    /// A session is active.
    pub open spec fn capturing(self) -> bool {
        self.session is Some
    }

    /// The session that `start` gets from `manager`: on its own target and
    /// with this capture as owner where the capture is idle and the manager
    /// can create; none where a session is already active.
    pub open spec fn request(self, manager: ManagerView) -> Option<Session> {
        if self.idle() {
            manager.offer(self.source, Some(self.id))
        } else {
            None
        }
    }

    /// The capture after `start` with `manager`.
    pub open spec fn started(self, manager: ManagerView) -> CaptureView {
        if self.idle() {
            CaptureView { session: self.request(manager), ..self }
        } else {
            self
        }
    }

    /// The capture after `stop`.
    pub open spec fn stopped(self) -> CaptureView {
        CaptureView { session: None, ..self }
    }
}

/// One capture target and the lifecycle of its session.
///
/// A capture is either idle or capturing. It holds at most one session at any
/// time, and its target never changes.
pub struct Capture {
    id: u64,
    source: CaptureSource,
    session: Option<Session>,
}

impl Capture {
    #[verifier::type_invariant]
    spec fn inv(&self) -> bool {
        self@.wf()
    }

    /// The capture as a value.
    pub closed spec fn view(&self) -> CaptureView {
        CaptureView { id: self.id, source: self.source, session: self.session }
    }

    /// An idle capture of `source`, known to sessions as `id`.
    ///
    /// A [`CaptureTable`] gives each capture that it makes an identity of
    /// its own. Whoever makes captures with this function chooses `id`, and
    /// keeps identities apart where sessions are to tell captures apart.
    pub fn new(id: u64, source: CaptureSource) -> (capture: Capture)
        ensures
            capture@ == (CaptureView { id, source, session: None }),
            capture@.wf(),
    {
        Capture { id, source, session: None }
    }

    /// The identity by which sessions name this capture.
    pub fn id(&self) -> (id: u64)
        ensures
            id == self@.id,
    {
        self.id
    }

    /// The target of this capture.
    pub fn source(&self) -> (source: CaptureSource)
        ensures
            source == self@.source,
    {
        self.source
    }

    /// The active session, if there is one. It was made for this capture
    /// and for its target.
    pub fn session(&self) -> (session: Option<Session>)
        ensures
            session == self@.session,
            self@.wf(),
    {
        proof {
            use_type_invariant(self);
        }
        self.session
    }

    /// The capture that `session` names as its owner, if it is live in
    /// `table`. For a session that a capture of `table` opened, that is the
    /// capture that opened it.
    ///
    /// There is none where the session names no owner, and none where the
    /// owner it names has been released.
    pub fn for_session<'a>(session: &Session, table: &'a CaptureTable) -> (owner: Option<
        &'a Capture,
    >)
        ensures
            match owner {
                Some(capture) => table@.owner_of(*session) == Some(capture@),
                None => table@.owner_of(*session) is None,
            },
    {
        match session.owner {
            Some(id) => table.get(id),
            None => None,
        }
    }

    /// Starts capturing.
    ///
    /// An idle capture asks `manager` for a session on its own target that
    /// names this capture as owner, keeps it, and returns it. A capture that
    /// is already capturing asks for nothing and stays as it is. Where the
    /// manager cannot create a session the capture stays idle.
    pub fn start(&mut self, manager: &mut SessionManager) -> (opened: Option<Session>)
        ensures
            opened == old(self)@.request(old(manager)@),
            final(self)@ == old(self)@.started(old(manager)@),
            final(manager)@ == old(manager)@.served(opened),
            opened is None ==> final(self)@ == old(self)@ && final(manager)@ == old(manager)@,
            final(self)@.wf(),
    {
        proof {
            use_type_invariant(&*self);
        }
        if self.session.is_none() {
            let opened = manager.create_session(self.source, Some(self.id));
            self.session = opened;
            opened
        } else {
            None
        }
    }

    /// Stops capturing and returns the session that was active, which is now
    /// the caller's to tear down. An idle capture stays as it is.
    pub fn stop(&mut self) -> (closed: Option<Session>)
        ensures
            closed == old(self)@.session,
            final(self)@ == old(self)@.stopped(),
            old(self)@.idle() ==> final(self)@ == old(self)@,
            final(self)@.wf(),
    {
        let closed = self.session;
        self.session = None;
        closed
    }
}

} // verus!
