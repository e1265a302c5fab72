//! What holds of captures, sessions and tables across calls.
//!
//! The laws are stated over the values that the contracts of the library
//! speak of. A [`World`] is one table together with the manager that serves
//! it, and a [`Step`] is one call on them.

use vstd::prelude::*;
use crate::capture::CaptureView;
use crate::session::{ManagerView, Session};
use crate::source::CaptureSource;
use crate::table::TableView;

verus! {

/// The capture and the manager after `times` calls of `start` in a row.
pub open spec fn start_times(capture: CaptureView, manager: ManagerView, times: nat) -> (
    CaptureView,
    ManagerView,
)
    decreases times,
{
    if times == 0 {
        (capture, manager)
    } else {
        let (before, serving) = start_times(capture, manager, (times - 1) as nat);
        (before.started(serving), serving.served(before.request(serving)))
    }
}

/// One call on a table and the manager that serves it.
pub enum Step {
    /// `create` of a capture of this target.
    Create(CaptureSource),
    /// `release` of the capture with this identity.
    Release(u64),
    /// `start` of the capture with this identity.
    Start(u64),
    /// `stop` of the capture with this identity.
    Stop(u64),
}

/// A table and the manager that serves it.
pub struct World {
    pub table: TableView,
    pub manager: ManagerView,
}

impl World {
    /// Table and manager are well formed, and every session that a capture
    /// holds came from the manager.
    pub open spec fn wf(self) -> bool {
        &&& self.table.wf()
        &&& self.manager.wf()
        &&& forall|id: u64| #[trigger]
            self.table.live.contains_key(id) ==> (self.table.live[id].session matches Some(s)
                ==> self.manager.handed_out(s))
    }

    /// The world after one call.
    pub open spec fn step(self, step: Step) -> World {
        match step {
            Step::Create(source) => World { table: self.table.created(source), ..self },
            Step::Release(id) => World { table: self.table.released(id), ..self },
            Step::Start(id) => World {
                table: self.table.started(id, self.manager),
                manager: self.manager.served(self.table.request(id, self.manager)),
            },
            Step::Stop(id) => World { table: self.table.stopped(id), ..self },
        }
    }

    /// The world after the calls of `steps`, in their order.
    pub open spec fn run(self, steps: Seq<Step>) -> World
        decreases steps.len(),
    {
        if steps.len() == 0 {
            self
        } else {
            self.run(steps.drop_last()).step(steps.last())
        }
    }

    /// The identity `id` has been issued and its capture released.
    pub open spec fn retired(self, id: u64) -> bool {
        id < self.table.issued && !self.table.live.contains_key(id)
    }
}

/// Two windows are the same target exactly when their identities are equal,
/// and a window is never the same target as a workspace on an output.
pub proof fn lemma_source_identity(window: u64, other: u64, workspace: u64, output: u64)
    ensures
        (CaptureSource::Toplevel(window) == CaptureSource::Toplevel(other)) <==> window == other,
        CaptureSource::Toplevel(window) != CaptureSource::Workspace(workspace, output),
{
}

/// Of two calls of `start` in a row on an idle capture, with a manager that
/// can create, the first creates one session and the second none: it gets
/// no session and changes neither the capture nor the manager.
pub proof fn lemma_second_start_changes_nothing(capture: CaptureView, manager: ManagerView)
    requires
        capture.idle(),
        manager.can_create(),
    ensures
        ({
            let once = capture.started(manager);
            let serving = manager.served(capture.request(manager));
            &&& once.capturing()
            &&& serving.created == manager.created + 1
            &&& once.request(serving) is None
            &&& once.started(serving) == once
            &&& serving.served(once.request(serving)) == serving
        }),
{
}

/// `start` on a capture that is capturing gets no session and changes
/// neither the capture nor the manager, whatever the manager could do.
pub proof fn lemma_start_when_capturing(capture: CaptureView, manager: ManagerView)
    requires
        capture.capturing(),
    ensures
        capture.request(manager) is None,
        capture.started(manager) == capture,
        manager.served(capture.request(manager)) == manager,
{
}

/// Neither `start` nor `stop` changes the identity or the target of a
/// capture, and both keep it well formed.
pub proof fn lemma_capture_keeps_identity_and_target(capture: CaptureView, manager: ManagerView)
    requires
        capture.wf(),
    ensures
        capture.started(manager).id == capture.id,
        capture.started(manager).source == capture.source,
        capture.started(manager).wf(),
        capture.stopped().id == capture.id,
        capture.stopped().source == capture.source,
        capture.stopped().wf(),
{
}

/// `stop` leaves an idle capture as it is, alone or in a table.
pub proof fn lemma_stop_when_idle(capture: CaptureView, table: TableView, id: u64)
    ensures
        capture.idle() ==> capture.stopped() == capture,
        (table.get(id) matches Some(found) ==> found.idle()) ==> table.stopped(id) == table,
{
    if table.live.contains_key(id) && table.live[id].idle() {
        assert(table.live.insert(id, table.live[id]) =~= table.live);
    }
}

/// `start` after `stop`, with a manager that can create, leaves the capture
/// capturing with a session that the manager had not handed out before: it
/// differs from every `prior` one.
pub proof fn lemma_restart_opens_new_session(
    capture: CaptureView,
    manager: ManagerView,
    prior: Session,
)
    requires
        manager.can_create(),
        manager.handed_out(prior),
    ensures
        ({
            let again = capture.stopped().started(manager);
            &&& capture.stopped().idle()
            &&& again.capturing()
            &&& again.session == manager.offer(capture.source, Some(capture.id))
            &&& again.session != Some(prior)
            &&& !manager.handed_out(again.session->0)
            &&& manager.served(again.session).handed_out(again.session->0)
        }),
{
}

/// However many times `start` is called in a row on an idle capture, with a
/// manager that can create, the manager creates one session, and it is the
/// one that the capture holds.
pub proof fn lemma_many_starts_open_one_session(
    capture: CaptureView,
    manager: ManagerView,
    times: nat,
)
    requires
        capture.idle(),
        manager.can_create(),
        times >= 1,
    ensures
        start_times(capture, manager, times) == (
            capture.started(manager),
            manager.served(capture.request(manager)),
        ),
        start_times(capture, manager, times).0.session == manager.offer(
            capture.source,
            Some(capture.id),
        ),
        start_times(capture, manager, times).1.created == manager.created + 1,
    decreases times,
{
    if times > 1 {
        lemma_many_starts_open_one_session(capture, manager, (times - 1) as nat);
    } else {
        assert(start_times(capture, manager, 0) == (capture, manager));
    }
}

/// No capture has more than one active session: two active sessions that
/// name the same owner are one session, held by one capture.
pub proof fn lemma_one_active_session_per_capture(world: World, left: u64, right: u64)
    requires
        world.wf(),
        world.table.get(left) is Some,
        world.table.get(right) is Some,
        world.table.live[left].session is Some,
        world.table.live[right].session is Some,
        world.table.live[left].session->0.owner == world.table.live[right].session->0.owner,
    ensures
        left == right,
        world.table.live[left].session == world.table.live[right].session,
{
}

/// Every call keeps a well-formed world well formed, takes back no identity
/// and no session that was issued, leaves the target of each capture that
/// stays live as it was, and leaves each released identity released.
pub proof fn lemma_step_keeps(world: World, step: Step)
    requires
        world.wf(),
    ensures
        world.step(step).wf(),
        world.table.issued <= world.step(step).table.issued,
        world.manager.created <= world.step(step).manager.created,
        world.manager.limit == world.step(step).manager.limit,
        forall|id: u64|
            world.table.live.contains_key(id) && #[trigger] world.step(
                step,
            ).table.live.contains_key(id) ==> world.step(step).table.live[id].source
                == world.table.live[id].source,
        forall|id: u64| world.retired(id) ==> #[trigger] world.step(step).retired(id),
{
}

/// What [`lemma_step_keeps`] says of one call, of any number of calls.
pub proof fn lemma_run_keeps(world: World, steps: Seq<Step>)
    requires
        world.wf(),
    ensures
        world.run(steps).wf(),
        world.table.issued <= world.run(steps).table.issued,
        world.manager.created <= world.run(steps).manager.created,
        world.manager.limit == world.run(steps).manager.limit,
        forall|id: u64| world.retired(id) ==> #[trigger] world.run(steps).retired(id),
    decreases steps.len(),
{
    if steps.len() > 0 {
        lemma_run_keeps(world, steps.drop_last());
        lemma_step_keeps(world.run(steps.drop_last()), steps.last());
    }
}

/// The session that `start` opens for a live capture resolves to that
/// capture: at once, and after any further calls for as long as the capture
/// is live. What it resolves to has the identity and the target of the
/// capture that made it.
pub proof fn lemma_session_resolves_to_its_capture(world: World, id: u64, later: Seq<Step>)
    requires
        world.wf(),
        world.table.request(id, world.manager) is Some,
    ensures
        ({
            let session = world.table.request(id, world.manager)->0;
            let started = world.step(Step::Start(id));
            let end = started.run(later);
            &&& started.table.live[id].session == Some(session)
            &&& started.table.owner_of(session) == Some(started.table.live[id])
            &&& end.table.live.contains_key(id) ==> {
                &&& end.table.owner_of(session) == Some(end.table.live[id])
                &&& end.table.live[id].id == id
                &&& end.table.live[id].source == world.table.live[id].source
            }
        }),
    decreases later.len(),
{
    let started = world.step(Step::Start(id));
    lemma_step_keeps(world, Step::Start(id));
    lemma_run_keeps(started, later);
    if later.len() > 0 {
        let before = started.run(later.drop_last());
        lemma_session_resolves_to_its_capture(world, id, later.drop_last());
        lemma_run_keeps(started, later.drop_last());
        lemma_step_keeps(before, later.last());
    }
}

/// Once a capture is released, no session that names it resolves to any
/// capture, whatever calls follow: its identity is not issued again. That
/// the capture held a session when it was released makes no difference.
pub proof fn lemma_released_owner_never_resolves(
    world: World,
    id: u64,
    session: Session,
    later: Seq<Step>,
)
    requires
        world.wf(),
        world.table.live.contains_key(id),
        session.owner == Some(id),
    ensures
        !world.step(Step::Release(id)).table.live.contains_key(id),
        world.step(Step::Release(id)).run(later).table.owner_of(session) is None,
{
    let released = world.step(Step::Release(id));
    lemma_step_keeps(world, Step::Release(id));
    lemma_run_keeps(released, later);
    assert(released.run(later).retired(id));
}

} // verus!
