//! The table of live captures, through which a session finds its owner.

use vstd::prelude::*;
use crate::capture::{Capture, CaptureView};
use crate::session::{ManagerView, Session, SessionManager};
use crate::source::CaptureSource;

verus! {

/// What a [`CaptureTable`] is, as a value.
pub struct TableView {
    /// The live captures, each under its identity.
    pub live: Map<u64, CaptureView>,
    /// How many captures the table has made so far, live or not.
    pub issued: u64,
}

impl TableView {
    /// Every live capture sits under its own identity, which the table has
    /// issued, and is itself well formed.
    pub open spec fn wf(self) -> bool {
        forall|id: u64| #[trigger]
            self.live.contains_key(id) ==> id < self.issued && self.live[id].id == id
                && self.live[id].wf()
    }

    /// The identity of the capture that `create` makes next, unless
    /// identities have run out.
    pub open spec fn next_id(self) -> Option<u64> {
        if self.issued < u64::MAX {
            Some(self.issued)
        } else {
            None
        }
    }

    /// The table after `create`.
    pub open spec fn created(self, source: CaptureSource) -> TableView {
        match self.next_id() {
            Some(id) => TableView {
                live: self.live.insert(id, CaptureView { id, source, session: None }),
                issued: (id + 1) as u64,
            },
            None => self,
        }
    }

    /// The table after `release` of `id`.
    pub open spec fn released(self, id: u64) -> TableView {
        TableView { live: self.live.remove(id), ..self }
    }

    /// The capture that is live under `id`, if there is one.
    pub open spec fn get(self, id: u64) -> Option<CaptureView> {
        if self.live.contains_key(id) {
            Some(self.live[id])
        } else {
            None
        }
    }

    /// The session that `start` of `id` gets from `manager`: none where no
    /// capture is live under `id`.
    pub open spec fn request(self, id: u64, manager: ManagerView) -> Option<Session> {
        match self.get(id) {
            Some(capture) => capture.request(manager),
            None => None,
        }
    }

    /// The table after `start` of `id` with `manager`.
    pub open spec fn started(self, id: u64, manager: ManagerView) -> TableView {
        match self.get(id) {
            Some(capture) => TableView {
                live: self.live.insert(id, capture.started(manager)),
                ..self
            },
            None => self,
        }
    }

    /// The table after `stop` of `id`.
    pub open spec fn stopped(self, id: u64) -> TableView {
        match self.get(id) {
            Some(capture) => TableView { live: self.live.insert(id, capture.stopped()), ..self },
            None => self,
        }
    }

    /// The live capture that `session` names as its owner, if it names one
    /// and that one is live.
    pub open spec fn owner_of(self, session: Session) -> Option<CaptureView> {
        match session.owner {
            Some(id) => self.get(id),
            None => None,
        }
    }
}

/// The views of `captures`, in the same order.
spec fn views(captures: Seq<Capture>) -> Seq<CaptureView> {
    Seq::new(captures.len(), |i: int| captures[i]@)
}

/// Identities grow along `s`.
spec fn ascending(s: Seq<CaptureView>) -> bool {
    forall|i: int, j: int| 0 <= i < j < s.len() ==> s[i].id < s[j].id
}

/// Some capture of `s` has the identity `id`.
spec fn has_id(s: Seq<CaptureView>, id: u64) -> bool {
    exists|i: int| 0 <= i < s.len() && s[i].id == id
}

/// A place in `s` where the identity `id` is found, if there is any.
spec fn place_of(s: Seq<CaptureView>, id: u64) -> int {
    choose|i: int| 0 <= i < s.len() && s[i].id == id
}

/// The captures of `s`, each under its identity.
spec fn by_id(s: Seq<CaptureView>) -> Map<u64, CaptureView> {
    Map::new(|id: u64| has_id(s, id), |id: u64| s[place_of(s, id)])
}

/// With growing identities, each capture of `s` is the one found under its
/// identity.
proof fn lemma_by_id_at(s: Seq<CaptureView>, i: int)
    requires
        ascending(s),
        0 <= i < s.len(),
    ensures
        by_id(s).contains_key(s[i].id),
        by_id(s)[s[i].id] == s[i],
        place_of(s, s[i].id) == i,
{
}

/// A capture added at the end, with an identity above all others, is added
/// under its identity.
proof fn lemma_by_id_push(s: Seq<CaptureView>, c: CaptureView)
    requires
        ascending(s),
        forall|i: int| 0 <= i < s.len() ==> s[i].id < c.id,
    ensures
        ascending(s.push(c)),
        by_id(s.push(c)) == by_id(s).insert(c.id, c),
{
    let t = s.push(c);
    assert forall|id: u64| by_id(t).contains_key(id) <==> by_id(s).insert(c.id, c).contains_key(
        id,
    ) by {
        if has_id(s, id) {
            assert(t[place_of(s, id)].id == id);
        }
        if id == c.id {
            assert(t[s.len() as int].id == id);
        }
    }
    assert forall|id: u64| by_id(t).contains_key(id) implies by_id(t)[id] == by_id(s).insert(
        c.id,
        c,
    )[id] by {
        let k = place_of(t, id);
        lemma_by_id_at(t, k);
        if k < s.len() {
            lemma_by_id_at(s, k);
        }
    }
}

/// A capture taken out of `s` is taken out from under its identity.
proof fn lemma_by_id_remove(s: Seq<CaptureView>, i: int)
    requires
        ascending(s),
        0 <= i < s.len(),
    ensures
        ascending(s.remove(i)),
        by_id(s.remove(i)) == by_id(s).remove(s[i].id),
{
    let t = s.remove(i);
    assert forall|id: u64| by_id(t).contains_key(id) <==> by_id(s).remove(s[i].id).contains_key(
        id,
    ) by {
        if has_id(t, id) {
            let k = place_of(t, id);
            let j = if k < i {
                k
            } else {
                k + 1
            };
            assert(s[j].id == id);
        }
        if has_id(s, id) && id != s[i].id {
            let j = place_of(s, id);
            let k = if j < i {
                j
            } else {
                j - 1
            };
            assert(t[k].id == id);
        }
    }
    assert forall|id: u64| by_id(t).contains_key(id) implies by_id(t)[id] == by_id(s).remove(
        s[i].id,
    )[id] by {
        let k = place_of(t, id);
        lemma_by_id_at(t, k);
        lemma_by_id_at(s, if k < i {
            k
        } else {
            k + 1
        });
    }
}

/// A capture put in the place of one with the same identity replaces it
/// under that identity.
proof fn lemma_by_id_update(s: Seq<CaptureView>, i: int, c: CaptureView)
    requires
        ascending(s),
        0 <= i < s.len(),
        c.id == s[i].id,
    ensures
        ascending(s.update(i, c)),
        by_id(s.update(i, c)) == by_id(s).insert(c.id, c),
{
    let t = s.update(i, c);
    assert forall|id: u64| by_id(t).contains_key(id) <==> by_id(s).insert(c.id, c).contains_key(
        id,
    ) by {
        if has_id(t, id) {
            assert(s[place_of(t, id)].id == id);
        }
        if has_id(s, id) {
            assert(t[place_of(s, id)].id == id);
        }
    }
    assert forall|id: u64| by_id(t).contains_key(id) implies by_id(t)[id] == by_id(s).insert(
        c.id,
        c,
    )[id] by {
        let k = place_of(t, id);
        lemma_by_id_at(t, k);
        lemma_by_id_at(s, k);
    }
}

/// The live captures, by identity.
///
/// The table makes captures, gives each an identity that it never gives
/// again, and forgets a capture when it is released. A session's
/// back-reference is such an identity: it resolves while the capture is in
/// the table and not after.
pub struct CaptureTable {
    live: Vec<Capture>,
    issued: u64,
}

impl CaptureTable {
    #[verifier::type_invariant]
    spec fn inv(&self) -> bool {
        &&& ascending(views(self.live@))
        &&& forall|i: int|
            0 <= i < self.live.len() ==> (#[trigger] self.live[i])@.id < self.issued
                && self.live[i]@.wf()
    }

    /// The table as a value.
    pub closed spec fn view(&self) -> TableView {
        TableView { live: by_id(views(self.live@)), issued: self.issued }
    }

    /// What the table keeps true of its captures makes its value well
    /// formed.
    proof fn lemma_view_wf(&self)
        requires
            self.inv(),
        ensures
            self@.wf(),
    {
        let s = views(self.live@);
        assert forall|id: u64| #[trigger] self@.live.contains_key(id) implies id < self.issued
            && self@.live[id].id == id && self@.live[id].wf() by {
            let k = place_of(s, id);
            lemma_by_id_at(s, k);
        }
    }

    /// A table without captures.
    pub fn new() -> (table: Self)
        ensures
            table@ == (TableView { live: Map::empty(), issued: 0 }),
            table@.wf(),
    {
        let table = CaptureTable { live: Vec::new(), issued: 0 };
        assert(table@.live =~= Map::empty());
        table
    }

    /// Makes an idle capture of `source` and returns its identity, which no
    /// capture of this table had before or will have again.
    ///
    /// Fails, and changes nothing, exactly when every identity has been
    /// issued.
    pub fn create(&mut self, source: CaptureSource) -> (id: Option<u64>)
        ensures
            id == old(self)@.next_id(),
            final(self)@ == old(self)@.created(source),
            final(self)@.wf(),
    {
        proof {
            use_type_invariant(&*self);
            self.lemma_view_wf();
        }
        if self.issued < u64::MAX {
            let id: u64 = self.issued;
            let ghost before = views(self.live@);
            let mut live = Vec::new();
            std::mem::swap(&mut live, &mut self.live);
            live.push(Capture::new(id, source));
            proof {
                let made = CaptureView { id, source, session: None };
                assert(views(live@) =~= before.push(made));
                lemma_by_id_push(before, made);
            }
            self.issued = id + 1;
            self.live = live;
            proof {
                self.lemma_view_wf();
            }
            Some(id)
        } else {
            None
        }
    }

    /// Forgets the capture with identity `id` and returns it, with the
    /// session that it may still hold. From then on no back-reference
    /// resolves to it. Without such a capture nothing changes.
    pub fn release(&mut self, id: u64) -> (gone: Option<Capture>)
        ensures
            final(self)@ == old(self)@.released(id),
            final(self)@.wf(),
            match gone {
                Some(capture) => old(self)@.get(id) == Some(capture@),
                None => old(self)@.get(id) is None,
            },
    {
        proof {
            use_type_invariant(&*self);
            self.lemma_view_wf();
        }
        let ghost before = views(self.live@);
        match self.position(id) {
            Some(i) => {
                let mut live = Vec::new();
                std::mem::swap(&mut live, &mut self.live);
                let gone = live.remove(i);
                proof {
                    assert(views(live@) =~= before.remove(i as int));
                    lemma_by_id_remove(before, i as int);
                    lemma_by_id_at(before, i as int);
                }
                self.live = live;
                proof {
                    self.lemma_view_wf();
                }
                Some(gone)
            },
            None => {
                assert(self@.live.remove(id) =~= self@.live);
                None
            },
        }
    }

    /// The capture with identity `id`, if it is live.
    pub fn get(&self, id: u64) -> (capture: Option<&Capture>)
        ensures
            match capture {
                Some(found) => self@.get(id) == Some(found@),
                None => self@.get(id) is None,
            },
            self@.wf(),
    {
        proof {
            use_type_invariant(self);
            self.lemma_view_wf();
        }
        match self.position(id) {
            Some(i) => {
                proof {
                    lemma_by_id_at(views(self.live@), i as int);
                }
                Some(&self.live[i])
            },
            None => None,
        }
    }

    /// Starts the capture with identity `id`, as [`Capture::start`] does.
    /// Without such a capture nothing is asked of `manager` and nothing
    /// changes.
    pub fn start(&mut self, id: u64, manager: &mut SessionManager) -> (opened: Option<Session>)
        ensures
            opened == old(self)@.request(id, old(manager)@),
            final(self)@ == old(self)@.started(id, old(manager)@),
            final(manager)@ == old(manager)@.served(opened),
            opened is None ==> final(self)@ == old(self)@ && final(manager)@ == old(manager)@,
            final(self)@.wf(),
    {
        proof {
            use_type_invariant(&*self);
            self.lemma_view_wf();
        }
        let ghost before = views(self.live@);
        match self.position(id) {
            Some(i) => {
                let mut live = Vec::new();
                std::mem::swap(&mut live, &mut self.live);
                let opened = live[i].start(manager);
                proof {
                    assert(views(live@) =~= before.update(i as int, live[i as int]@));
                    lemma_by_id_update(before, i as int, live[i as int]@);
                    lemma_by_id_at(before, i as int);
                    if opened is None {
                        assert(by_id(before).insert(id, before[i as int]) =~= by_id(before));
                    }
                }
                self.live = live;
                proof {
                    self.lemma_view_wf();
                }
                opened
            },
            None => None,
        }
    }

    /// Stops the capture with identity `id`, as [`Capture::stop`] does.
    /// Without such a capture nothing changes.
    pub fn stop(&mut self, id: u64) -> (closed: Option<Session>)
        ensures
            closed == match old(self)@.get(id) {
                Some(capture) => capture.session,
                None => None,
            },
            final(self)@ == old(self)@.stopped(id),
            closed is None ==> final(self)@ == old(self)@,
            final(self)@.wf(),
    {
        proof {
            use_type_invariant(&*self);
            self.lemma_view_wf();
        }
        let ghost before = views(self.live@);
        match self.position(id) {
            Some(i) => {
                let mut live = Vec::new();
                std::mem::swap(&mut live, &mut self.live);
                let closed = live[i].stop();
                proof {
                    assert(views(live@) =~= before.update(i as int, live[i as int]@));
                    lemma_by_id_update(before, i as int, live[i as int]@);
                    lemma_by_id_at(before, i as int);
                    if closed is None {
                        assert(by_id(before).insert(id, before[i as int]) =~= by_id(before));
                    }
                }
                self.live = live;
                proof {
                    self.lemma_view_wf();
                }
                closed
            },
            None => None,
        }
    }

    /// Where the capture with identity `id` stands, if it is live. The
    /// captures stand in the order of their identities, so the search halves
    /// its range at each step.
    fn position(&self, id: u64) -> (at: Option<usize>)
        ensures
            match at {
                Some(i) => i < self.live.len() && self.live[i as int]@.id == id,
                None => !has_id(views(self.live@), id),
            },
    {
        proof {
            use_type_invariant(self);
        }
        let ghost all = views(self.live@);
        let mut low: usize = 0;
        let mut high: usize = self.live.len();
        while low < high
            invariant
                all == views(self.live@),
                ascending(all),
                low <= high <= self.live.len(),
                forall|k: int| 0 <= k < low ==> all[k].id < id,
                forall|k: int| high <= k < all.len() ==> all[k].id > id,
            decreases high - low,
        {
            let mid = low + (high - low) / 2;
            let found = self.live[mid].id();
            assert(all[mid as int].id == found);
            if found == id {
                return Some(mid);
            } else if found < id {
                low = mid + 1;
            } else {
                high = mid;
            }
        }
        None
    }
}

} // verus!
