//! The registry of live connections and the broadcast pass over it.
//!
//! The registry knows a connection by its identity alone; whoever owns the
//! sockets keeps them under the same identities. A broadcast is planned here,
//! carried out by that owner, and settled here again: the owner writes the
//! plan's frame to every target and reports how each write went, and the
//! registry drops the connections whose write failed.

use vstd::prelude::*;
use vstd::utf8::*;

use crate::frame::{encode_text, spec_encode, Frame};

verus! {

/// Identity of one connection. The registry issues it when it registers the
/// connection, and issues none twice.
pub type ConnId = u64;

/// How a write to one connection went.
#[derive(Clone, Copy, Debug, PartialEq, Eq)]
pub enum WriteOutcome {
    /// The frame was handed to the transport.
    Written,
    /// The transport had no room right now. The frame is lost to this
    /// connection; the connection itself is sound.
    WouldBlock,
    /// The write failed. The connection is dead.
    Failed,
}

/// The report on one write of a broadcast pass.
#[derive(Clone, Copy, Debug, PartialEq, Eq)]
pub struct Delivery {
    pub conn: ConnId,
    pub outcome: WriteOutcome,
}

/// The plan of one broadcast pass: write `frame` to each of `targets`.
#[derive(Debug)]
pub struct Broadcast {
    pub frame: Frame,
    pub targets: Vec<ConnId>,
}

/// A [`Broadcast`] with its frame as bytes and its targets as a sequence.
pub struct BroadcastPlan {
    pub frame: Seq<u8>,
    pub targets: Seq<ConnId>,
}

impl View for Broadcast {
    type V = BroadcastPlan;

    open spec fn view(&self) -> BroadcastPlan {
        BroadcastPlan { frame: self.frame@, targets: self.targets@ }
    }
}

/// The live connections, in the order in which they were registered. Its view
/// is the sequence of their identities.
#[derive(Debug)]
pub struct Registry {
    ids: Vec<ConnId>,
    next: ConnId,
}

impl View for Registry {
    type V = Seq<ConnId>;

    closed spec fn view(&self) -> Seq<ConnId> {
        self.ids@
    }
}

/// The plan for the broadcast of `text` to the connections `ids`: the frame
/// of `text` goes to each of them, whichever of them it came from.
pub open spec fn spec_broadcast(ids: Seq<ConnId>, text: Seq<char>) -> BroadcastPlan {
    BroadcastPlan { frame: spec_encode(encode_utf8(text)), targets: ids }
}

/// Some report in `reports` says that a write to `id` failed.
pub open spec fn failed(reports: Seq<Delivery>, id: ConnId) -> bool {
    exists|i: int|
        0 <= i < reports.len() && (#[trigger] reports[i]).conn == id && reports[i].outcome
            == WriteOutcome::Failed
}

/// The test that a connection passes when no report in `reports` says that a
/// write to it failed.
pub open spec fn sound(reports: Seq<Delivery>) -> spec_fn(ConnId) -> bool {
    |id: ConnId| !failed(reports, id)
}

/// The test that a connection passes when some report in `reports` says that
/// a write to it failed.
pub open spec fn dead(reports: Seq<Delivery>) -> spec_fn(ConnId) -> bool {
    |id: ConnId| failed(reports, id)
}

/// The connections of `ids` that stay after a pass with `reports`: those
/// without a failed write, in their old order.
pub open spec fn survivors(ids: Seq<ConnId>, reports: Seq<Delivery>) -> Seq<ConnId> {
    ids.filter(sound(reports))
}

/// The connections of `ids` that leave after a pass with `reports`: those
/// with a failed write, in their old order.
pub open spec fn casualties(ids: Seq<ConnId>, reports: Seq<Delivery>) -> Seq<ConnId> {
    ids.filter(dead(reports))
}

proof fn lemma_filter_push<A>(s: Seq<A>, x: A, pred: spec_fn(A) -> bool)
    ensures
        s.push(x).filter(pred) == if pred(x) {
            s.filter(pred).push(x)
        } else {
            s.filter(pred)
        },
{
    reveal(Seq::filter);
    assert(s.push(x).drop_last() =~= s);
}

proof fn lemma_push_contains<A>(s: Seq<A>, x: A, y: A)
    ensures
        s.push(x).contains(y) <==> s.contains(y) || y == x,
{
    let t = s.push(x);
    if t.contains(y) {
        let i: int = choose|i: int| 0 <= i < t.len() && t[i] == y;
        if i < s.len() {
            assert(s[i] == y);
        }
    }
    if s.contains(y) {
        let i: int = choose|i: int| 0 <= i < s.len() && s[i] == y;
        assert(t[i] == y);
    }
    if y == x {
        assert(t[s.len() as int] == y);
    }
}

proof fn lemma_filter_members<A>(s: Seq<A>, pred: spec_fn(A) -> bool)
    ensures
        forall|x: A| #[trigger] s.filter(pred).contains(x) <==> s.contains(x) && pred(x),
        s.no_duplicates() ==> s.filter(pred).no_duplicates(),
    decreases s.len(),
{
    if s.len() == 0 {
        reveal(Seq::filter);
    } else {
        let init = s.drop_last();
        let last = s.last();
        let kept = init.filter(pred);
        lemma_filter_members(init, pred);
        assert(s =~= init.push(last));
        lemma_filter_push(init, last, pred);
        assert forall|x: A| #[trigger] s.filter(pred).contains(x) <==> s.contains(x) && pred(
            x,
        ) by {
            lemma_push_contains(init, last, x);
            lemma_push_contains(kept, last, x);
        }
        if s.no_duplicates() {
            assert(init.no_duplicates()) by {
                assert forall|i: int, j: int|
                    0 <= i < init.len() && 0 <= j < init.len() && i != j implies init[i]
                    != init[j] by {
                    assert(s[i] != s[j]);
                }
            }
            if pred(last) {
                assert(!init.contains(last)) by {
                    if init.contains(last) {
                        let j: int = choose|j: int| 0 <= j < init.len() && init[j] == last;
                        assert(s[j] == s[s.len() - 1]);
                    }
                }
                assert(!kept.contains(last));
            }
        }
    }
}

/// After a pass, the registry holds exactly the connections that it held
/// before and that had no failed write, each once.
pub proof fn lemma_survivors(ids: Seq<ConnId>, reports: Seq<Delivery>)
    ensures
        forall|id: ConnId| #[trigger]
            survivors(ids, reports).contains(id) <==> ids.contains(id) && !failed(reports, id),
        ids.no_duplicates() ==> survivors(ids, reports).no_duplicates(),
{
    lemma_filter_members(ids, sound(reports));
}

/// A connection with a failed write is gone after the pass that met the
/// failure, and no later broadcast goes to it: later broadcasts go to the
/// connections that are left, and to no others.
pub proof fn lemma_failed_connection_leaves(
    ids: Seq<ConnId>,
    reports: Seq<Delivery>,
    id: ConnId,
    text: Seq<char>,
)
    requires
        failed(reports, id),
    ensures
        !survivors(ids, reports).contains(id),
        !spec_broadcast(survivors(ids, reports), text).targets.contains(id),
        forall|other: ConnId| #[trigger]
            spec_broadcast(survivors(ids, reports), text).targets.contains(other) <==> ids.contains(
                other,
            ) && !failed(reports, other),
{
    lemma_survivors(ids, reports);
}

/// A failed write to one connection takes nothing from the others in the
/// same pass: the plan names every registered connection before any write is
/// tried, and a connection without a failed write of its own stays
/// registered, whatever happened to the rest.
pub proof fn lemma_failure_spares_the_others(
    ids: Seq<ConnId>,
    reports: Seq<Delivery>,
    id: ConnId,
    text: Seq<char>,
)
    requires
        ids.contains(id),
        !failed(reports, id),
    ensures
        spec_broadcast(ids, text).targets.contains(id),
        survivors(ids, reports).contains(id),
{
    lemma_survivors(ids, reports);
}

/// A pass without a failed write leaves the registry as it was.
pub proof fn lemma_no_failure_keeps_all(ids: Seq<ConnId>, reports: Seq<Delivery>)
    requires
        forall|i: int| 0 <= i < reports.len() ==> (#[trigger] reports[i]).outcome
            != WriteOutcome::Failed,
    ensures
        survivors(ids, reports) == ids,
        casualties(ids, reports) == Seq::<ConnId>::empty(),
    decreases ids.len(),
{
    reveal(Seq::filter);
    if ids.len() > 0 {
        lemma_no_failure_keeps_all(ids.drop_last(), reports);
        assert(ids.drop_last().push(ids.last()) =~= ids);
    }
}

fn has_failed(reports: &[Delivery], id: ConnId) -> (res: bool)
    ensures
        res == failed(reports@, id),
{
    let mut i: usize = 0;
    while i < reports.len()
        invariant
            i <= reports@.len(),
            forall|j: int|
                0 <= j < i ==> !((#[trigger] reports@[j]).conn == id && reports@[j].outcome
                    == WriteOutcome::Failed),
        decreases reports@.len() - i,
    {
        let report = &reports[i];
        if report.conn == id {
            match report.outcome {
                WriteOutcome::Failed => {
                    return true;
                },
                _ => {},
            }
        }
        i = i + 1;
    }
    false
}

impl Registry {
    #[verifier::type_invariant]
    spec fn inv(self) -> bool {
        &&& self.ids@.no_duplicates()
        &&& forall|i: int| 0 <= i < self.ids@.len() ==> self.ids@[i] < self.next
    }

    /// How many identities the registry has issued so far. They are the
    /// numbers below it.
    pub closed spec fn issued(&self) -> nat {
        self.next as nat
    }

    /// No identity stands twice in the registry, and each one in it was
    /// issued by it. This holds of every registry that a program can get
    /// hold of.
    pub open spec fn wf(&self) -> bool {
        &&& self@.no_duplicates()
        &&& forall|i: int| 0 <= i < self@.len() ==> self@[i] < self.issued()
    }

    /// A registry without connections.
    pub fn new() -> (registry: Registry)
        ensures
            registry@ == Seq::<ConnId>::empty(),
            registry.issued() == 0,
            registry.wf(),
    {
        Registry { ids: Vec::new(), next: 0 }
    }

    /// How many connections are registered.
    pub fn len(&self) -> (n: usize)
        ensures
            n == self@.len(),
    {
        self.ids.len()
    }

    /// Whether no connection is registered.
    pub fn is_empty(&self) -> (res: bool)
        ensures
            res == (self@.len() == 0),
    {
        self.ids.len() == 0
    }

    /// Whether `id` is registered.
    pub fn contains(&self, id: ConnId) -> (res: bool)
        ensures
            res == self@.contains(id),
    {
        let mut i: usize = 0;
        while i < self.ids.len()
            invariant
                i <= self.ids@.len(),
                forall|j: int| 0 <= j < i ==> self.ids@[j] != id,
            decreases self.ids@.len() - i,
        {
            if self.ids[i] == id {
                return true;
            }
            i = i + 1;
        }
        false
    }

    /// Registers a new connection, behind those that are there, and returns
    /// the identity issued to it: the next number that was never issued. The
    /// connection takes part in every broadcast planned from now on, and in
    /// none planned before. Only when all identities are used up, after
    /// `u64::MAX` registrations, nothing is registered.
    pub fn register(&mut self) -> (res: Option<ConnId>)
        ensures
            res is Some <==> old(self).issued() < u64::MAX,
            res matches Some(id) ==> {
                &&& id == old(self).issued()
                &&& !old(self)@.contains(id)
                &&& final(self)@ == old(self)@.push(id)
                &&& final(self).issued() == old(self).issued() + 1
            },
            res is None ==> final(self)@ == old(self)@ && final(self).issued() == old(
                self,
            ).issued(),
            final(self).wf(),
    {
        proof {
            use_type_invariant(&*self);
        }
        if self.next == u64::MAX {
            return None;
        }
        let id: ConnId = self.next;
        let mut ids: Vec<ConnId> = Vec::new();
        core::mem::swap(&mut self.ids, &mut ids);
        ids.push(id);
        self.next = id + 1;
        self.ids = ids;
        Some(id)
    }

    /// The registered identities, in the order of their registration.
    pub fn ids(&self) -> (ids: Vec<ConnId>)
        ensures
            ids@ == self@,
    {
        let mut ids: Vec<ConnId> = Vec::new();
        let mut i: usize = 0;
        while i < self.ids.len()
            invariant
                i <= self.ids@.len(),
                ids@ == self.ids@.take(i as int),
            decreases self.ids@.len() - i,
        {
            ids.push(self.ids[i]);
            i = i + 1;
        }
        ids
    }

    /// Plans the broadcast of `text`: its frame goes to every connection that
    /// is registered now, the one it came from among them.
    pub fn broadcast(&self, text: &str) -> (plan: Broadcast)
        ensures
            plan@ == spec_broadcast(self@, text@),
    {
        Broadcast { frame: encode_text(text), targets: self.ids() }
    }

    /// Settles a broadcast pass: every connection with a failed write
    /// according to `reports` leaves the registry, all others stay, in their
    /// old order. A write that would have blocked is no failure. Returns the
    /// connections that left.
    pub fn prune(&mut self, reports: &[Delivery]) -> (dropped: Vec<ConnId>)
        ensures
            final(self)@ == survivors(old(self)@, reports@),
            dropped@ == casualties(old(self)@, reports@),
            final(self).issued() == old(self).issued(),
            final(self).wf(),
    {
        let mut kept: Vec<ConnId> = Vec::new();
        let mut dropped: Vec<ConnId> = Vec::new();
        let mut i: usize = 0;
        proof {
            use_type_invariant(&*self);
            reveal(Seq::filter);
            assert(self.ids@.take(0) =~= Seq::<ConnId>::empty());
        }
        while i < self.ids.len()
            invariant
                i <= self.ids@.len(),
                kept@ == self.ids@.take(i as int).filter(sound(reports@)),
                dropped@ == self.ids@.take(i as int).filter(dead(reports@)),
            decreases self.ids@.len() - i,
        {
            let id: ConnId = self.ids[i];
            proof {
                let seen = self.ids@.take(i as int);
                assert(self.ids@.take(i + 1) =~= seen.push(id));
                lemma_filter_push(seen, id, sound(reports@));
                lemma_filter_push(seen, id, dead(reports@));
            }
            if has_failed(reports, id) {
                dropped.push(id);
            } else {
                kept.push(id);
            }
            i = i + 1;
        }
        proof {
            assert(self.ids@.take(i as int) =~= self.ids@);
            lemma_filter_members(self.ids@, sound(reports@));
            assert forall|j: int| 0 <= j < kept@.len() implies kept@[j] < self.next by {
                assert(kept@.contains(kept@[j]));
                assert(self.ids@.contains(kept@[j]));
            }
        }
        self.ids = kept;
        dropped
    }
}

} // verus!
