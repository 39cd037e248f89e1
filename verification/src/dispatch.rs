//! The callback dispatcher.
//!
//! Worker tasks never touch host callback state: they enqueue a completion
//! that pairs the callback reference with the computed outcome, and the
//! host's own tick loop drains the queue at its synchronization point and
//! fires each callback there. A completion leaves the queue exactly once,
//! in the order completions arrived; the ghost logs of this type make that
//! a provable conservation law rather than a convention.

use vstd::prelude::*;

use crate::errors::BridgeError;
use crate::errors::VBridgeError;
use crate::value::Row;
use crate::value::VRow;

verus! {

/// What an operation produced: the materialized rows, or the error rendered
/// for the host. By construction a callback receives rows without an error
/// or an error without rows, never both and never neither.
#[derive(PartialEq, Eq, Debug)]
pub enum Outcome {
    Rows(Vec<Row>),
    Failure(BridgeError),
}

/// Spec-level mirror of `Outcome`.
pub enum VOutcome {
    Rows(Seq<VRow>),
    Failure(VBridgeError),
}

impl View for Outcome {
    type V = VOutcome;

    open spec fn view(&self) -> VOutcome {
        match self {
            Outcome::Rows(rows) => VOutcome::Rows(rows.deep_view()),
            Outcome::Failure(e) => VOutcome::Failure(e@),
        }
    }
}

/// An outcome is exactly one of: rows without an error, or an error without
/// rows.
pub open spec fn outcome_exclusive(o: VOutcome) -> bool {
    (o is Rows) != (o is Failure)
}

/// The either-rows-or-error shape holds of every outcome, by construction.
pub proof fn lemma_outcome_exclusive(o: VOutcome)
    ensures
        outcome_exclusive(o),
{
}

/// One unit of work for the host's tick loop: fire `callback` with
/// `outcome`. The callback reference is an opaque single-use handle into
/// host-owned closure state. The type has no clone: each completion can be
/// fired only once.
pub struct Completion {
    pub callback: u64,
    pub outcome: Outcome,
}

/// Spec-level mirror of `Completion`.
pub struct VCompletion {
    pub callback: u64,
    pub outcome: VOutcome,
}

impl View for Completion {
    type V = VCompletion;

    open spec fn view(&self) -> VCompletion {
        VCompletion { callback: self.callback, outcome: self.outcome@ }
    }
}

impl DeepView for Completion {
    type V = VCompletion;

    open spec fn deep_view(&self) -> VCompletion {
        self.view()
    }
}

/// The dispatcher's queue, with ghost logs of everything ever submitted and
/// everything already delivered.
pub struct Dispatcher {
    queue: Vec<Completion>,
    done: Ghost<Seq<VCompletion>>,
    all: Ghost<Seq<VCompletion>>,
}

impl Dispatcher {
    /// Completions submitted and not yet delivered, in arrival order.
    pub closed spec fn pending(&self) -> Seq<VCompletion> {
        self.queue.deep_view()
    }

    /// Completions already handed to the host, in delivery order.
    pub closed spec fn delivered(&self) -> Seq<VCompletion> {
        self.done@
    }

    /// Everything ever submitted, in arrival order.
    pub closed spec fn submitted(&self) -> Seq<VCompletion> {
        self.all@
    }

    /// Conservation: what was submitted is exactly what was delivered
    /// followed by what is still pending — nothing lost, nothing duplicated,
    /// order kept.
    pub closed spec fn wf(&self) -> bool {
        self.all@ == self.done@ + self.queue.deep_view()
    }

    /// An empty dispatcher.
    pub fn new() -> (d: Dispatcher)
        ensures
            d.wf(),
            d.pending() == Seq::<VCompletion>::empty(),
            d.delivered() == Seq::<VCompletion>::empty(),
            d.submitted() == Seq::<VCompletion>::empty(),
    {
        let d = Dispatcher { queue: Vec::new(), done: Ghost(Seq::empty()), all: Ghost(Seq::empty()) };
        proof {
            assert(d.queue.deep_view() =~= Seq::<VCompletion>::empty());
            assert(d.all@ =~= d.done@ + d.queue.deep_view());
        }
        d
    }

    /// Submit a completion: it joins the back of the queue and the log of
    /// submissions; nothing is delivered by this call.
    pub fn enqueue(&mut self, c: Completion)
        requires
            old(self).wf(),
        ensures
            final(self).wf(),
            final(self).submitted() == old(self).submitted().push(c@),
            final(self).pending() == old(self).pending().push(c@),
            final(self).delivered() == old(self).delivered(),
    {
        proof {
            self.all@ = self.all@.push(c@);
        }
        self.queue.push(c);
        proof {
            assert forall|i: int| 0 <= i < self.queue.deep_view().len() implies self
                .queue
                .deep_view()[i] == old(self).pending().push(c@)[i] by {
            let _ = self.queue@[i];
            }
            assert(self.queue.deep_view() =~= old(self).pending().push(c@));
            assert(self.all@ =~= self.done@ + self.queue.deep_view());
        }
    }

    /// Hand the host the next completion, when one is pending: the head of
    /// the queue moves, exactly once, to the delivered log. On an empty
    /// queue nothing changes.
    pub fn drain_next(&mut self) -> (r: Option<Completion>)
        requires
            old(self).wf(),
        ensures
            final(self).wf(),
            final(self).submitted() == old(self).submitted(),
            old(self).pending().len() == 0 ==> r is None && *final(self) == *old(self),
            old(self).pending().len() > 0 ==> {
                &&& r matches Some(c) && c@ == old(self).pending()[0]
                &&& final(self).pending() == old(self).pending().drop_first()
                &&& final(self).delivered() == old(self).delivered().push(old(self).pending()[0])
            },
    {
        if self.queue.len() == 0 {
            proof {
                assert(old(self).pending().len() == 0);
            }
            None
        } else {
            let c = self.queue.remove(0);
            proof {
                self.done@ = self.done@.push(c@);
                assert forall|i: int| 0 <= i < self.queue.deep_view().len() implies self
                    .queue
                    .deep_view()[i] == old(self).pending().drop_first()[i] by {
                    let _ = self.queue@[i];
                }
                assert(self.queue.deep_view() =~= old(self).pending().drop_first());
                assert(c@ == old(self).pending()[0]);
                assert(self.all@ =~= self.done@ + self.queue.deep_view());
            }
            Some(c)
        }
    }

    /// How many completions wait for the next tick.
    pub fn pending_count(&self) -> (n: usize)
        ensures
            n == self.pending().len(),
    {
        proof {
            assert(self.queue.deep_view().len() == self.queue@.len());
        }
        self.queue.len()
    }
}

/// Exactly-once delivery: what was submitted is what was delivered followed
/// by what still waits; the delivered log is a prefix of the submission log
/// (callbacks fire in submission order), and a drained dispatcher has
/// delivered everything exactly once.
pub proof fn lemma_exactly_once(d: &Dispatcher)
    requires
        d.wf(),
    ensures
        d.submitted() == d.delivered() + d.pending(),
        forall|i: int| 0 <= i < d.delivered().len() ==> d.submitted()[i] == d.delivered()[i],
        d.pending().len() == 0 ==> d.delivered() == d.submitted(),
{
    if d.pending().len() == 0 {
        assert(d.delivered() + d.pending() =~= d.delivered());
    }
}

} // verus!
