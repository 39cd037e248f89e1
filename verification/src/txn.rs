//! Transaction lifecycle state machine.
//!
//! A transaction guards a live engine handle behind exclusive access and
//! enforces one-directional lifecycle transitions: it starts `Active` and
//! moves at most once into `Committed`, `RolledBack` or `Consumed`, after
//! which every state-changing operation is refused with a state error and
//! the state stays put.
//!
//! The caller serializes operations through one exclusive guard around the
//! whole `Transaction` value; within one guarded operation the handle is
//! taken with `begin_operation` and given back (or surrendered for
//! rollback) with `finish_execute`.

use vstd::prelude::*;

use crate::errors::StateError;

verus! {

/// Observable lifecycle states of a transaction.
///
/// A transaction starts `Active` and moves at most once into one of the
/// three finished states; finished states are terminal. `Consumed` marks a
/// transaction closed by its owner without commit, as opposed to one that
/// finished through commit or rollback.
#[derive(Clone, Copy, PartialEq, Eq, Structural, Debug)]
pub enum TxState {
    Active,
    Committed,
    RolledBack,
    Consumed,
}

/// A finished transaction accepts no further state-changing operation.
pub open spec fn is_finished(s: TxState) -> bool {
    s != TxState::Active
}

/// One state-changing operation on a transaction, with its outcome where
/// the engine decides one: an execute either succeeds or fails.
pub enum TxEvent {
    Execute { failed: bool },
    Commit,
    Close,
}

/// The lifecycle model: the state after one operation, and whether the
/// operation was accepted. A finished transaction rejects everything and
/// keeps its state; an active one accepts: a failed execute rolls the
/// transaction back, a successful one leaves it active, commit and close
/// finish it.
pub open spec fn tx_step(s: TxState, e: TxEvent) -> (TxState, bool) {
    if is_finished(s) {
        (s, false)
    } else {
        match e {
            TxEvent::Execute { failed } => (
                if failed {
                    TxState::RolledBack
                } else {
                    TxState::Active
                },
                true,
            ),
            TxEvent::Commit => (TxState::Committed, true),
            TxEvent::Close => (TxState::Consumed, true),
        }
    }
}

/// The state after a whole sequence of operations.
pub open spec fn tx_run(s: TxState, evs: Seq<TxEvent>) -> TxState
    decreases evs.len(),
{
    if evs.len() == 0 {
        s
    } else {
        tx_run(tx_step(s, evs[0]).0, evs.drop_first())
    }
}

/// Monotonicity: once a transaction is finished, every later operation is
/// rejected and the state never changes again, whatever the operations are.
pub proof fn lemma_monotonic(s: TxState, evs: Seq<TxEvent>)
    requires
        is_finished(s),
    ensures
        tx_run(s, evs) == s,
        forall|e: TxEvent| !tx_step(s, e).1,
    decreases evs.len(),
{
    if evs.len() > 0 {
        lemma_monotonic(s, evs.drop_first());
    }
}

/// Failure containment: an execute that fails moves an active transaction
/// to `RolledBack`, and from there no later operation is accepted or
/// changes the state.
pub proof fn lemma_failure_containment(evs: Seq<TxEvent>)
    ensures
        tx_step(TxState::Active, TxEvent::Execute { failed: true }).0 == TxState::RolledBack,
        tx_run(TxState::RolledBack, evs) == TxState::RolledBack,
        forall|e: TxEvent| !tx_step(TxState::RolledBack, e).1,
{
    lemma_monotonic(TxState::RolledBack, evs);
}

/// Exclusivity at the level of this model: while one operation holds the
/// handle, the transaction holds none to hand to a second one. That two
/// operations never reach `begin_operation` at the same instant is the
/// guard's doing: the caller routes every operation through one exclusive
/// lock around the whole `Transaction` value, and each of these methods
/// demands `&mut` access.
pub proof fn lemma_exclusive_handle<H>(t: &Transaction<H>)
    requires
        t.is_lent(),
    ensures
        t.handle() is None,
{
}

/// Where the handle of a transaction sits: still held, lent out to the one
/// operation in flight, or gone because the transaction finished.
enum TxCell<H> {
    Open(H),
    Lent,
    Finished(TxState),
}

/// A transaction: its lifecycle state, owning the engine handle while the
/// transaction is active and no operation is in flight.
///
/// The handle type is the caller's; the bridge never looks inside it.
pub struct Transaction<H> {
    cell: TxCell<H>,
}

impl<H> Transaction<H> {
    /// The observable state; a transaction whose handle is lent to an
    /// operation in flight is still active.
    pub closed spec fn state(&self) -> TxState {
        match self.cell {
            TxCell::Open(_) => TxState::Active,
            TxCell::Lent => TxState::Active,
            TxCell::Finished(s) => s,
        }
    }

    /// Is the handle lent to an operation in flight? Holds only between
    /// `begin_operation` and `finish_execute`, inside one guarded section.
    pub closed spec fn is_lent(&self) -> bool {
        self.cell is Lent
    }

    /// The handle, when the transaction holds it.
    pub closed spec fn handle(&self) -> Option<H> {
        match self.cell {
            TxCell::Open(h) => Some(h),
            _ => None,
        }
    }

    /// A finished transaction records a finished state, and the handle is
    /// present exactly while the transaction is active and not lent.
    pub closed spec fn wf(&self) -> bool {
        match self.cell {
            TxCell::Finished(s) => is_finished(s),
            _ => true,
        }
    }

    /// A new transaction around a live handle: active, handle held.
    pub fn begin(handle: H) -> (t: Self)
        ensures
            t.wf(),
            t.state() == TxState::Active,
            !t.is_lent(),
            t.handle() == Some(handle),
    {
        Transaction { cell: TxCell::Open(handle) }
    }

    /// The observable state, for callers that must test before acting.
    pub fn state_of(&self) -> (s: TxState)
        ensures
            s == self.state(),
    {
        match &self.cell {
            TxCell::Open(_) => TxState::Active,
            TxCell::Lent => TxState::Active,
            TxCell::Finished(s) => *s,
        }
    }

    /// Is an operation in flight? The guard's owner sees `false`.
    pub fn in_flight(&self) -> (b: bool)
        ensures
            b == self.is_lent(),
    {
        match &self.cell {
            TxCell::Lent => true,
            _ => false,
        }
    }

    /// Take the handle to run one operation against it. Succeeds exactly on
    /// an active transaction, which stays active with its handle lent out;
    /// on a finished one it returns the state error and changes nothing.
    pub fn begin_operation(&mut self) -> (r: Result<H, StateError>)
        requires
            old(self).wf(),
            !old(self).is_lent(),
        ensures
            final(self).wf(),
            old(self).state() == TxState::Active ==> {
                &&& r matches Ok(h) && Some(h) == old(self).handle()
                &&& final(self).is_lent()
                &&& final(self).state() == TxState::Active
            },
            old(self).state() != TxState::Active ==> {
                &&& r == Err::<H, StateError>(StateError { found: old(self).state() })
                &&& *final(self) == *old(self)
            },
    {
        let mut taken = TxCell::Lent;
        core::mem::swap(&mut self.cell, &mut taken);
        match taken {
            TxCell::Open(h) => Ok(h),
            TxCell::Lent => {
                // unreachable under the precondition; restore as-is
                self.cell = TxCell::Lent;
                Err(StateError { found: TxState::Active })
            },
            TxCell::Finished(s) => {
                self.cell = TxCell::Finished(s);
                Err(StateError { found: s })
            },
        }
    }

    /// Report the outcome of the operation the handle was lent to. On
    /// success the handle comes back and the transaction stays active; on
    /// failure the transaction moves to `RolledBack` and the handle is
    /// returned to the caller, who must roll it back with the engine.
    pub fn finish_execute(&mut self, handle: H, failed: bool) -> (rollback: Option<H>)
        requires
            old(self).wf(),
            old(self).is_lent(),
        ensures
            final(self).wf(),
            !final(self).is_lent(),
            final(self).state() == tx_step(TxState::Active, TxEvent::Execute { failed }).0,
            !failed ==> rollback is None && final(self).handle() == Some(handle),
            failed ==> rollback == Some(handle) && final(self).handle() is None,
    {
        if failed {
            self.cell = TxCell::Finished(TxState::RolledBack);
            Some(handle)
        } else {
            self.cell = TxCell::Open(handle);
            None
        }
    }

    /// Commit: on an active transaction the handle is surrendered to the
    /// caller to commit with the engine and the state becomes `Committed`;
    /// on a finished one the state error comes back and nothing changes.
    pub fn commit(&mut self) -> (r: Result<H, StateError>)
        requires
            old(self).wf(),
            !old(self).is_lent(),
        ensures
            final(self).wf(),
            final(self).state() == tx_step(old(self).state(), TxEvent::Commit).0,
            (r is Ok) == tx_step(old(self).state(), TxEvent::Commit).1,
            old(self).state() == TxState::Active ==> {
                &&& r matches Ok(h) && Some(h) == old(self).handle()
                &&& final(self).state() == TxState::Committed
                &&& !final(self).is_lent()
            },
            old(self).state() != TxState::Active ==> {
                &&& r == Err::<H, StateError>(StateError { found: old(self).state() })
                &&& *final(self) == *old(self)
            },
    {
        let mut taken = TxCell::Finished(TxState::Committed);
        core::mem::swap(&mut self.cell, &mut taken);
        match taken {
            TxCell::Open(h) => Ok(h),
            TxCell::Lent => {
                self.cell = TxCell::Lent;
                Err(StateError { found: TxState::Active })
            },
            TxCell::Finished(s) => {
                self.cell = TxCell::Finished(s);
                Err(StateError { found: s })
            },
        }
    }

    /// Close: release the handle without committing. On an active
    /// transaction the handle comes back to the caller and the state
    /// becomes `Consumed`; on a finished one this is a no-op.
    pub fn close(&mut self) -> (r: Option<H>)
        requires
            old(self).wf(),
            !old(self).is_lent(),
        ensures
            final(self).wf(),
            final(self).state() == tx_step(old(self).state(), TxEvent::Close).0,
            old(self).state() == TxState::Active ==> r == old(self).handle() && final(self).state()
                == TxState::Consumed && !final(self).is_lent(),
            old(self).state() != TxState::Active ==> r is None && *final(self) == *old(self),
    {
        let mut taken = TxCell::Finished(TxState::Consumed);
        core::mem::swap(&mut self.cell, &mut taken);
        match taken {
            TxCell::Open(h) => Some(h),
            TxCell::Lent => {
                self.cell = TxCell::Lent;
                None
            },
            TxCell::Finished(s) => {
                self.cell = TxCell::Finished(s);
                None
            },
        }
    }
}

} // verus!
