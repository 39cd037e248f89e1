//! The runtime bridge's bookkeeping: process configuration read once at
//! startup, and the task registry behind graceful shutdown.
//!
//! The worker pool itself, task spawning and the bounded wait are engine-
//! and runtime-side work that the host application performs; it decides
//! through the functions here: which configuration to build the pool with,
//! whether a submission is still accepted, and what to report when the
//! grace period ends with tasks still running (they are detached, not
//! killed: a documented resource leak, never a crash).

use vstd::prelude::*;

use crate::errors::BridgeError;

verus! {

/// Worker threads when the host configures nothing usable.
pub const DEFAULT_WORKER_THREADS: u16 = 1;

/// Graceful-shutdown timeout in seconds when the host configures nothing
/// usable.
pub const DEFAULT_SHUTDOWN_TIMEOUT_SECS: u32 = 20;

/// The bridge's process configuration, read once at startup.
#[derive(Clone, Copy, PartialEq, Eq, Structural, Debug)]
pub struct BridgeConfig {
    pub worker_threads: u16,
    pub shutdown_timeout_secs: u32,
}

/// The worker-thread count a raw host configuration value resolves to.
pub open spec fn spec_worker_threads(raw: Option<i64>) -> int {
    match raw {
        Some(v) => if 1 <= v <= u16::MAX {
            v as int
        } else {
            DEFAULT_WORKER_THREADS as int
        },
        None => DEFAULT_WORKER_THREADS as int,
    }
}

/// The shutdown timeout a raw host configuration value resolves to.
pub open spec fn spec_shutdown_timeout(raw: Option<i64>) -> int {
    match raw {
        Some(v) => if 0 <= v <= u32::MAX {
            v as int
        } else {
            DEFAULT_SHUTDOWN_TIMEOUT_SECS as int
        },
        None => DEFAULT_SHUTDOWN_TIMEOUT_SECS as int,
    }
}

/// Resolve the process configuration from the host's two raw configuration
/// values, read once at startup: a worker-thread count in `1..=65535` and a
/// timeout in whole seconds that fits 32 bits are taken as given; anything
/// else falls back to the defaults.
pub fn resolve_config(worker_threads_raw: Option<i64>, shutdown_timeout_raw: Option<i64>) -> (c:
    BridgeConfig)
    ensures
        c.worker_threads as int == spec_worker_threads(worker_threads_raw),
        c.shutdown_timeout_secs as int == spec_shutdown_timeout(shutdown_timeout_raw),
{
    let worker_threads: u16 = match worker_threads_raw {
        Some(v) => if 1 <= v && v <= u16::MAX as i64 {
            v as u16
        } else {
            DEFAULT_WORKER_THREADS
        },
        None => DEFAULT_WORKER_THREADS,
    };
    let shutdown_timeout_secs: u32 = match shutdown_timeout_raw {
        Some(v) => if 0 <= v && v <= u32::MAX as i64 {
            v as u32
        } else {
            DEFAULT_SHUTDOWN_TIMEOUT_SECS
        },
        None => DEFAULT_SHUTDOWN_TIMEOUT_SECS,
    };
    BridgeConfig { worker_threads, shutdown_timeout_secs }
}

/// The registry of in-flight tasks: which submissions are still running,
/// and whether new ones are still accepted. The real spawning is the
/// runtime's; the registry carries the decisions around it.
pub struct TaskRegistry {
    active: Vec<u64>,
    next_id: u64,
    closed: bool,
}

impl TaskRegistry {
    /// The identifiers of tracked, unfinished tasks, oldest first.
    pub closed spec fn active_ids(&self) -> Seq<u64> {
        self.active@
    }

    /// Does the registry still accept submissions?
    pub closed spec fn is_closed(&self) -> bool {
        self.closed
    }

    /// The identifier the next submission would get.
    pub closed spec fn next_id(&self) -> u64 {
        self.next_id
    }

    /// Identifiers are pairwise distinct and below the next one.
    pub closed spec fn wf(&self) -> bool {
        &&& forall|i: int, j: int|
            0 <= i < j < self.active@.len() ==> self.active@[i] != self.active@[j]
        &&& forall|i: int| 0 <= i < self.active@.len() ==> self.active@[i] < self.next_id
    }

    /// An open registry tracking nothing.
    pub fn new() -> (t: TaskRegistry)
        ensures
            t.wf(),
            !t.is_closed(),
            t.active_ids() == Seq::<u64>::empty(),
    {
        TaskRegistry { active: Vec::new(), next_id: 0, closed: false }
    }

    /// Track one new task. Succeeds with a fresh identifier exactly while
    /// the registry is open and identifiers are not exhausted; after
    /// `close` every submission is refused and nothing changes.
    pub fn register(&mut self) -> (r: Option<u64>)
        requires
            old(self).wf(),
        ensures
            final(self).wf(),
            old(self).is_closed() || old(self).next_id() == u64::MAX ==> r is None && *final(self)
                == *old(self),
            !old(self).is_closed() && old(self).next_id() < u64::MAX ==> {
                &&& r == Some(old(self).next_id())
                &&& !old(self).active_ids().contains(old(self).next_id())
                &&& final(self).active_ids() == old(self).active_ids().push(old(self).next_id())
                &&& final(self).next_id() == old(self).next_id() + 1
                &&& !final(self).is_closed()
            },
    {
        if self.closed || self.next_id == u64::MAX {
            return None;
        }
        let id = self.next_id;
        self.next_id = self.next_id + 1;
        self.active.push(id);
        Some(id)
    }

    /// Strike a finished task off. Reports whether the identifier was
    /// tracked; afterwards it is not, and every other identifier is tracked
    /// exactly as before.
    pub fn finish(&mut self, id: u64) -> (found: bool)
        requires
            old(self).wf(),
        ensures
            final(self).wf(),
            found == old(self).active_ids().contains(id),
            final(self).is_closed() == old(self).is_closed(),
            final(self).next_id() == old(self).next_id(),
            !found ==> *final(self) == *old(self),
            found ==> {
                &&& final(self).active_ids().len() == old(self).active_ids().len() - 1
                &&& !final(self).active_ids().contains(id)
                &&& forall|x: u64|
                    x != id ==> (final(self).active_ids().contains(x) == old(
                        self,
                    ).active_ids().contains(x))
            },
    {
        let ghost old_ids = self.active@;
        let n = self.active.len();
        let mut i: usize = 0;
        while i < n
            invariant
                i <= n,
                n == self.active@.len(),
                old(self).wf(),
                *self == *old(self),
                old_ids == old(self).active_ids(),
                forall|j: int| 0 <= j < i ==> self.active@[j] != id,
            decreases n - i,
        {
            if self.active[i] == id {
                self.active.remove(i);
                proof {
                    assert(old_ids.contains(id)) by {
                        assert(old_ids[i as int] == id);
                    }
                    assert(!self.active@.contains(id)) by {
                        if self.active@.contains(id) {
                            let j = choose|j: int|
                                0 <= j < self.active@.len() && self.active@[j] == id;
                            if j < i {
                                assert(old_ids[j] == id);
                            } else {
                                assert(old_ids[j + 1] == id);
                            }
                        }
                    }
                    assert forall|x: u64| x != id implies (self.active@.contains(x) == old_ids
                        .contains(x)) by {
                        if self.active@.contains(x) {
                            let j = choose|j: int|
                                0 <= j < self.active@.len() && self.active@[j] == x;
                            if j < i {
                                assert(old_ids[j] == x);
                            } else {
                                assert(old_ids[j + 1] == x);
                            }
                            assert(old_ids.contains(x));
                        }
                        if old_ids.contains(x) {
                            let j = choose|j: int| 0 <= j < old_ids.len() && old_ids[j] == x;
                            if j < i {
                                assert(self.active@[j] == x);
                            } else {
                                assert(j != i);
                                assert(self.active@[j - 1] == x);
                            }
                            assert(self.active@.contains(x));
                        }
                    }
                    assert forall|p: int, q: int|
                        0 <= p < q < self.active@.len() implies self.active@[p] != self
                        .active@[q] by {
                        let p0: int = if p < i { p } else { p + 1 };
                        let q0: int = if q < i { q } else { q + 1 };
                        assert(self.active@[p] == old_ids[p0]);
                        assert(self.active@[q] == old_ids[q0]);
                    }
                    assert forall|j: int| 0 <= j < self.active@.len() implies self.active@[j]
                        < self.next_id by {
                        let j0: int = if j < i { j } else { j + 1 };
                        assert(self.active@[j] == old_ids[j0]);
                    }
                }
                return true;
            }
            i += 1;
        }
        proof {
            assert(!old_ids.contains(id)) by {
                if old_ids.contains(id) {
                    let j = choose|j: int| 0 <= j < old_ids.len() && old_ids[j] == id;
                    assert(self.active@[j] != id);
                }
            }
        }
        false
    }

    /// Stop accepting submissions; tracked tasks keep running.
    pub fn close(&mut self)
        requires
            old(self).wf(),
        ensures
            final(self).wf(),
            final(self).is_closed(),
            final(self).active_ids() == old(self).active_ids(),
            final(self).next_id() == old(self).next_id(),
    {
        self.closed = true;
    }

    /// How many tracked tasks have not finished. After the shutdown wait
    /// this is the count of detached stragglers.
    pub fn active_count(&self) -> (n: usize)
        ensures
            n == self.active_ids().len(),
    {
        self.active.len()
    }

    /// What shutdown reports once the grace period is over: nothing when
    /// every task finished, and the non-fatal timeout error exactly when
    /// stragglers were left behind.
    pub fn shutdown_report(&self) -> (r: Option<BridgeError>)
        ensures
            self.active_ids().len() == 0 ==> r is None,
            self.active_ids().len() > 0 ==> r == Some(BridgeError::ShutdownTimeout),
    {
        if self.active.len() == 0 {
            None
        } else {
            Some(BridgeError::ShutdownTimeout)
        }
    }
}

} // verus!
