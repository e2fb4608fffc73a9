//! The registry behind a lock, for a producer and a consumer that run at
//! the same time.
//!
//! Each operation is one critical section: it takes the lock, does its
//! work on the whole registry, and gives the lock back before it returns.

use crate::registry::Registry;
use crate::registry::RegistryView;
use crate::window_model::AmplitudeSample;
use vstd::prelude::*;
use vstd::rwlock::RwLock;
use vstd::rwlock::RwLockPredicate;

verus! {

/// What the lock admits: a well-formed registry with the retention spans
/// that the shared registry was made with.
pub struct Admitted {
    pub retentions: Seq<u64>,
}

impl RwLockPredicate<Registry> for Admitted {
    open spec fn inv(self, registry: Registry) -> bool {
        registry.wf() && registry@.retentions == self.retentions
    }
}

/// A registry that several threads may use through shared references.
pub struct SharedRegistry {
    lock: RwLock<Registry, Admitted>,
}

impl SharedRegistry {
    /// The retention spans of the windows, in the order of construction.
    /// They never change.
    pub closed spec fn retentions(&self) -> Seq<u64> {
        self.lock.pred().retentions
    }

    /// A shared registry with one empty window for each retention span.
    pub fn new(retentions: &[u64]) -> (shared: Self)
        ensures
            shared.retentions() == retentions@,
    {
        let registry = Registry::new(retentions);
        SharedRegistry { lock: RwLock::new(registry, Ghost(Admitted { retentions: retentions@ })) }
    }

    /// The number of windows.
    pub fn len(&self) -> (len: usize)
        ensures
            len == self.retentions().len(),
    {
        let handle = self.lock.acquire_read();
        let len = handle.borrow().len();
        handle.release_read();
        len
    }

    /// Pushes one sample into every window, with the registry held
    /// exclusively from the first window to the last.
    pub fn push_all(&self, time: u64, value: i32) {
        let (mut registry, handle) = self.lock.acquire_write();
        registry.push_all(time, value);
        handle.release_write(registry);
    }

    /// Reads all windows in one critical section. Whatever is pushed
    /// meanwhile, the result is a snapshot of the registry after one
    /// history of pushes: no window in it is ahead of another.
    pub fn snapshot(&self) -> (maxes: Vec<(u64, i32)>)
        ensures
            exists|history: Seq<AmplitudeSample>|
                maxes@ == #[trigger] (RegistryView { retentions: self.retentions(), history }).snapshot(),
    {
        let handle = self.lock.acquire_read();
        let maxes = handle.borrow().snapshot();
        proof {
            let registry = handle.view();
            assert(registry@ =~= (RegistryView {
                retentions: self.retentions(),
                history: registry@.history,
            }));
        }
        handle.release_read();
        maxes
    }
}

} // verus!
