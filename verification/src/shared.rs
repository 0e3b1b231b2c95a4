//! The ring as two contexts share it.
//!
//! The audio side writes while the display side reads, each at its own pace.
//! A lock makes every write and every snapshot one undivided step. What a
//! snapshot holds then depends on how far the writer has come, so nothing is
//! promised of its values here, only its length; what one write and one read
//! do to the values is stated on `RingBuffer` and on `tap::tap`, which do the
//! work while the lock is held.

use crate::amplitude::Amplitude;
use crate::ring::RingBuffer;
use crate::tap::{forwarded, tap};
use vstd::prelude::*;
use vstd::rwlock::{RwLock, RwLockPredicate};

verus! {

/// What the lock keeps true of the ring inside it: the capacity it was made
/// with, which is not zero.
pub struct Retains {
    pub capacity: usize,
}

impl RwLockPredicate<RingBuffer<Amplitude>> for Retains {
    open spec fn inv(self, ring: RingBuffer<Amplitude>) -> bool {
        ring@.len() == self.capacity && self.capacity > 0
    }
}

/// A ring of amplitudes behind a lock, for one writer and one reader.
pub struct SharedRing {
    lock: RwLock<RingBuffer<Amplitude>, Retains>,
}

impl SharedRing {
    /// The number of amplitudes that every snapshot holds.
    pub closed spec fn capacity(&self) -> nat {
        self.lock.pred().capacity as nat
    }

    /// A ring of `capacity` amplitudes, all silence. A ring without room is
    /// refused.
    pub fn new(capacity: usize) -> (shared: Option<SharedRing>)
        ensures
            shared is Some <==> capacity > 0,
            shared matches Some(ring) ==> ring.capacity() == capacity,
    {
        if capacity == 0 {
            return None;
        }
        let ring = RingBuffer::new(capacity, Amplitude::silence());
        Some(SharedRing { lock: RwLock::new(ring, Ghost(Retains { capacity })) })
    }

    /// Copies the ring out as one step, oldest amplitude first.
    pub fn snapshot(&self) -> (snapshot: Vec<Amplitude>)
        ensures
            snapshot@.len() == self.capacity(),
    {
        let handle = self.lock.acquire_read();
        let snapshot = handle.borrow().as_vec();
        handle.release_read();
        snapshot
    }

    /// Passes one pull of the stream through the tap, as one step: a sample
    /// is written to the ring as its amplitude and handed on unchanged. The
    /// end of the stream is handed on without touching the ring or its lock.
    pub fn tap(&self, pulled: Option<i16>) -> (handed_on: Option<i16>)
        ensures
            handed_on == forwarded(pulled),
    {
        if pulled.is_none() {
            return None;
        }
        let (mut ring, handle) = self.lock.acquire_write();
        let handed_on = tap(&mut ring, pulled);
        handle.release_write(ring);
        handed_on
    }
}

} // verus!
