//! A growable pool of interchangeable connection handles.

use std::sync::Arc;
use std::time::{Duration, SystemTime, UNIX_EPOCH};
use vstd::prelude::*;

verus! {

/// The number of handles that a new pool reserves room for.
pub const POOL_CAPACITY: usize = 5;

#[verifier::external_type_specification]
#[verifier::external_body]
pub struct ExSystemTime(SystemTime);

/// Reads the system clock with `std::time::SystemTime::now`.
///
/// Trusted: nothing is claimed of the time that is read.
#[verifier::external_body]
fn system_now() -> (now: SystemTime) {
    SystemTime::now()
}

/// The time from the Unix epoch to the given time, by
/// `std::time::SystemTime::duration_since`; `None` where the time lies before
/// the epoch.
///
/// Trusted: nothing is claimed of the result.
#[verifier::external_body]
fn since_epoch(time: &SystemTime) -> (elapsed: Option<Duration>) {
    match time.duration_since(UNIX_EPOCH) {
        Ok(elapsed) => Some(elapsed),
        Err(_) => None,
    }
}

/// The whole milliseconds of a duration, by `std::time::Duration::as_millis`.
///
/// Trusted: nothing is claimed of the result.
#[verifier::external_body]
fn whole_millis(elapsed: &Duration) -> (millis: u128) {
    elapsed.as_millis()
}

/// Another reference to the value behind a handle, by
/// `std::sync::Arc::clone`.
///
/// Trusted: the new reference points to the same value as the given one.
#[verifier::external_body]
fn share<H>(handle: &Arc<H>) -> (shared: Arc<H>)
    ensures
        shared == *handle,
{
    Arc::clone(handle)
}

/// The position that a tick selects in a pool of the given size: the tick
/// modulo the size, and none in an empty pool.
pub open spec fn selected_index(pool_len: nat, tick: nat) -> Option<int> {
    if pool_len == 0 {
        None
    } else {
        Some(tick as int % pool_len as int)
    }
}

/// The handle that a tick selects: the one at the selected position, and the
/// seed handle where the pool is empty.
pub open spec fn selected_handle<H>(seed: Arc<H>, handles: Seq<Arc<H>>, tick: nat) -> Arc<H> {
    match selected_index(handles.len(), tick) {
        Some(i) => handles[i],
        None => seed,
    }
}

/// The position that a tick selects in a pool of the given size.
pub fn select_index(pool_len: usize, tick: u128) -> (index: Option<usize>)
    ensures
        index matches Some(i) ==> i < pool_len,
        match index {
            Some(i) => selected_index(pool_len as nat, tick as nat) == Some(i as int),
            None => selected_index(pool_len as nat, tick as nat) is None,
        },
{
    if pool_len == 0 {
        None
    } else {
        let index: u128 = tick % (pool_len as u128);
        Some(index as usize)
    }
}

/// The milliseconds that the system clock counts since the Unix epoch, and
/// zero where the clock is set before it.
fn clock_tick() -> (tick: u128) {
    let now = system_now();
    match since_epoch(&now) {
        Some(elapsed) => whole_millis(&elapsed),
        None => 0,
    }
}

/// A seed handle and an ordered, growable sequence of handles, any of which
/// serves any request.
pub struct ConnectionPool<H> {
    seed: Arc<H>,
    handles: Vec<Arc<H>>,
}

impl<H> ConnectionPool<H> {
    /// The handle that the pool was made with.
    pub closed spec fn seed(&self) -> Arc<H> {
        self.seed
    }

    /// The handles of the pool, in the order in which they were added.
    pub closed spec fn handles(&self) -> Seq<Arc<H>> {
        self.handles@
    }

    /// The pool that holds the seed handle and no other.
    pub fn new(seed: Arc<H>) -> (pool: Self)
        ensures
            pool.seed() == seed,
            pool.handles() == seq![seed],
    {
        let mut handles: Vec<Arc<H>> = Vec::with_capacity(POOL_CAPACITY);
        handles.push(share(&seed));
        assert(handles@ =~= seq![seed]);
        ConnectionPool { seed, handles }
    }

    /// The pool with the given seed handle and the given handles, which may
    /// be none.
    pub fn with_handles(seed: Arc<H>, handles: Vec<Arc<H>>) -> (pool: Self)
        ensures
            pool.seed() == seed,
            pool.handles() == handles@,
    {
        ConnectionPool { seed, handles }
    }

    /// The number of handles in the pool.
    pub fn len(&self) -> (count: usize)
        ensures
            count == self.handles().len(),
    {
        self.handles.len()
    }

    /// Appends a handle to the pool.
    pub fn add_handle(&mut self, handle: Arc<H>)
        ensures
            final(self).seed() == old(self).seed(),
            final(self).handles() == old(self).handles().push(handle),
    {
        self.handles.push(handle);
    }

    /// The handle that the given tick selects.
    pub fn handle_at(&self, tick: u128) -> (handle: Arc<H>)
        ensures
            handle == selected_handle(self.seed(), self.handles(), tick as nat),
    {
        match select_index(self.handles.len(), tick) {
            Some(i) => share(&self.handles[i]),
            None => share(&self.seed),
        }
    }

    /// The handle that the system clock's tick selects: some handle of the
    /// pool, and the seed handle where the pool is empty.
    pub fn select_handle(&self) -> (handle: Arc<H>)
        ensures
            exists|tick: nat| handle == selected_handle(self.seed(), self.handles(), tick),
            self.handles().len() == 0 ==> handle == self.seed(),
            self.handles().len() > 0 ==> self.handles().contains(handle),
    {
        let tick = clock_tick();
        let handle = self.handle_at(tick);
        proof {
            assert(handle == selected_handle(self.seed(), self.handles(), tick as nat));
            if self.handles().len() > 0 {
                let i = tick as int % self.handles().len() as int;
                assert(self.handles()[i] == handle);
            }
        }
        handle
    }
}

} // verus!
