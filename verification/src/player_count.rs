//! The number of players on the server.
use vstd::prelude::*;

use std::sync::atomic::AtomicU32;
use std::sync::atomic::Ordering;
use std::sync::Arc;

verus! {

/// The server is full.
#[derive(Debug)]
pub struct MaxPlayersReached;

struct Inner {
    count: AtomicU32,
    max_players: u32,
}

/// Maintains the server player count.
///
/// Can be cloned to create a new handle.
#[derive(Clone)]
pub struct PlayerCount {
    inner: Arc<Inner>,
}

/// `AtomicU32::fetch_update` with `PlayerCount::count_after_join`: replaces the count
/// by its successor after a join, retrying until the swap succeeds or `count_after_join`
/// refuses. Returns `Ok` with the count that was replaced, or `Err` with
/// the count that it refused.
#[verifier::external_body]
fn join_one(count: &AtomicU32, max_players: u32) -> (r: Result<u32, u32>)
    ensures
        r matches Ok(prev) ==> prev < max_players,
        r matches Err(prev) ==> prev >= max_players,
{
    count.fetch_update(Ordering::SeqCst, Ordering::SeqCst, |c| PlayerCount::count_after_join(c, max_players))
}

impl PlayerCount {
    /// The most players the server takes.
    pub closed spec fn max(&self) -> u32 {
        self.inner.max_players
    }

    /// No players yet, and at most `max_players`.
    pub fn new(max_players: u32) -> (r: Self)
        ensures
            r.max() == max_players,
    {
        Self { inner: Arc::new(Inner { count: AtomicU32::new(0), max_players }) }
    }

    /// The player count after one more player joins `current` ones, or
    /// `None` when the server is full.
    pub fn count_after_join(current: u32, max_players: u32) -> (r: Option<u32>)
        ensures
            current >= max_players ==> r is None,
            current < max_players ==> r == Some((current + 1) as u32),
            r matches Some(n) ==> n <= max_players,
    {
        if current >= max_players {
            None
        } else {
            Some(current + 1)
        }
    }

    /// Counts one more player, unless the server is full.
    pub fn try_add_player(&self) -> (r: Result<(), MaxPlayersReached>) {
        match join_one(&self.inner.count, self.inner.max_players) {
            Ok(_) => Ok(()),
            Err(_) => Err(MaxPlayersReached),
        }
    }

    /// Counts one player less.
    pub fn remove_player(&self) {
        self.inner.count.fetch_sub(1, Ordering::SeqCst);
    }

    /// The current count; other handles may change it at any time.
    pub fn get(&self) -> u32 {
        self.inner.count.load(Ordering::Acquire)
    }

    pub fn get_max(&self) -> (r: u32)
        ensures
            r == self.max(),
    {
        self.inner.max_players
    }
}

} // verus!
