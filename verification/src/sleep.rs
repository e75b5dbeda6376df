use vstd::prelude::*;

verus! {

/// The number of consecutive ticks all players must spend in bed before
/// the night is skipped.
pub const NUM_TICKS_TO_SLEEP: u128 = 101;

/// What `update` does to a count of `n` ticks: whether the night is
/// skipped, and the new count.
pub open spec fn spec_sleep_update(n: u128) -> (bool, u128) {
    if n + 1 >= NUM_TICKS_TO_SLEEP {
        (true, 0)
    } else {
        (false, (n + 1) as u128)
    }
}

/// The count after `k` updates from a count of `n`.
pub open spec fn ticks_after(n: u128, k: nat) -> u128
    decreases k,
{
    if k == 0 {
        n
    } else {
        spec_sleep_update(ticks_after(n, (k - 1) as nat)).1
    }
}

proof fn lemma_ticks_after_reset(k: nat)
    requires
        k < NUM_TICKS_TO_SLEEP,
    ensures
        ticks_after(0, k) == k,
    decreases k,
{
    if k > 0 {
        lemma_ticks_after_reset((k - 1) as nat);
    }
}

/// After a reset, the first hundred updates keep the night and the hundred
/// and first skips it, starting the count again.
pub proof fn law_night_skipped_on_the_101st_update()
    ensures
        forall|k: nat| k < NUM_TICKS_TO_SLEEP - 1 ==> !#[trigger] spec_sleep_update(ticks_after(0, k)).0,
        spec_sleep_update(ticks_after(0, (NUM_TICKS_TO_SLEEP - 1) as nat)) == (true, 0u128),
{
    assert forall|k: nat| k < NUM_TICKS_TO_SLEEP - 1 implies !#[trigger] spec_sleep_update(
        ticks_after(0, k),
    ).0 by {
        lemma_ticks_after_reset(k);
    }
    lemma_ticks_after_reset((NUM_TICKS_TO_SLEEP - 1) as nat);
}

/// Counts the ticks that all players have spent sleeping.
pub struct SleepManager {
    pub num_ticks: u128,
}

impl SleepManager {
    pub fn new() -> (r: Self)
        ensures
            r.num_ticks == 0,
    {
        Self { num_ticks: 0 }
    }

    pub fn reset(&mut self)
        ensures
            final(self).num_ticks == 0,
    {
        self.num_ticks = 0;
    }

    /// Advances the counter by one tick. Returns `true` (and starts counting
    /// again from zero) once enough ticks have passed.
    pub fn update(&mut self) -> (skip_night: bool)
        requires
            old(self).num_ticks < u128::MAX,
        ensures
            (skip_night, final(self).num_ticks) == spec_sleep_update(old(self).num_ticks),
            skip_night == (old(self).num_ticks + 1 >= NUM_TICKS_TO_SLEEP),
            skip_night ==> final(self).num_ticks == 0,
            !skip_night ==> final(self).num_ticks == old(self).num_ticks + 1,
    {
        self.num_ticks += 1;
        if self.num_ticks >= NUM_TICKS_TO_SLEEP {
            self.num_ticks = 0;
            true
        } else {
            false
        }
    }
}

} // verus!
