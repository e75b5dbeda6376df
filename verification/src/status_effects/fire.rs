//! Burning.
use vstd::prelude::*;

verus! {

/// An entity on fire.
pub struct FireEffect {
    /// Ticks left to burn.
    pub time_ticks: u128,
    /// Ticks until the next burn.
    timer: i32,
}

impl FireEffect {
    pub closed spec fn timer(&self) -> i32 {
        self.timer
    }

    pub closed spec fn ticks(&self) -> u128 {
        self.time_ticks
    }

    /// Burning for `time` ticks, the first burn on the first tick.
    pub fn new(time: u128) -> (r: Self)
        ensures
            r.ticks() == time,
            r.timer() == 0,
    {
        Self { time_ticks: time, timer: 0 }
    }

    /// Whether the fire has gone out.
    pub fn should_remove(&self) -> (r: bool)
        ensures
            r == (self.ticks() == 0),
    {
        self.time_ticks == 0
    }

    /// One tick of burning. While ticks are left, one is used up; when the
    /// timer runs out the entity burns: the next burn comes in 20 ticks (10
    /// inside fire), water puts the fire out instead, and the damage
    /// returned is 20 for a dropped item and 1 for anything else, none in
    /// creative mode. The inputs say whether the entity touches fire and
    /// water, whether it is a dropped item and whether it is in creative
    /// mode.
    pub fn tick(&mut self, in_fire: bool, in_water: bool, is_item: bool, is_creative: bool) -> (damage: Option<i16>)
        ensures
            old(self).ticks() == 0 ==> *final(self) == *old(self) && damage is None,
            old(self).ticks() > 0 && old(self).timer() > 0 ==> {
                &&& final(self).ticks() == old(self).ticks() - 1
                &&& final(self).timer() == old(self).timer() - 1
                &&& damage is None
            },
            old(self).ticks() > 0 && old(self).timer() <= 0 ==> {
                &&& final(self).timer() == (if in_fire {
                    10i32
                } else {
                    20i32
                })
                &&& in_water ==> final(self).ticks() == 0 && damage is None
                &&& !in_water ==> final(self).ticks() == old(self).ticks() - 1
                &&& !in_water && is_creative ==> damage is None
                &&& !in_water && !is_creative ==> damage == Some(
                    if is_item {
                        20i16
                    } else {
                        1i16
                    },
                )
            },
    {
        if self.time_ticks > 0 {
            self.time_ticks -= 1;
            if self.timer <= 0 {
                self.timer = 20;
                if in_fire {
                    self.timer = 10;
                }
                if in_water {
                    self.time_ticks = 0;
                    return None;
                }
                let amount_of_damage: i16 = if is_item {
                    20
                } else {
                    1
                };
                if !is_creative {
                    return Some(amount_of_damage);
                }
            } else {
                self.timer -= 1;
            }
        }
        None
    }
}

/// Whether the block id is moving or still water.
pub fn is_water(id: u8) -> (r: bool)
    ensures
        r == (id == 8 || id == 9),
{
    id == 8 || id == 9
}

} // verus!
