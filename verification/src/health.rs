//! Hit points with saturating damage: health never goes negative, never
//! increases under damage, and reports a death exactly when it crosses to
//! zero.

use vstd::prelude::*;

verus! {

/// Current and maximum hit points of an entity.
#[derive(Clone, Copy, PartialEq, Eq, Structural, Debug)]
pub struct Health {
    pub current: u32,
    pub max: u32,
}

/// The hit points a damage event of `amount` leaves behind: the current
/// value minus the amount, floored at zero.
pub open spec fn damaged(current: u32, amount: u32) -> int {
    if current >= amount {
        current - amount
    } else {
        0
    }
}

impl Health {
    pub open spec fn wf(self) -> bool {
        self.current <= self.max
    }

    /// A fresh entity starts at full health.
    pub fn new(max: u32) -> (h: Health)
        ensures
            h.current == max,
            h.max == max,
            h.wf(),
    {
        Health { current: max, max }
    }

    /// Applies one damage event. The result says whether the entity died on
    /// this event: true exactly when health was positive before and is zero
    /// after, so an already-drained health never reports a second death.
    pub fn apply_damage(&mut self, amount: u32) -> (died: bool)
        ensures
            final(self).max == old(self).max,
            final(self).current == damaged(old(self).current, amount),
            final(self).current <= old(self).current,
            died == (old(self).current > 0 && final(self).current == 0),
    {
        let before: u32 = self.current;
        self.current = if self.current >= amount {
            self.current - amount
        } else {
            0
        };
        before > 0 && self.current == 0
    }

    /// The filled share of a health bar, in per-mille of its full width.
    pub fn fill_per_mille(&self) -> (r: u32)
        requires
            self.wf(),
            self.max > 0,
        ensures
            r == (self.current * 1000) as int / self.max as int,
            r <= 1000,
    {
        proof {
            vstd::arithmetic::mul::lemma_mul_inequality(
                self.current as int,
                self.max as int,
                1000,
            );
            vstd::arithmetic::div_mod::lemma_div_is_ordered(
                self.current as int * 1000,
                self.max as int * 1000,
                self.max as int,
            );
            vstd::arithmetic::div_mod::lemma_div_multiples_vanish(1000, self.max as int);
        }
        let v: u64 = (self.current as u64) * 1000 / (self.max as u64);
        v as u32
    }
}

/// Damage never revives: any sequence of two damage events leaves no more
/// health than the larger single one, and once at zero, health stays at
/// zero and no further event reports a death.
pub proof fn lemma_damage_monotone(h0: Health, a: u32, b: u32)
    ensures
        damaged(damaged(h0.current, a) as u32, b) <= damaged(h0.current, a),
        damaged(h0.current, a) == 0 ==> damaged(damaged(h0.current, a) as u32, b) == 0,
{
}

} // verus!
