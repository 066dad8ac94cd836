use vstd::prelude::*;

use crate::rubik_model::Movement;

verus! {

/// Relies on rand::random: a fresh draw from the process-wide generator.
/// Nothing can be promised of a random value, so no `ensures` is stated.
pub assume_specification<T>[ rand::random::<T> ]() -> (r: T)
    where
        rand::distributions::Standard: rand::distributions::Distribution<T>,
;

/// An injected source of draws: either the process-wide random generator, or
/// a scripted sequence of values, so a run can be made fully deterministic.
pub enum RandomSource {
    System,
    Script { values: Vec<u32>, next: usize },
}

impl RandomSource {
    pub open spec fn is_system(&self) -> bool {
        self is System
    }

    pub open spec fn is_script(&self) -> bool {
        self is Script
    }

    /// The scripted values (empty for the system source).
    pub open spec fn svals(&self) -> Seq<u32> {
        match self {
            RandomSource::System => Seq::empty(),
            RandomSource::Script { values, .. } => values@,
        }
    }

    /// The cursor into the scripted values.
    pub open spec fn snext(&self) -> int {
        match self {
            RandomSource::System => 0,
            RandomSource::Script { next, .. } => *next as int,
        }
    }

    /// The next raw draw.  From the system source its value is unknowable;
    /// from a script it is the value under the cursor, or 0 once the script
    /// is exhausted.
    pub fn next_u32(&mut self) -> (r: u32)
        ensures
            old(self).is_system() ==> final(self).is_system(),
            old(self).is_script() ==> final(self).is_script() && final(self).svals() == old(
                self,
            ).svals(),
            old(self).is_script() && old(self).snext() < old(self).svals().len() ==> r == old(
                self,
            ).svals()[old(self).snext()] && final(self).snext() == old(self).snext() + 1,
            old(self).is_script() && old(self).snext() >= old(self).svals().len() ==> r == 0
                && final(self).snext() == old(self).snext(),
    {
        match self {
            RandomSource::System => rand::random::<u32>(),
            RandomSource::Script { values, next } => {
                if *next < values.len() {
                    let v = values[*next];
                    *next = *next + 1;
                    v
                } else {
                    0
                }
            },
        }
    }

    /// Draw a movement (uniform over the six) and a direction (uniform over
    /// +1/-1).  When a previous turn is excluded, the one pair that would
    /// exactly cancel it is withheld from the draw, which is then uniform
    /// over the remaining 11 pairs, exactly the distribution a
    /// reject-and-redraw of the cancelling pair converges to.
    pub fn next_turn(&mut self, exclude: Option<(Movement, i8)>) -> (r: (Movement, i8))
        requires
            exclude matches Some(p) ==> p.1 == 1 || p.1 == -1,
        ensures
            r.1 == 1 || r.1 == -1,
            exclude matches Some(p) ==> !(r.0 == p.0 && r.1 == -p.1),
    {
        match exclude {
            None => {
                let q = self.next_u32() % 12;
                let m = Movement::from_index((q / 2) as u8);
                let dd: i8 = if q % 2 == 0 {
                    1
                } else {
                    -1
                };
                (m, dd)
            },
            Some((pm, pd)) => {
                // The pair index (movement index times two, plus one for a
                // negative direction) of the cancelling pair (pm, -pd).
                let e: u32 = (pm.to_index() as u32) * 2 + (if pd == -1 {
                    0
                } else {
                    1
                });
                let q = self.next_u32() % 11;
                let idx = if q < e {
                    q
                } else {
                    q + 1
                };
                let m = Movement::from_index((idx / 2) as u8);
                let dd: i8 = if idx % 2 == 0 {
                    1
                } else {
                    -1
                };
                proof {
                    assert(e < 12);
                    assert(idx < 12 && idx != e);
                    if m == pm && dd == -pd {
                        assert(idx as int == 2 * (idx as int / 2) + (idx as int % 2));
                        assert(e as int == 2 * (e as int / 2) + (e as int % 2));
                        assert(false);
                    }
                }
                (m, dd)
            },
        }
    }
}

impl Movement {
    /// A uniformly random movement drawn from the process-wide generator.
    pub fn random_movement() -> Self {
        Movement::from_index((rand::random::<u32>() % 6) as u8)
    }
}

} // verus!
