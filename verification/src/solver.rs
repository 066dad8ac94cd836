use vstd::prelude::*;

use crate::laws::{entries_ok, lemma_turn_self_inverse, unwind_entries};
use crate::rubik_model::{
    items_wf, solved_seq, spec_apply_once, spec_apply_steps, ItemV, Movement, Rubic,
};
use crate::random_source::RandomSource;

verus! {

/// Milliseconds the solved cube rests before a new scramble begins.
pub const SHOW_SOLVED_MS: u64 = 3000;

/// Milliseconds one quarter turn takes at the fixed rate of one quarter turn
/// per second; progress through a turn is counted in these thousandths.
pub const QUARTER_TURN_MS: i64 = 1000;

/// Fewest and most turns of one scramble.
pub const MIN_SHUFFLING_STEPS: u32 = 4;

pub const MAX_SHUFFLING_STEPS: u32 = 15;

/// An in-flight turn: the movement, its direction (+1 or -1), and how far the
/// turn has progressed, in thousandths of a quarter turn (signed like the
/// direction).
#[derive(Clone, Copy, PartialEq, Debug)]
pub struct MovementState {
    pub movement: Movement,
    pub expected_steps: i8,
    pub current_steps: i64,
}

/// One committed scramble turn, kept so the scramble can be replayed exactly,
/// in reverse order with negated directions.
#[derive(Clone, Copy, PartialEq, Eq, Structural, Debug)]
pub struct HistoryItem {
    pub movement: Movement,
    pub steps: i8,
}

/// The control state: either resting solved since some instant, or turning.
#[derive(Clone, Copy, PartialEq, Debug)]
pub enum SolvingState {
    Movement(MovementState),
    ShowSolvedSince(u64),
}

/// The history entries as move/direction pairs.
pub open spec fn hist_entries(h: Seq<HistoryItem>) -> Seq<(Movement, int)> {
    h.map_values(|e: HistoryItem| (e.movement, e.steps as int))
}

/// The autonomous solver: the cube, the control state, the reversal history,
/// and how many scramble turns are still owed in the current cycle.
pub struct RubicSolution {
    rubic: Rubic,
    solving_state: SolvingState,
    history: Vec<HistoryItem>,
    shuffling_steps: u32,
}

impl RubicSolution {
    /// The cube state.
    pub closed spec fn cube_view(&self) -> Seq<ItemV> {
        self.rubic@
    }

    /// The recorded history.
    pub closed spec fn history_view(&self) -> Seq<HistoryItem> {
        self.history@
    }

    /// Scramble turns still owed.
    pub closed spec fn shuffling_view(&self) -> int {
        self.shuffling_steps as int
    }

    /// The control state.
    pub closed spec fn state_view(&self) -> SolvingState {
        self.solving_state
    }

    pub open spec fn is_show_solved(&self) -> bool {
        self.state_view() is ShowSolvedSince
    }

    /// The active movement and direction, when a turn is in flight.
    pub open spec fn spec_active(&self) -> Option<(Movement, i8)> {
        match self.state_view() {
            SolvingState::Movement(st) => Some((st.movement, st.expected_steps)),
            SolvingState::ShowSolvedSince(_) => None,
        }
    }

    /// Progress of the active turn in signed thousandths of a quarter turn.
    pub open spec fn progress_view(&self) -> int {
        match self.state_view() {
            SolvingState::Movement(st) => st.current_steps as int,
            SolvingState::ShowSolvedSince(_) => 0,
        }
    }

    /// The solver's invariant.  The cube is well formed; history directions
    /// are +1/-1; at rest the cube is solved with nothing recorded and
    /// nothing owed; while turning, unwinding the history (after first
    /// committing the pending turn, when the scramble is already complete and
    /// the pending turn is a replayed one) restores the solved cube exactly.
    pub open spec fn inv(&self) -> bool {
        &&& items_wf(self.cube_view())
        &&& entries_ok(hist_entries(self.history_view()))
        &&& match self.state_view() {
            SolvingState::ShowSolvedSince(_) => {
                &&& self.history_view().len() == 0
                &&& self.shuffling_view() == 0
                &&& self.cube_view() == solved_seq()
            },
            SolvingState::Movement(st) => {
                &&& (st.expected_steps == 1 || st.expected_steps == -1)
                &&& -QUARTER_TURN_MS < st.current_steps < QUARTER_TURN_MS
                &&& if self.shuffling_view() > 0 {
                    unwind_entries(self.cube_view(), hist_entries(self.history_view()))
                        == solved_seq()
                } else {
                    unwind_entries(
                        spec_apply_once(self.cube_view(), st.movement, st.expected_steps as int),
                        hist_entries(self.history_view()),
                    ) == solved_seq()
                }
            },
        }
    }

    /// Create the solver at process start: cube solved, resting since the
    /// zero instant, no history, no scramble owed.
    pub fn new() -> (r: RubicSolution)
        ensures
            r.inv(),
            r.is_show_solved(),
            r.cube_view() == solved_seq(),
            r.history_view().len() == 0,
            r.shuffling_view() == 0,
    {
        let r = RubicSolution {
            rubic: Rubic::new(),
            solving_state: SolvingState::ShowSolvedSince(0),
            history: Vec::new(),
            shuffling_steps: 0,
        };
        proof {
            assert(hist_entries(r.history_view()) =~= Seq::<(Movement, int)>::empty());
        }
        r
    }

    /// The cube, for reading each cubelet's settled pose.
    pub fn rubic(&self) -> (r: &Rubic)
        ensures
            r@ == self.cube_view(),
    {
        &self.rubic
    }

    /// The active movement and direction, if a turn is in flight.
    pub fn active_turn(&self) -> (r: Option<(Movement, i8)>)
        ensures
            r == self.spec_active(),
    {
        match self.solving_state {
            SolvingState::Movement(st) => Some((st.movement, st.expected_steps)),
            SolvingState::ShowSolvedSince(_) => None,
        }
    }

    /// Progress of the active turn in signed thousandths of a quarter turn.
    pub fn progress_millis(&self) -> (r: i64)
        ensures
            r as int == self.progress_view(),
    {
        match self.solving_state {
            SolvingState::Movement(st) => st.current_steps,
            SolvingState::ShowSolvedSince(_) => 0,
        }
    }

    pub fn history_len(&self) -> (r: usize)
        ensures
            r == self.history_view().len(),
    {
        self.history.len()
    }

    pub fn shuffling(&self) -> (r: u32)
        ensures
            r as int == self.shuffling_view(),
    {
        self.shuffling_steps
    }

    /// One tick of the control loop, given the elapsed time since start and
    /// the time since the previous tick, both in milliseconds.
    ///
    /// Resting, the solver waits out the dwell, then draws a scramble length
    /// and a first turn.  Turning, it advances progress at the fixed rate;
    /// when a whole quarter turn is reached it commits the turn to the cube,
    /// records it while scramble turns are owed, and chooses what follows:
    /// the next scramble turn (never the exact cancel of the one just made),
    /// the next replayed history entry with negated direction, or, once the
    /// history is empty, rest, which the invariant guarantees is reached with
    /// the cube exactly solved.
    pub fn tick(&mut self, t_ms: u64, dt_ms: u32, rng: &mut RandomSource)
        requires
            old(self).inv(),
        ensures
            final(self).inv(),
            final(self).is_show_solved() ==> final(self).cube_view() == solved_seq()
                && final(self).history_view().len() == 0,
            match old(self).state_view() {
                SolvingState::ShowSolvedSince(since) => {
                    &&& t_ms < since + SHOW_SOLVED_MS ==> *final(self) == *old(self)
                    &&& t_ms >= since + SHOW_SOLVED_MS && dt_ms < QUARTER_TURN_MS
                        ==> (final(self).state_view() is Movement) && final(self).cube_view()
                            == old(self).cube_view() && final(self).history_view().len() == 0
                        && MIN_SHUFFLING_STEPS <= final(self).shuffling_view()
                            <= MAX_SHUFFLING_STEPS && (final(self).progress_view() == dt_ms as int
                            || final(self).progress_view() == -(dt_ms as int))
                },
                SolvingState::Movement(st) => {
                    let p = st.current_steps + tick_delta(st.expected_steps as int, dt_ms as int);
                    if -QUARTER_TURN_MS < p < QUARTER_TURN_MS {
                        &&& final(self).spec_active() == old(self).spec_active()
                        &&& final(self).progress_view() == p
                        &&& final(self).cube_view() == old(self).cube_view()
                        &&& final(self).history_view() == old(self).history_view()
                        &&& final(self).shuffling_view() == old(self).shuffling_view()
                    } else {
                        &&& final(self).cube_view() == spec_apply_once(
                            old(self).cube_view(),
                            st.movement,
                            st.expected_steps as int,
                        )
                        &&& old(self).shuffling_view() > 1 ==> final(self).history_view()
                            == old(self).history_view().push(
                            (HistoryItem { movement: st.movement, steps: st.expected_steps }),
                        ) && final(self).shuffling_view() == old(self).shuffling_view() - 1 && (
                        match final(self).state_view() {
                            SolvingState::Movement(st2) => st2.current_steps == 0 && !(st2.movement
                                == st.movement && st2.expected_steps as int == -(
                            st.expected_steps as int)),
                            SolvingState::ShowSolvedSince(_) => false,
                        })
                        &&& old(self).shuffling_view() == 1 ==> final(self).history_view()
                            == old(self).history_view() && final(self).shuffling_view() == 0 && (
                        match final(self).state_view() {
                            SolvingState::Movement(st2) => st2.current_steps == 0 && st2.movement
                                == st.movement && st2.expected_steps as int == -(
                            st.expected_steps as int),
                            SolvingState::ShowSolvedSince(_) => false,
                        })
                        &&& old(self).shuffling_view() == 0 ==> final(self).history_view().len()
                            == (if old(self).history_view().len() > 0 {
                            old(self).history_view().len() - 1
                        } else {
                            0
                        })
                        &&& old(self).shuffling_view() == 0 && old(self).history_view().len() > 0
                            ==> (match final(self).state_view() {
                            SolvingState::Movement(st2) => st2.current_steps == 0 && st2.movement
                                == old(self).history_view().last().movement
                                && st2.expected_steps as int == -(
                            old(self).history_view().last().steps as int),
                            SolvingState::ShowSolvedSince(_) => false,
                        })
                    }
                },
            },
    {
        let mut st: MovementState;
        match self.solving_state {
            SolvingState::ShowSolvedSince(since) => {
                if t_ms < since || t_ms - since < SHOW_SOLVED_MS {
                    return ;
                }
                let (m, d) = rng.next_turn(None);
                let draw = rng.next_u32();
                self.shuffling_steps = draw % (MAX_SHUFFLING_STEPS + 1 - MIN_SHUFFLING_STEPS)
                    + MIN_SHUFFLING_STEPS;
                st = MovementState { movement: m, expected_steps: d, current_steps: 0 };
                self.solving_state = SolvingState::Movement(st);
            },
            SolvingState::Movement(s) => {
                st = s;
            },
        }
        let d = st.expected_steps;
        let delta: i64 = if d == 1 {
            dt_ms as i64
        } else {
            -(dt_ms as i64)
        };
        let cur = st.current_steps + delta;
        if cur >= QUARTER_TURN_MS || cur <= -QUARTER_TURN_MS {
            let ghost cube0 = self.rubic@;
            self.rubic.make_movement(st.movement, d);
            proof {
                assert(spec_apply_steps(spec_apply_once(cube0, st.movement, d as int),
                    st.movement, 0) == spec_apply_once(cube0, st.movement, d as int));
                assert(self.rubic@ == spec_apply_once(cube0, st.movement, d as int));
            }
            if self.shuffling_steps > 0 {
                let ghost h0 = self.history@;
                self.history.push(HistoryItem { movement: st.movement, steps: d });
                self.shuffling_steps = self.shuffling_steps - 1;
                proof {
                    let e = (st.movement, d as int);
                    let hh = hist_entries(h0).push(e);
                    assert(hist_entries(self.history@) =~= hh);
                    assert(hh.drop_last() =~= hist_entries(h0));
                    assert(hh.last() == e);
                    lemma_turn_self_inverse(cube0, st.movement, d as int);
                    assert(unwind_entries(self.rubic@, hh) == unwind_entries(
                        spec_apply_once(self.rubic@, st.movement, -(d as int)),
                        hh.drop_last(),
                    ));
                    assert(spec_apply_once(self.rubic@, st.movement, -(d as int)) == cube0);
                    assert(entries_ok(hist_entries(self.history@)));
                    assert(unwind_entries(self.rubic@, hist_entries(self.history@))
                        == unwind_entries(cube0, hist_entries(h0)));
                }
            }
            proof {
                assert(unwind_entries(self.rubic@, hist_entries(self.history@)) == solved_seq());
            }
            if self.shuffling_steps > 0 {
                let (m2, d2) = rng.next_turn(Some((st.movement, d)));
                self.solving_state = SolvingState::Movement(
                    MovementState { movement: m2, expected_steps: d2, current_steps: 0 },
                );
            } else {
                let ghost h1 = self.history@;
                match self.history.pop() {
                    None => {
                        self.solving_state = SolvingState::ShowSolvedSince(t_ms);
                        proof {
                            assert(hist_entries(h1).len() == 0);
                            assert(unwind_entries(self.rubic@, hist_entries(h1)) == self.rubic@);
                        }
                    },
                    Some(h) => {
                        proof {
                            let he1 = hist_entries(h1);
                            assert(he1[he1.len() - 1] == (h.movement, h.steps as int));
                            assert(h.steps == 1 || h.steps == -1);
                        }
                        let nd: i8 = -h.steps;
                        self.solving_state = SolvingState::Movement(
                            MovementState { movement: h.movement, expected_steps: nd,
                                current_steps: 0 },
                        );
                        proof {
                            let he1 = hist_entries(h1);
                            assert(he1.last() == (h.movement, h.steps as int));
                            assert(hist_entries(self.history@) =~= he1.drop_last());
                            assert(unwind_entries(self.rubic@, he1) == unwind_entries(
                                spec_apply_once(self.rubic@, h.movement, -(h.steps as int)),
                                he1.drop_last(),
                            ));
                            assert(entries_ok(hist_entries(self.history@)));
                        }
                    },
                }
            }
        } else {
            st.current_steps = cur;
            self.solving_state = SolvingState::Movement(st);
        }
    }
}

/// The signed progress a tick of `dt` milliseconds adds in direction `d`.
pub open spec fn tick_delta(d: int, dt: int) -> int {
    if d == 1 {
        dt
    } else {
        -dt
    }
}

} // verus!
