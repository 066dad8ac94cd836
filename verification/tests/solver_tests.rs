use rubik::random_source::RandomSource;
use rubik::rotation::Orientation;
use rubik::rubik_model::Movement;
use rubik::solver::RubicSolution;

fn script(values: Vec<u32>) -> RandomSource {
    RandomSource::Script { values, next: 0 }
}

fn assert_solved(s: &RubicSolution) {
    for it in s.rubic().items() {
        assert_eq!(it.position, it.original_position);
        assert_eq!(it.rotation, Orientation::identity());
    }
}

#[test]
fn script_source_replays_its_values() {
    let mut rng = script(vec![7, 42]);
    assert_eq!(rng.next_u32(), 7);
    assert_eq!(rng.next_u32(), 42);
    // an exhausted script keeps answering zero
    assert_eq!(rng.next_u32(), 0);
    assert_eq!(rng.next_u32(), 0);
}

#[test]
fn next_turn_never_returns_the_cancel() {
    // For every raw draw, the excluded pair (the exact direction-negated
    // cancel of the previous turn) is never produced.
    for prev_i in 0..6u8 {
        for prev_d in [-1i8, 1] {
            let prev = Movement::from_index(prev_i);
            for raw in 0..33u32 {
                let mut rng = script(vec![raw]);
                let (m, d) = rng.next_turn(Some((prev, prev_d)));
                assert!(d == 1 || d == -1);
                assert!(!(m == prev && d == -prev_d));
            }
        }
    }
}

#[test]
fn next_turn_reaches_all_other_pairs() {
    let mut seen = std::collections::BTreeSet::new();
    for raw in 0..11u32 {
        let mut rng = script(vec![raw]);
        let (m, d) = rng.next_turn(Some((Movement::Le, 1)));
        seen.insert((m.to_index(), d));
    }
    assert_eq!(seen.len(), 11);
    assert!(!seen.contains(&(0, -1)));
}

#[test]
fn solver_rests_solved_through_the_dwell() {
    let mut s = RubicSolution::new();
    let mut rng = script(vec![]);
    assert!(s.active_turn().is_none());
    s.tick(0, 0, &mut rng);
    s.tick(1500, 16, &mut rng);
    s.tick(2999, 16, &mut rng);
    assert!(s.active_turn().is_none());
    assert_eq!(s.history_len(), 0);
    assert_solved(&s);
}

#[test]
fn dwell_expiry_starts_a_scramble() {
    let mut s = RubicSolution::new();
    // pair draw 0 -> (Le, +1); length draw 2 -> 4 + 2 % 12 = 6 turns
    let mut rng = script(vec![0, 2]);
    s.tick(3000, 0, &mut rng);
    assert_eq!(s.active_turn(), Some((Movement::Le, 1)));
    assert_eq!(s.shuffling(), 6);
    assert_eq!(s.progress_millis(), 0);
    // half a quarter turn later nothing is committed yet
    s.tick(3500, 500, &mut rng);
    assert_eq!(s.progress_millis(), 500);
    assert_eq!(s.history_len(), 0);
    assert_solved(&s);
}

#[test]
fn five_turn_scramble_reverses_itself_exactly() {
    // Scenario: a scramble of exactly 5 turns, then its exact reversal.
    let mut s = RubicSolution::new();
    let mut rng = script(vec![
        0, // first pair: index 0 -> (Le, +1)
        1, // scramble length: 4 + 1 % 12 = 5
        1, // next draw 1, cancel (Le, -1) has pair index 1, so pair 2 -> (Ri, +1)
        3, // cancel (Ri, -1) is index 3, so pair 4 -> (Bo, +1)
        5, // cancel (Bo, -1) is index 5, so pair 6 -> (To, +1)
        7, // cancel (To, -1) is index 7, so pair 8 -> (Ba, +1)
    ]);
    s.tick(3000, 0, &mut rng);
    assert_eq!(s.active_turn(), Some((Movement::Le, 1)));
    assert_eq!(s.shuffling(), 5);

    let scramble = [Movement::Le, Movement::Ri, Movement::Bo, Movement::To, Movement::Ba];
    let mut t = 3000u64;
    // four commits, each recording one history entry and drawing the next turn
    for k in 0..4 {
        t += 1000;
        s.tick(t, 1000, &mut rng);
        assert_eq!(s.history_len(), k + 1);
        assert_eq!(s.shuffling(), 4 - k as u32);
        assert_eq!(s.active_turn(), Some((scramble[k + 1], 1)));
    }
    // fifth commit completes the scramble; the last entry is popped in the
    // same tick and replayed with negated direction
    t += 1000;
    s.tick(t, 1000, &mut rng);
    assert_eq!(s.shuffling(), 0);
    assert_eq!(s.history_len(), 4);
    assert_eq!(s.active_turn(), Some((Movement::Ba, -1)));

    // four reversal commits walk the history backwards
    let reversal = [Movement::To, Movement::Bo, Movement::Ri, Movement::Le];
    for k in 0..4 {
        t += 1000;
        s.tick(t, 1000, &mut rng);
        assert_eq!(s.history_len(), 3 - k);
        assert_eq!(s.active_turn(), Some((reversal[k], -1)));
    }
    // the last reversal commit empties the history and rests, exactly solved
    t += 1000;
    s.tick(t, 1000, &mut rng);
    assert!(s.active_turn().is_none());
    assert_eq!(s.history_len(), 0);
    assert_eq!(s.shuffling(), 0);
    assert_solved(&s);

    // and the new dwell holds the solved state
    s.tick(t + 100, 100, &mut rng);
    assert!(s.active_turn().is_none());
    assert_solved(&s);
}

#[test]
fn oversized_tick_commits_at_once() {
    let mut s = RubicSolution::new();
    let mut rng = script(vec![4, 0, 6]); // pair 4 -> (Bo, +1), length 4 + 0, then a next pair
    s.tick(3000, 0, &mut rng);
    assert_eq!(s.active_turn(), Some((Movement::Bo, 1)));
    // a huge delta still commits exactly one quarter turn
    s.tick(9000, 6000, &mut rng);
    assert_eq!(s.history_len(), 1);
    assert_eq!(s.shuffling(), 3);
    assert_eq!(s.progress_millis(), 0);
}

#[test]
fn system_source_smoke() {
    // Runs the real process-wide generator through the library.
    let m = Movement::random_movement();
    assert!(m.to_index() < 6);
    let mut rng = RandomSource::System;
    let (m2, d2) = rng.next_turn(Some((m, 1)));
    assert!(d2 == 1 || d2 == -1);
    assert!(!(m2 == m && d2 == -1));
    let mut s = RubicSolution::new();
    let mut t = 0u64;
    for _ in 0..200 {
        t += 250;
        s.tick(t, 250, &mut rng);
    }
    // whatever was drawn, the invariant keeps every coordinate valid
    for it in s.rubic().items() {
        assert!(it.position.iter().all(|&c| (-1..=1).contains(&c)));
        assert_ne!(it.position, [0, 0, 0]);
    }
}
