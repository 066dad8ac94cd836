use rubik::rotation::Orientation;
use rubik::rubik_model::{Movement, Rubic};

fn positions(r: &Rubic) -> Vec<[i8; 3]> {
    r.items().iter().map(|it| it.position).collect()
}

fn snapshot(r: &Rubic) -> Vec<([i8; 3], Orientation)> {
    r.items().iter().map(|it| (it.position, it.rotation)).collect()
}

#[test]
fn movement_indices_round_trip() {
    assert_eq!(Movement::Le.to_index(), 0);
    assert_eq!(Movement::Ri.to_index(), 1);
    assert_eq!(Movement::Bo.to_index(), 2);
    assert_eq!(Movement::To.to_index(), 3);
    assert_eq!(Movement::Ba.to_index(), 4);
    assert_eq!(Movement::Fr.to_index(), 5);
    for i in 0..6u8 {
        assert_eq!(Movement::from_index(i).to_index(), i);
    }
    // indices past the last wrap to Fr
    assert_eq!(Movement::from_index(17).to_index(), 5);
}

#[test]
fn movement_axes() {
    assert_eq!(Movement::Le.axis_index(), 0);
    assert_eq!(Movement::Ri.axis_index(), 0);
    assert_eq!(Movement::Bo.axis_index(), 1);
    assert_eq!(Movement::To.axis_index(), 1);
    assert_eq!(Movement::Ba.axis_index(), 2);
    assert_eq!(Movement::Fr.axis_index(), 2);
}

#[test]
fn new_cube_is_solved() {
    let r = Rubic::new();
    let items = r.items();
    assert_eq!(items.len(), 26);
    for (i, it) in items.iter().enumerate() {
        assert_eq!(it.num as usize, i);
        assert_eq!(it.position, it.original_position);
        assert_eq!(it.rotation, Orientation::identity());
        assert!(it.position.iter().all(|&c| (-1..=1).contains(&c)));
        assert_ne!(it.position, [0, 0, 0]);
    }
    // all 26 coordinates distinct
    let mut ps = positions(&r);
    ps.sort();
    ps.dedup();
    assert_eq!(ps.len(), 26);
}

#[test]
fn right_turn_moves_exactly_its_layer() {
    // Scenario: one Right-layer quarter turn, direction +1.
    let mut r = Rubic::new();
    let before = snapshot(&r);
    r.make_movement(Movement::Ri, 1);
    let after = r.items();
    let mut moved = 0;
    for (i, it) in after.iter().enumerate() {
        let ([x, y, z], rot0) = before[i];
        if x == 1 {
            // on-layer: x kept, (y, z) -> (-z, y), orientation rotated
            assert_eq!(it.position, [1, -z, y]);
            assert_ne!(it.rotation, rot0);
            moved += 1;
        } else {
            // off-layer: untouched, bit for bit
            assert_eq!(it.position, [x, y, z]);
            assert_eq!(it.rotation, rot0);
        }
        assert_eq!(it.num as usize, i);
    }
    assert_eq!(moved, 9);
}

#[test]
fn top_turn_and_back_is_identity() {
    // Scenario: Top +1 then Top -1 restores the state exactly.
    let mut r = Rubic::new();
    r.make_movement(Movement::Fr, 1);
    r.make_movement(Movement::Le, -1);
    let before = snapshot(&r);
    r.make_movement(Movement::To, 1);
    assert_ne!(snapshot(&r), before);
    r.make_movement(Movement::To, -1);
    assert_eq!(snapshot(&r), before);
}

#[test]
fn every_turn_is_self_inverse() {
    for i in 0..6u8 {
        for d in [-1i8, 1] {
            let mut r = Rubic::new();
            let m = Movement::from_index(i);
            // also from a scrambled state
            r.make_movement(Movement::Ri, 1);
            r.make_movement(Movement::Bo, -1);
            let before = snapshot(&r);
            r.make_movement(m, d);
            r.make_movement(m, -d);
            assert_eq!(snapshot(&r), before);
        }
    }
}

#[test]
fn four_turns_are_identity() {
    for i in 0..6u8 {
        for d in [-1i8, 1] {
            let mut r = Rubic::new();
            let m = Movement::from_index(i);
            let before = snapshot(&r);
            for _ in 0..4 {
                r.make_movement(m, d);
            }
            assert_eq!(snapshot(&r), before);
        }
    }
}

#[test]
fn coordinates_are_conserved() {
    let mut r = Rubic::new();
    let mut expected = positions(&r);
    expected.sort();
    for (m, d) in [
        (Movement::Ri, 1i8),
        (Movement::To, -1),
        (Movement::Fr, 1),
        (Movement::Le, 1),
        (Movement::Bo, -1),
        (Movement::Ba, -1),
        (Movement::Ri, -1),
    ] {
        r.make_movement(m, d);
        let mut got = positions(&r);
        got.sort();
        assert_eq!(got, expected);
    }
}

#[test]
fn zero_steps_do_nothing() {
    let mut r = Rubic::new();
    r.make_movement(Movement::Fr, 1);
    let before = snapshot(&r);
    r.make_movement(Movement::Ri, 0);
    assert_eq!(snapshot(&r), before);
}

#[test]
fn two_steps_equal_two_single_turns() {
    let mut a = Rubic::new();
    let mut b = Rubic::new();
    a.make_movement(Movement::Bo, 2);
    b.make_movement(Movement::Bo, 1);
    b.make_movement(Movement::Bo, 1);
    assert_eq!(snapshot(&a), snapshot(&b));
    let mut c = Rubic::new();
    let mut e = Rubic::new();
    c.make_movement(Movement::Fr, -2);
    e.make_movement(Movement::Fr, -1);
    e.make_movement(Movement::Fr, -1);
    assert_eq!(snapshot(&c), snapshot(&e));
}

#[test]
fn colored_faces_match_original_coordinate() {
    let r = Rubic::new();
    for it in r.items() {
        let cf = it.colored_faces();
        let [x, y, z] = it.original_position;
        assert_eq!(cf, [x == -1, x == 1, y == -1, y == 1, z == -1, z == 1]);
    }
    // the first created cubelet sits at (-1, -1, -1)
    let first = &r.items()[0];
    assert_eq!(first.original_position, [-1, -1, -1]);
    assert_eq!(first.colored_faces(), [true, false, true, false, true, false]);
}

#[test]
fn rotation_sign_marks_the_turned_layer() {
    let r = Rubic::new();
    for it in r.items() {
        let [x, y, z] = it.position;
        assert_eq!(it.rotation_sign(Movement::Ri), if x == 1 { 1 } else { 0 });
        assert_eq!(it.rotation_sign(Movement::Le), if x == -1 { -1 } else { 0 });
        assert_eq!(it.rotation_sign(Movement::To), if y == 1 { 1 } else { 0 });
        assert_eq!(it.rotation_sign(Movement::Bo), if y == -1 { -1 } else { 0 });
        assert_eq!(it.rotation_sign(Movement::Fr), if z == 1 { 1 } else { 0 });
        assert_eq!(it.rotation_sign(Movement::Ba), if z == -1 { -1 } else { 0 });
    }
}
