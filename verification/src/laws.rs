use vstd::prelude::*;

use crate::rotation::{
    lemma_rot_coord_four, lemma_rot_coord_inverse, lemma_rot_orient_four, lemma_rot_orient_inverse,
    rot_coord, rot_orient, valid_coord, CoordV,
};
use crate::rubik_model::{
    axis_coord, coord_turn, coords_ms, items_wf, lemma_apply_once_wf, lemma_coord_turn_shape,
    lemma_solved_wf, lemma_turn_count, solved_coord, solved_seq, spec_apply_once, spec_axis,
    spec_layer, spec_turn_item, turn_sense, ItemV, Movement,
};
use vstd::multiset::Multiset;

verus! {

/// Layer closure: a turn changes only cubelets whose coordinate on the turn's
/// axis equals the turn's layer; every other cubelet is untouched, and an
/// affected cubelet keeps its identity and original coordinate while its
/// current coordinate and orientation rotate one quarter turn.
pub proof fn lemma_layer_closure(s: Seq<ItemV>, m: Movement, d: int)
    ensures
        spec_apply_once(s, m, d).len() == s.len(),
        forall|i: int|
            0 <= i < s.len() && axis_coord((#[trigger] s[i]).pos, spec_axis(m)) != spec_layer(m)
                ==> spec_apply_once(s, m, d)[i] == s[i],
        forall|i: int|
            0 <= i < s.len() && axis_coord((#[trigger] s[i]).pos, spec_axis(m)) == spec_layer(m)
                ==> spec_apply_once(s, m, d)[i] == (ItemV {
                num: s[i].num,
                orig: s[i].orig,
                pos: rot_coord(spec_axis(m), turn_sense(spec_layer(m), d), s[i].pos),
                rot: rot_orient(spec_axis(m), turn_sense(spec_layer(m), d), s[i].rot),
            }),
{
}

/// Turning one cubelet and then turning it back restores it exactly.
pub proof fn lemma_turn_item_inverse(m: Movement, d: int, it: ItemV)
    requires
        d == 1 || d == -1,
    ensures
        spec_turn_item(m, -d, spec_turn_item(m, d, it)) == it,
{
    let a = spec_axis(m);
    let l = spec_layer(m);
    if axis_coord(it.pos, a) == l {
        lemma_rot_coord_inverse(a, turn_sense(l, d), it.pos);
        lemma_rot_orient_inverse(a, turn_sense(l, d), it.rot);
        assert(axis_coord(rot_coord(a, turn_sense(l, d), it.pos), a) == l);
    }
}

/// Self-inverse: a turn followed by the same turn in the opposite direction
/// restores every cubelet's coordinate and orientation exactly.
pub proof fn lemma_turn_self_inverse(s: Seq<ItemV>, m: Movement, d: int)
    requires
        d == 1 || d == -1,
    ensures
        spec_apply_once(spec_apply_once(s, m, d), m, -d) == s,
{
    let r = spec_apply_once(spec_apply_once(s, m, d), m, -d);
    assert forall|i: int| 0 <= i < s.len() implies r[i] == s[i] by {
        lemma_turn_item_inverse(m, d, s[i]);
    };
    assert(r =~= s);
}

/// Turning one cubelet four times in the same sense restores it exactly.
pub proof fn lemma_turn_item_four(m: Movement, d: int, it: ItemV)
    requires
        d == 1 || d == -1,
    ensures
        spec_turn_item(
            m,
            d,
            spec_turn_item(m, d, spec_turn_item(m, d, spec_turn_item(m, d, it))),
        ) == it,
{
    let a = spec_axis(m);
    let l = spec_layer(m);
    if axis_coord(it.pos, a) == l {
        let sense = turn_sense(l, d);
        lemma_rot_coord_four(a, sense, it.pos);
        lemma_rot_orient_four(a, sense, it.rot);
        assert(axis_coord(rot_coord(a, sense, it.pos), a) == l);
        assert(axis_coord(rot_coord(a, sense, rot_coord(a, sense, it.pos)), a) == l);
        assert(axis_coord(
            rot_coord(a, sense, rot_coord(a, sense, rot_coord(a, sense, it.pos))),
            a,
        ) == l);
    }
}

/// Four-turn identity: applying the same movement and direction four times
/// returns every cubelet to its starting coordinate and orientation.
pub proof fn lemma_four_turn_identity(s: Seq<ItemV>, m: Movement, d: int)
    requires
        d == 1 || d == -1,
    ensures
        spec_apply_once(
            spec_apply_once(spec_apply_once(spec_apply_once(s, m, d), m, d), m, d),
            m,
            d,
        ) == s,
{
    let r = spec_apply_once(
        spec_apply_once(spec_apply_once(spec_apply_once(s, m, d), m, d), m, d),
        m,
        d,
    );
    assert forall|i: int| 0 <= i < s.len() implies r[i] == s[i] by {
        lemma_turn_item_four(m, d, s[i]);
    };
    assert(r =~= s);
}

/// Coordinate conservation: a turn of a well-formed cube permutes the
/// cubelets over the same 26 coordinates, so the multiset of current
/// coordinates is unchanged.
pub proof fn lemma_coordinate_conservation(s: Seq<ItemV>, m: Movement, d: int)
    requires
        items_wf(s),
        d == 1 || d == -1,
    ensures
        coords_ms(spec_apply_once(s, m, d)) == coords_ms(s),
{
    broadcast use vstd::seq_lib::group_to_multiset_ensures;
    broadcast use vstd::multiset::group_multiset_axioms;

    let r = spec_apply_once(s, m, d);
    assert forall|v: CoordV| true implies coords_ms(r).count(v) == coords_ms(s).count(v) by {
        lemma_turn_count(s, m, d, v);
        let w = coord_turn(m, -d, v);
        lemma_coord_turn_shape(m, -d, v);
        if valid_coord(v) {
            assert(coords_ms(s).count(w) == 1);
            assert(coords_ms(s).count(v) == 1);
        } else {
            let ps = s.map_values(|it: ItemV| it.pos);
            if coords_ms(s).count(w) > 0 {
                assert(ps.contains(w));
                let i = choose|i: int| 0 <= i < ps.len() && ps[i] == w;
                assert(valid_coord(s[i].pos));
            }
            if coords_ms(s).count(v) > 0 {
                assert(ps.contains(v));
                let i = choose|i: int| 0 <= i < ps.len() && ps[i] == v;
                assert(valid_coord(s[i].pos));
            }
        }
    };
    assert(coords_ms(r) =~= coords_ms(s));
}

/// A sequence of moves, each a movement with a direction of +1 or -1.
pub open spec fn entries_ok(ms: Seq<(Movement, int)>) -> bool {
    forall|i: int| 0 <= i < ms.len() ==> ((#[trigger] ms[i]).1 == 1 || ms[i].1 == -1)
}

/// The cube state after committing the moves of `ms` in order.
pub open spec fn apply_entries(s: Seq<ItemV>, ms: Seq<(Movement, int)>) -> Seq<ItemV>
    decreases ms.len(),
{
    if ms.len() == 0 {
        s
    } else {
        spec_apply_once(apply_entries(s, ms.drop_last()), ms.last().0, ms.last().1)
    }
}

/// The cube state after replaying the moves of `ms` in reverse order, each
/// with its direction negated: the exact unwinding of a scramble.
pub open spec fn unwind_entries(s: Seq<ItemV>, ms: Seq<(Movement, int)>) -> Seq<ItemV>
    decreases ms.len(),
{
    if ms.len() == 0 {
        s
    } else {
        unwind_entries(spec_apply_once(s, ms.last().0, -ms.last().1), ms.drop_last())
    }
}

/// History correctness: committing any sequence of moves and then replaying
/// it in reverse order with negated directions restores the starting state
/// exactly, coordinates and orientations alike.
pub proof fn lemma_history_reversal(s: Seq<ItemV>, ms: Seq<(Movement, int)>)
    requires
        entries_ok(ms),
    ensures
        unwind_entries(apply_entries(s, ms), ms) == s,
    decreases ms.len(),
{
    if ms.len() > 0 {
        let ms0 = ms.drop_last();
        let e = ms.last();
        assert(entries_ok(ms0));
        lemma_turn_self_inverse(apply_entries(s, ms0), e.0, e.1);
        lemma_history_reversal(s, ms0);
    }
}

/// A coordinate lies on the layer that `m` turns.
pub open spec fn on_layer(m: Movement, c: CoordV) -> bool {
    axis_coord(c, spec_axis(m)) == spec_layer(m)
}

/// How many cubelets of a state lie on the layer that `m` turns.
pub open spec fn layer_count(s: Seq<ItemV>, m: Movement) -> int
    decreases s.len(),
{
    if s.len() == 0 {
        0
    } else {
        layer_count(s.drop_last(), m) + if on_layer(m, s.last().pos) {
            1int
        } else {
            0int
        }
    }
}

/// The on-layer coordinates of a multiset.
pub open spec fn layer_ms(ms: Multiset<CoordV>, m: Movement) -> Multiset<CoordV> {
    ms.filter(|c: CoordV| on_layer(m, c))
}

/// The on-layer count of a state is the size of the on-layer part of its
/// coordinate multiset, so it depends on the coordinates alone.
proof fn lemma_layer_count_ms(s: Seq<ItemV>, m: Movement)
    ensures
        layer_count(s, m) == layer_ms(coords_ms(s), m).len(),
    decreases s.len(),
{
    broadcast use vstd::seq_lib::group_to_multiset_ensures;
    broadcast use vstd::multiset::group_multiset_axioms;

    let ps = s.map_values(|it: ItemV| it.pos);
    if s.len() == 0 {
        assert(ps =~= Seq::<CoordV>::empty());
        assert(ps.to_multiset().len() == 0);
        assert(layer_ms(ps.to_multiset(), m) =~= Multiset::<CoordV>::empty());
    } else {
        let s0 = s.drop_last();
        let e = s.last();
        lemma_layer_count_ms(s0, m);
        let ps0 = s0.map_values(|it: ItemV| it.pos);
        assert(ps =~= ps0.push(e.pos));
        assert(ps0.push(e.pos).to_multiset() =~= ps0.to_multiset().insert(e.pos));
        if on_layer(m, e.pos) {
            assert(layer_ms(ps0.to_multiset().insert(e.pos), m) =~= layer_ms(
                ps0.to_multiset(),
                m,
            ).insert(e.pos));
        } else {
            assert(layer_ms(ps0.to_multiset().insert(e.pos), m) =~= layer_ms(
                ps0.to_multiset(),
                m,
            ));
        }
    }
}

/// In a state whose coordinates are all valid, no invalid coordinate occurs.
proof fn lemma_invalid_count_zero(s: Seq<ItemV>, v: CoordV)
    requires
        forall|i: int| 0 <= i < s.len() ==> valid_coord((#[trigger] s[i]).pos),
        !valid_coord(v),
    ensures
        coords_ms(s).count(v) == 0,
{
    broadcast use vstd::seq_lib::group_to_multiset_ensures;
    broadcast use vstd::multiset::group_multiset_axioms;

    let ps = s.map_values(|it: ItemV| it.pos);
    if coords_ms(s).count(v) > 0 {
        assert(ps.contains(v));
        let i = choose|i: int| 0 <= i < ps.len() && ps[i] == v;
        assert(valid_coord(s[i].pos));
    }
}

/// A well-formed state holds each valid coordinate once and nothing else, so
/// its coordinate multiset is exactly the solved cube's.
proof fn lemma_wf_coords_ms(s: Seq<ItemV>)
    requires
        items_wf(s),
    ensures
        coords_ms(s) == coords_ms(solved_seq()),
{
    broadcast use vstd::multiset::group_multiset_axioms;

    lemma_solved_wf();
    assert forall|v: CoordV| true implies coords_ms(s).count(v) == coords_ms(
        solved_seq(),
    ).count(v) by {
        if !valid_coord(v) {
            lemma_invalid_count_zero(s, v);
            lemma_invalid_count_zero(solved_seq(), v);
        }
    };
    assert(coords_ms(s) =~= coords_ms(solved_seq()));
}

/// How many of the raw lattice indices below `kk` (walking x, then y, then z
/// from -1 to 1, the hidden center included but never on a layer) lie on the
/// layer that `m` turns.
pub open spec fn raw_layer_count(m: Movement, kk: int) -> int {
    let a = spec_axis(m);
    let l = spec_layer(m);
    if a == 0 {
        if l == -1 {
            if kk < 9 {
                kk
            } else {
                9
            }
        } else {
            if kk < 18 {
                0
            } else {
                kk - 18
            }
        }
    } else if a == 1 {
        if l == -1 {
            3 * (kk / 9) + (if kk % 9 < 3 {
                kk % 9
            } else {
                3
            })
        } else {
            3 * (kk / 9) + (if kk % 9 < 6 {
                0
            } else {
                kk % 9 - 6
            })
        }
    } else {
        if l == -1 {
            kk / 3 + (if kk % 3 > 0 {
                1int
            } else {
                0int
            })
        } else {
            kk / 3
        }
    }
}

/// One more raw index adds one to the raw on-layer count exactly when the
/// coordinate at that index lies on the layer.
proof fn lemma_raw_layer_count_step(m: Movement, kk: int)
    requires
        0 <= kk < 27,
    ensures
        raw_layer_count(m, kk + 1) == raw_layer_count(m, kk) + if on_layer(m, solved_coord(kk)) {
            1int
        } else {
            0int
        },
{
}

/// Over a prefix of the solved cube, the on-layer count matches the raw
/// count (the skipped center never lies on a layer).
proof fn lemma_solved_layer_prefix(m: Movement, n: int)
    requires
        0 <= n <= 26,
    ensures
        layer_count(solved_seq().take(n), m) == raw_layer_count(
            m,
            if n <= 13 {
                n
            } else {
                n + 1
            },
        ),
    decreases n,
{
    let ss = solved_seq();
    if n == 0 {
    } else {
        lemma_solved_layer_prefix(m, n - 1);
        let k = if n - 1 < 13 {
            n - 1
        } else {
            n
        };
        assert(ss.take(n).drop_last() =~= ss.take(n - 1));
        assert(ss.take(n).last() == ss[n - 1]);
        lemma_raw_layer_count_step(m, k);
        if n == 14 {
            lemma_raw_layer_count_step(m, 13);
            assert(!on_layer(m, solved_coord(13)));
        }
    }
}

/// Exactly 9 of the 26 cubelets of a well-formed state lie on the layer any
/// given movement turns: a turn affects exactly 9 cubelets.
pub proof fn lemma_nine_affected(s: Seq<ItemV>, m: Movement)
    requires
        items_wf(s),
    ensures
        layer_count(s, m) == 9,
{
    lemma_layer_count_ms(s, m);
    lemma_wf_coords_ms(s);
    lemma_layer_count_ms(solved_seq(), m);
    assert(solved_seq().take(26) =~= solved_seq());
    lemma_solved_layer_prefix(m, 26);
    assert(raw_layer_count(m, 27) == 9);
}

/// Conservation extends to any sequence of turns: well-formedness and the
/// multiset of coordinates are invariants of the whole reachable state space.
pub proof fn lemma_entries_conservation(s: Seq<ItemV>, ms: Seq<(Movement, int)>)
    requires
        items_wf(s),
        entries_ok(ms),
    ensures
        items_wf(apply_entries(s, ms)),
        coords_ms(apply_entries(s, ms)) == coords_ms(s),
    decreases ms.len(),
{
    if ms.len() > 0 {
        let ms0 = ms.drop_last();
        assert(entries_ok(ms0));
        lemma_entries_conservation(s, ms0);
        lemma_apply_once_wf(apply_entries(s, ms0), ms.last().0, ms.last().1);
        lemma_coordinate_conservation(apply_entries(s, ms0), ms.last().0, ms.last().1);
    }
}

} // verus!
