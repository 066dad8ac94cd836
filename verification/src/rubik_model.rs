use vstd::prelude::*;
use vstd::multiset::Multiset;

use crate::rotation::{
    bounded_coord, bounded_orient, ident_orient, orient_wf, rot_coord, rot_orient, rotate_coord,
    rotate_orientation, valid_coord, view3, CoordV, Orientation, OrientV,
};
use crate::rotation::{lemma_rot_coord_inverse, lemma_rot_coord_shape, lemma_rot_orient_wf};

verus! {

/// The six face turns: left, right, bottom, top, back, front.
#[derive(Clone, Copy, PartialEq, Eq, Structural, Debug)]
pub enum Movement {
    Le,
    Ri,
    Bo,
    To,
    Ba,
    Fr,
}

/// Index of a movement, in the fixed order Le, Ri, Bo, To, Ba, Fr.
pub open spec fn move_index(m: Movement) -> int {
    match m {
        Movement::Le => 0,
        Movement::Ri => 1,
        Movement::Bo => 2,
        Movement::To => 3,
        Movement::Ba => 4,
        Movement::Fr => 5,
    }
}

/// The movement a given index denotes; indices past the last wrap to `Fr`.
pub open spec fn spec_from_index(i: int) -> Movement {
    if i == 0 {
        Movement::Le
    } else if i == 1 {
        Movement::Ri
    } else if i == 2 {
        Movement::Bo
    } else if i == 3 {
        Movement::To
    } else if i == 4 {
        Movement::Ba
    } else {
        Movement::Fr
    }
}

/// The cardinal axis a movement turns about: x for Le/Ri, y for Bo/To, z for Ba/Fr.
pub open spec fn spec_axis(m: Movement) -> int {
    match m {
        Movement::Le | Movement::Ri => 0,
        Movement::Bo | Movement::To => 1,
        Movement::Ba | Movement::Fr => 2,
    }
}

/// The layer coordinate of a movement on its axis: -1 for the even-indexed
/// face of each axis, +1 for the odd-indexed one.
pub open spec fn spec_layer(m: Movement) -> int {
    match m {
        Movement::Le => -1,
        Movement::Ri => 1,
        Movement::Bo => -1,
        Movement::To => 1,
        Movement::Ba => -1,
        Movement::Fr => 1,
    }
}

/// The component of a coordinate along a given axis.
pub open spec fn axis_coord(c: CoordV, a: int) -> int {
    if a == 0 {
        c.0
    } else if a == 1 {
        c.1
    } else {
        c.2
    }
}

/// The sense in which a layer turns for a given direction: the two outer
/// layers of one axis turn in opposite senses for the same direction.
pub open spec fn turn_sense(l: int, d: int) -> int {
    if l == 1 {
        d
    } else {
        -d
    }
}

impl Movement {
    pub fn from_index(index: u8) -> (r: Self)
        ensures
            r == spec_from_index(index as int),
    {
        match index {
            0 => Movement::Le,
            1 => Movement::Ri,
            2 => Movement::Bo,
            3 => Movement::To,
            4 => Movement::Ba,
            _ => Movement::Fr,
        }
    }

    pub fn to_index(&self) -> (r: u8)
        ensures
            r as int == move_index(*self),
            r < 6,
    {
        match self {
            Movement::Le => 0,
            Movement::Ri => 1,
            Movement::Bo => 2,
            Movement::To => 3,
            Movement::Ba => 4,
            Movement::Fr => 5,
        }
    }

    pub fn axis_index(&self) -> (r: u8)
        ensures
            r as int == spec_axis(*self),
            r < 3,
    {
        self.to_index() / 2
    }
}

/// Spec-level record of one cubelet.
pub struct ItemV {
    pub num: int,
    pub orig: CoordV,
    pub pos: CoordV,
    pub rot: OrientV,
}

/// One cubelet: its identity, the coordinate it was created at (which fixes
/// its sticker colors), its current coordinate, and its orientation.
#[derive(Clone, Copy, PartialEq, Debug)]
pub struct RubicItem {
    pub num: u8,
    pub original_position: [i8; 3],
    pub position: [i8; 3],
    pub rotation: Orientation,
}

impl View for RubicItem {
    type V = ItemV;

    open spec fn view(&self) -> ItemV {
        ItemV {
            num: self.num as int,
            orig: view3(self.original_position),
            pos: view3(self.position),
            rot: self.rotation@,
        }
    }
}

/// View of a sequence of cubelets.
pub open spec fn seq_view(s: Seq<RubicItem>) -> Seq<ItemV> {
    s.map_values(|it: RubicItem| it@)
}

/// The sign of the extra display rotation a cubelet receives while `m` is in
/// flight: the layer sign when the cubelet lies on the turned layer, else 0.
pub open spec fn spec_rotation_sign(m: Movement, c: CoordV) -> int {
    if axis_coord(c, spec_axis(m)) == spec_layer(m) {
        spec_layer(m)
    } else {
        0
    }
}

impl RubicItem {
    /// Which of the six faces of this cubelet carry a sticker color, in the
    /// order left, right, bottom, top, back, front: exactly the faces on the
    /// outside of the cube at the cubelet's original coordinate.
    pub fn colored_faces(&self) -> (r: [bool; 6])
        ensures
            r[0] == (self@.orig.0 == -1),
            r[1] == (self@.orig.0 == 1),
            r[2] == (self@.orig.1 == -1),
            r[3] == (self@.orig.1 == 1),
            r[4] == (self@.orig.2 == -1),
            r[5] == (self@.orig.2 == 1),
    {
        [
            self.original_position[0] == -1,
            self.original_position[0] == 1,
            self.original_position[1] == -1,
            self.original_position[1] == 1,
            self.original_position[2] == -1,
            self.original_position[2] == 1,
        ]
    }

    /// Whether this cubelet lies on the layer `movement` turns, and in which
    /// sense it visibly rotates: the layer sign, or 0 when it is off-layer.
    pub fn rotation_sign(&self, movement: Movement) -> (r: i8)
        ensures
            r as int == spec_rotation_sign(movement, self@.pos),
    {
        let position = self.position[movement.axis_index() as usize];
        let sign: i8 = if movement.to_index() % 2 == 0 {
            -1
        } else {
            1
        };
        if position == sign {
            return sign;
        }
        return 0;
    }
}

/// What one turn does to one cubelet: a cubelet on the turned layer has its
/// coordinate and orientation rotated a quarter turn about the axis, in the
/// sense given by the direction and the layer sign; any other cubelet is
/// untouched.
pub open spec fn spec_turn_item(m: Movement, d: int, it: ItemV) -> ItemV {
    let a = spec_axis(m);
    let l = spec_layer(m);
    if axis_coord(it.pos, a) == l {
        ItemV {
            num: it.num,
            orig: it.orig,
            pos: rot_coord(a, turn_sense(l, d), it.pos),
            rot: rot_orient(a, turn_sense(l, d), it.rot),
        }
    } else {
        it
    }
}

/// What one turn does to one coordinate (the coordinate part of
/// `spec_turn_item`).
pub open spec fn coord_turn(m: Movement, d: int, c: CoordV) -> CoordV {
    let a = spec_axis(m);
    let l = spec_layer(m);
    if axis_coord(c, a) == l {
        rot_coord(a, turn_sense(l, d), c)
    } else {
        c
    }
}

/// One quarter turn of the whole cube state.
pub open spec fn spec_apply_once(s: Seq<ItemV>, m: Movement, d: int) -> Seq<ItemV> {
    s.map_values(|it: ItemV| spec_turn_item(m, d, it))
}

pub open spec fn abs_int(i: int) -> int {
    if i >= 0 {
        i
    } else {
        -i
    }
}

/// `steps` quarter turns of the same movement, in the direction of the sign
/// of `steps`.
pub open spec fn spec_apply_steps(s: Seq<ItemV>, m: Movement, steps: int) -> Seq<ItemV>
    decreases abs_int(steps),
{
    if steps == 0 {
        s
    } else if steps > 0 {
        spec_apply_steps(spec_apply_once(s, m, 1), m, steps - 1)
    } else {
        spec_apply_steps(spec_apply_once(s, m, -1), m, steps + 1)
    }
}

/// The coordinate the solved cube holds at raw lattice index `k`, walking x,
/// then y, then z from -1 to 1.
pub open spec fn solved_coord(k: int) -> CoordV {
    let x = if k < 9 {
        -1int
    } else if k < 18 {
        0int
    } else {
        1int
    };
    let r = k - (if k < 9 {
        0int
    } else if k < 18 {
        9int
    } else {
        18int
    });
    let y = if r < 3 {
        -1int
    } else if r < 6 {
        0int
    } else {
        1int
    };
    let r2 = r - (if r < 3 {
        0int
    } else if r < 6 {
        3int
    } else {
        6int
    });
    (x, y, r2 - 1)
}

/// The raw lattice index of a coordinate: the inverse of `solved_coord`.
pub open spec fn coord_index(c: CoordV) -> int {
    (c.0 + 1) * 9 + (c.1 + 1) * 3 + (c.2 + 1)
}

/// The slot a valid coordinate occupies among the 26 cubelets (the hidden
/// center, raw index 13, is skipped).
pub open spec fn coord_slot(c: CoordV) -> int {
    if coord_index(c) < 13 {
        coord_index(c)
    } else {
        coord_index(c) - 1
    }
}

/// The cubelet in slot `i` of the solved cube.
pub open spec fn solved_item(i: int) -> ItemV {
    let k = if i < 13 {
        i
    } else {
        i + 1
    };
    ItemV { num: i, orig: solved_coord(k), pos: solved_coord(k), rot: ident_orient() }
}

/// The solved cube: 26 cubelets in creation order, each at its original
/// coordinate with the identity orientation.
pub open spec fn solved_seq() -> Seq<ItemV> {
    Seq::new(26, |i: int| solved_item(i))
}

/// The multiset of current coordinates of a cube state.
pub open spec fn coords_ms(s: Seq<ItemV>) -> Multiset<CoordV> {
    s.map_values(|it: ItemV| it.pos).to_multiset()
}

/// Well-formedness of a cube state: 26 cubelets numbered in order, original
/// coordinates as created, every current coordinate valid and each of the 26
/// valid coordinates occupied exactly once, and every orientation one of the
/// 24 rotations of the cube.
pub open spec fn items_wf(s: Seq<ItemV>) -> bool {
    &&& s.len() == 26
    &&& forall|i: int| 0 <= i < 26 ==> (#[trigger] s[i]).num == i
    &&& forall|i: int| 0 <= i < 26 ==> (#[trigger] s[i]).orig == solved_item(i).orig
    &&& forall|i: int| 0 <= i < 26 ==> valid_coord((#[trigger] s[i]).pos)
    &&& forall|i: int| 0 <= i < 26 ==> orient_wf((#[trigger] s[i]).rot)
    &&& forall|v: CoordV| valid_coord(v) ==> #[trigger] coords_ms(s).count(v) == 1
}

/// Entries of every cubelet's coordinate and orientation lie in {-1, 0, 1},
/// which is all the executable turn needs to avoid overflow.
pub open spec fn bounded_items(s: Seq<ItemV>) -> bool {
    forall|i: int|
        0 <= i < s.len() ==> bounded_coord((#[trigger] s[i]).pos) && bounded_orient(s[i].rot)
}

pub proof fn lemma_wf_bounded(s: Seq<ItemV>)
    requires
        items_wf(s),
    ensures
        bounded_items(s),
{
}

/// Turning a layer and then turning it back restores any coordinate.
pub proof fn lemma_coord_turn_inverse(m: Movement, d: int, c: CoordV)
    requires
        d == 1 || d == -1,
    ensures
        coord_turn(m, -d, coord_turn(m, d, c)) == c,
{
    let a = spec_axis(m);
    let l = spec_layer(m);
    if axis_coord(c, a) == l {
        let s = turn_sense(l, d);
        lemma_rot_coord_inverse(a, s, c);
        assert(axis_coord(rot_coord(a, s, c), a) == axis_coord(c, a));
    }
}

/// A turn keeps coordinates bounded and maps valid coordinates to valid
/// coordinates, in both directions.
pub proof fn lemma_coord_turn_shape(m: Movement, d: int, c: CoordV)
    requires
        d == 1 || d == -1,
    ensures
        bounded_coord(c) ==> bounded_coord(coord_turn(m, d, c)),
        valid_coord(c) <==> valid_coord(coord_turn(m, d, c)),
{
    let a = spec_axis(m);
    let l = spec_layer(m);
    let t = coord_turn(m, d, c);
    if axis_coord(c, a) == l {
        lemma_rot_coord_shape(a, turn_sense(l, d), c);
        if valid_coord(t) {
            lemma_coord_turn_inverse(m, d, c);
            lemma_rot_coord_shape(a, turn_sense(l, -d), t);
            assert(axis_coord(t, a) == axis_coord(c, a));
        }
    }
}

/// How one turn permutes the multiset of coordinates: the number of cubelets
/// that end up at `v` is the number that started at the coordinate from which
/// the turn reaches `v`.
pub proof fn lemma_turn_count(s: Seq<ItemV>, m: Movement, d: int, v: CoordV)
    requires
        d == 1 || d == -1,
    ensures
        coords_ms(spec_apply_once(s, m, d)).count(v) == coords_ms(s).count(coord_turn(m, -d, v)),
    decreases s.len(),
{
    broadcast use vstd::seq_lib::group_to_multiset_ensures;
    broadcast use vstd::multiset::group_multiset_axioms;

    let w = coord_turn(m, -d, v);
    let ps = s.map_values(|it: ItemV| it.pos);
    let qs = spec_apply_once(s, m, d).map_values(|it: ItemV| it.pos);
    if s.len() == 0 {
        assert(ps =~= Seq::<CoordV>::empty());
        assert(qs =~= Seq::<CoordV>::empty());
        assert(ps.to_multiset().len() == 0);
        assert(qs.to_multiset().len() == 0);
    } else {
        let s0 = s.drop_last();
        let e = s.last();
        lemma_turn_count(s0, m, d, v);
        let t = coord_turn(m, d, e.pos);
        let ps0 = s0.map_values(|it: ItemV| it.pos);
        let qs0 = spec_apply_once(s0, m, d).map_values(|it: ItemV| it.pos);
        assert(ps =~= ps0.push(e.pos));
        assert(qs =~= qs0.push(t));
        assert(ps0.push(e.pos).to_multiset() =~= ps0.to_multiset().insert(e.pos));
        assert(qs0.push(t).to_multiset() =~= qs0.to_multiset().insert(t));
        lemma_coord_turn_inverse(m, d, e.pos);
        lemma_coord_turn_inverse(m, -d, v);
        vstd::multiset::lemma_insert_increases_count_by_1::<CoordV>(ps0.to_multiset(), e.pos);
        vstd::multiset::lemma_insert_increases_count_by_1::<CoordV>(qs0.to_multiset(), t);
        if t == v {
            assert(e.pos == w);
        } else {
            assert(e.pos != w);
            vstd::multiset::lemma_insert_other_elements_unchanged::<CoordV>(
                ps0.to_multiset(),
                e.pos,
                w,
            );
            vstd::multiset::lemma_insert_other_elements_unchanged::<CoordV>(
                qs0.to_multiset(),
                t,
                v,
            );
        }
    }
}

/// One turn preserves well-formedness of the cube state.
pub proof fn lemma_apply_once_wf(s: Seq<ItemV>, m: Movement, d: int)
    requires
        items_wf(s),
        d == 1 || d == -1,
    ensures
        items_wf(spec_apply_once(s, m, d)),
{
    let r = spec_apply_once(s, m, d);
    let a = spec_axis(m);
    let l = spec_layer(m);
    assert forall|i: int| 0 <= i < 26 implies (r[i].num == i && r[i].orig == solved_item(i).orig
        && valid_coord(r[i].pos) && orient_wf(r[i].rot)) by {
        if axis_coord(s[i].pos, a) == l {
            lemma_coord_turn_shape(m, d, s[i].pos);
            lemma_rot_orient_wf(a, turn_sense(l, d), s[i].rot);
        }
    };
    assert forall|v: CoordV| valid_coord(v) implies coords_ms(r).count(v) == 1 by {
        lemma_turn_count(s, m, d, v);
        lemma_coord_turn_shape(m, -d, v);
        assert(coords_ms(s).count(coord_turn(m, -d, v)) == 1);
    };
}

/// Each raw lattice index decodes to the coordinate that encodes back to it.
proof fn lemma_coord_index_roundtrip(k: int, v: CoordV)
    ensures
        0 <= k < 27 ==> coord_index(solved_coord(k)) == k,
        bounded_coord(v) ==> solved_coord(coord_index(v)) == v,
        bounded_coord(v) ==> 0 <= coord_index(v) < 27,
        valid_coord(v) ==> coord_index(v) != 13,
{
}

/// Coordinate count over a prefix of the solved cube: a valid coordinate in a
/// slot already built is present exactly once, everything else not at all.
proof fn lemma_solved_prefix_count(n: int, v: CoordV)
    requires
        0 <= n <= 26,
    ensures
        coords_ms(solved_seq().take(n)).count(v) == if valid_coord(v) && coord_slot(v) < n {
            1nat
        } else {
            0nat
        },
    decreases n,
{
    broadcast use vstd::seq_lib::group_to_multiset_ensures;
    broadcast use vstd::multiset::group_multiset_axioms;

    let ss = solved_seq();
    let ps = ss.take(n).map_values(|it: ItemV| it.pos);
    if n == 0 {
        assert(ps =~= Seq::<CoordV>::empty());
        assert(ps.to_multiset().len() == 0);
    } else {
        lemma_solved_prefix_count(n - 1, v);
        let e = solved_item(n - 1);
        let k = if n - 1 < 13 {
            n - 1
        } else {
            n
        };
        let ps0 = ss.take(n - 1).map_values(|it: ItemV| it.pos);
        assert(ps =~= ps0.push(e.pos));
        assert(ps0.push(e.pos).to_multiset() =~= ps0.to_multiset().insert(e.pos));
        vstd::multiset::lemma_insert_increases_count_by_1::<CoordV>(ps0.to_multiset(), e.pos);
        lemma_coord_index_roundtrip(k, e.pos);
        lemma_coord_index_roundtrip(k, v);
        assert(valid_coord(e.pos));
        assert(coord_slot(e.pos) == n - 1);
        if e.pos != v {
            vstd::multiset::lemma_insert_other_elements_unchanged::<CoordV>(
                ps0.to_multiset(),
                e.pos,
                v,
            );
            if valid_coord(v) {
                assert(coord_slot(v) == n - 1 ==> v == e.pos);
            }
        }
    }
}

/// The solved cube is well formed.
pub proof fn lemma_solved_wf()
    ensures
        items_wf(solved_seq()),
{
    let ss = solved_seq();
    assert forall|i: int| 0 <= i < 26 implies (ss[i].num == i && ss[i].orig == solved_item(i).orig
        && valid_coord(ss[i].pos) && orient_wf(ss[i].rot)) by {
        let k = if i < 13 {
            i
        } else {
            i + 1
        };
        lemma_coord_index_roundtrip(k, ss[i].pos);
        assert(orient_wf(ident_orient()));
    };
    assert forall|v: CoordV| valid_coord(v) implies coords_ms(ss).count(v) == 1 by {
        lemma_solved_prefix_count(26, v);
        lemma_coord_index_roundtrip(0, v);
        assert(coord_slot(v) < 26);
        assert(ss.take(26) =~= ss);
    };
}

/// The cube: 26 cubelets, created solved and mutated in place by whole
/// quarter turns only.
#[derive(Debug)]
pub struct Rubic {
    items: Vec<RubicItem>,
}

impl View for Rubic {
    type V = Seq<ItemV>;

    closed spec fn view(&self) -> Seq<ItemV> {
        seq_view(self.items@)
    }
}

/// Turn one cubelet, leaving it untouched when it is off the turned layer.
fn turn_item(item: &RubicItem, movement: Movement, d: i8) -> (r: RubicItem)
    requires
        d == 1 || d == -1,
        bounded_coord(item@.pos),
        bounded_orient(item@.rot),
    ensures
        r@ == spec_turn_item(movement, d as int, item@),
{
    let axis = movement.axis_index();
    let layer: i8 = if movement.to_index() % 2 == 0 {
        -1
    } else {
        1
    };
    let pa = item.position[axis as usize];
    if pa == layer {
        let s: i8 = if layer == 1 {
            d
        } else {
            -d
        };
        let new_pos = rotate_coord(item.position, axis, s);
        let new_rot = rotate_orientation(&item.rotation, axis, s);
        RubicItem {
            num: item.num,
            original_position: item.original_position,
            position: new_pos,
            rotation: new_rot,
        }
    } else {
        *item
    }
}

/// Turn every cubelet of one layer, producing the new cube state.
fn turned_items(items: &Vec<RubicItem>, movement: Movement, d: i8) -> (r: Vec<RubicItem>)
    requires
        d == 1 || d == -1,
        bounded_items(seq_view(items@)),
    ensures
        seq_view(r@) == spec_apply_once(seq_view(items@), movement, d as int),
{
    let mut out: Vec<RubicItem> = Vec::new();
    let n = items.len();
    let mut i: usize = 0;
    while i < n
        invariant
            i <= n,
            n == items@.len(),
            out@.len() == i,
            d == 1 || d == -1,
            bounded_items(seq_view(items@)),
            forall|j: int|
                0 <= j < i ==> (#[trigger] out@[j])@ == spec_turn_item(
                    movement,
                    d as int,
                    items@[j]@,
                ),
        decreases n - i,
    {
        let itc = items[i];
        proof {
            assert(seq_view(items@)[i as int] == itc@);
        }
        out.push(turn_item(&itc, movement, d));
        i += 1;
    }
    proof {
        assert(seq_view(out@) =~= spec_apply_once(seq_view(items@), movement, d as int));
    }
    out
}

impl Rubic {
    /// The state is well formed.
    pub open spec fn wf(&self) -> bool {
        items_wf(self@)
    }

    /// Create the cube in the solved configuration: 26 cubelets in creation
    /// order, each at its original coordinate with the identity orientation.
    pub fn new() -> (r: Rubic)
        ensures
            r@ == solved_seq(),
            r.wf(),
    {
        let mut items: Vec<RubicItem> = Vec::new();
        let mut k: u8 = 0;
        while k < 27
        invariant
            k <= 27,
            items@.len() == if k <= 13 {
                k as int
            } else {
                k as int - 1
            },
            seq_view(items@) =~= solved_seq().take(items@.len() as int),
        decreases 27 - k,
        {
            if k != 13 {
                let x: i8 = if k < 9 {
                    -1
                } else if k < 18 {
                    0
                } else {
                    1
                };
                let r: u8 = if k < 9 {
                    k
                } else if k < 18 {
                    k - 9
                } else {
                    k - 18
                };
                let y: i8 = if r < 3 {
                    -1
                } else if r < 6 {
                    0
                } else {
                    1
                };
                let r2: u8 = if r < 3 {
                    r
                } else if r < 6 {
                    r - 3
                } else {
                    r - 6
                };
                let z: i8 = (r2 as i8) - 1;
                let item = RubicItem {
                    num: items.len() as u8,
                    original_position: [x, y, z],
                    position: [x, y, z],
                    rotation: Orientation::identity(),
                };
                proof {
                    assert(item@ == solved_item(items@.len() as int));
                }
                items.push(item);
            }
            k = k + 1;
        }
        let rubic = Rubic { items };
        proof {
            assert(rubic@ =~= solved_seq());
            lemma_solved_wf();
        }
        rubic
    }

    /// The cubelets, in creation order.
    pub fn items(&self) -> (r: &[RubicItem])
        ensures
            seq_view(r@) == self@,
    {
        self.items.as_slice()
    }

    /// Apply `steps` quarter turns of `movement`, in the direction of the
    /// sign of `steps`; zero steps leave the cube untouched.
    pub fn make_movement(&mut self, movement: Movement, steps: i8)
        requires
            old(self).wf(),
        ensures
            final(self)@ == spec_apply_steps(old(self)@, movement, steps as int),
            final(self).wf(),
    {
        if steps == 0 {
            return ;
        }
        let sign: i8 = if steps > 0 {
            1
        } else {
            -1
        };
        let mut remaining: i8 = steps;
        while remaining != 0
            invariant
                self.wf(),
                sign == 1 || sign == -1,
                remaining > 0 ==> sign == 1,
                remaining < 0 ==> sign == -1,
                spec_apply_steps(self@, movement, remaining as int) == spec_apply_steps(
                    old(self)@,
                    movement,
                    steps as int,
                ),
            decreases abs_int(remaining as int),
        {
            proof {
                lemma_wf_bounded(self@);
            }
            let new_items = turned_items(&self.items, movement, sign);
            proof {
                lemma_apply_once_wf(self@, movement, sign as int);
            }
            self.items = new_items;
            remaining = remaining - sign;
        }
    }
}

} // verus!
