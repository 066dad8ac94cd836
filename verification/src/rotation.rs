use vstd::prelude::*;

verus! {

/// A cubelet coordinate as mathematical integers: the spec-level view of `[i8; 3]`.
pub type CoordV = (int, int, int);

/// An orientation as the images of the three basis vectors (the columns of a
/// rotation matrix), each a coordinate triple.
pub type OrientV = (CoordV, CoordV, CoordV);

/// Spec view of an executable coordinate triple.
pub open spec fn view3(p: [i8; 3]) -> CoordV {
    (p[0] as int, p[1] as int, p[2] as int)
}

/// Every component lies in {-1, 0, 1}.
pub open spec fn bounded_coord(c: CoordV) -> bool {
    &&& -1 <= c.0 <= 1
    &&& -1 <= c.1 <= 1
    &&& -1 <= c.2 <= 1
}

/// A coordinate a cubelet can occupy: bounded, and not the hidden center.
pub open spec fn valid_coord(c: CoordV) -> bool {
    bounded_coord(c) && c != (0int, 0int, 0int)
}

/// A signed unit vector along one of the three cardinal axes.
pub open spec fn unit_coord(c: CoordV) -> bool {
    ||| c == (1int, 0int, 0int)
    ||| c == (-1int, 0int, 0int)
    ||| c == (0int, 1int, 0int)
    ||| c == (0int, -1int, 0int)
    ||| c == (0int, 0int, 1int)
    ||| c == (0int, 0int, -1int)
}

/// Rotation of a coordinate by one quarter turn about a cardinal axis.
/// Sense `s == 1` rotates the two off-axis components (b, c) to (-c, b);
/// `s == -1` is the opposite handedness.  The on-axis component never changes.
pub open spec fn rot_coord(axis: int, s: int, c: CoordV) -> CoordV {
    if axis == 0 {
        if s == 1 {
            (c.0, -c.2, c.1)
        } else {
            (c.0, c.2, -c.1)
        }
    } else if axis == 1 {
        if s == 1 {
            (c.2, c.1, -c.0)
        } else {
            (-c.2, c.1, c.0)
        }
    } else {
        if s == 1 {
            (-c.1, c.0, c.2)
        } else {
            (c.1, -c.0, c.2)
        }
    }
}

/// A quarter turn applied to an orientation on the left: each column (the image
/// of a basis vector) is rotated.
pub open spec fn rot_orient(axis: int, s: int, o: OrientV) -> OrientV {
    (rot_coord(axis, s, o.0), rot_coord(axis, s, o.1), rot_coord(axis, s, o.2))
}

/// Dot product of two coordinate triples.
pub open spec fn dot(u: CoordV, v: CoordV) -> int {
    u.0 * v.0 + u.1 * v.1 + u.2 * v.2
}

/// Cross product of two coordinate triples.
pub open spec fn cross(u: CoordV, v: CoordV) -> CoordV {
    (u.1 * v.2 - u.2 * v.1, u.2 * v.0 - u.0 * v.2, u.0 * v.1 - u.1 * v.0)
}

/// The identity orientation.
pub open spec fn ident_orient() -> OrientV {
    ((1int, 0int, 0int), (0int, 1int, 0int), (0int, 0int, 1int))
}

/// One of the 24 rotations of the cube: the first two columns are orthogonal
/// signed unit vectors and the third completes a right-handed frame, so the
/// matrix is a proper rotation that permutes the cardinal axes with signs.
pub open spec fn orient_wf(o: OrientV) -> bool {
    &&& unit_coord(o.0)
    &&& unit_coord(o.1)
    &&& unit_coord(o.2)
    &&& dot(o.0, o.1) == 0
    &&& o.2 == cross(o.0, o.1)
}

/// All nine orientation entries lie in {-1, 0, 1}.
pub open spec fn bounded_orient(o: OrientV) -> bool {
    bounded_coord(o.0) && bounded_coord(o.1) && bounded_coord(o.2)
}

/// Rotating in one sense and then in the opposite sense restores any coordinate.
pub proof fn lemma_rot_coord_inverse(axis: int, s: int, c: CoordV)
    requires
        s == 1 || s == -1,
    ensures
        rot_coord(axis, -s, rot_coord(axis, s, c)) == c,
{
}

/// Four quarter turns in the same sense restore any coordinate.
pub proof fn lemma_rot_coord_four(axis: int, s: int, c: CoordV)
    requires
        s == 1 || s == -1,
    ensures
        rot_coord(axis, s, rot_coord(axis, s, rot_coord(axis, s, rot_coord(axis, s, c)))) == c,
{
}

/// A quarter turn keeps coordinates bounded, keeps valid coordinates valid,
/// and keeps signed unit vectors signed unit vectors.
pub proof fn lemma_rot_coord_shape(axis: int, s: int, c: CoordV)
    requires
        s == 1 || s == -1,
    ensures
        bounded_coord(c) ==> bounded_coord(rot_coord(axis, s, c)),
        valid_coord(c) ==> valid_coord(rot_coord(axis, s, c)),
        unit_coord(c) ==> unit_coord(rot_coord(axis, s, c)),
{
}

/// Pushing a sign through a product, the one nonlinear fact the orientation
/// lemmas need.
proof fn lemma_mul_neg(x: int, y: int)
    ensures
        (-x) * y == -(x * y),
        x * (-y) == -(x * y),
        (-x) * (-y) == x * y,
{
    assert((-x) * y == -(x * y)) by (nonlinear_arith);
    assert(x * (-y) == -(x * y)) by (nonlinear_arith);
    assert((-x) * (-y) == x * y) by (nonlinear_arith);
}

proof fn lemma_mul_neg_all(u: CoordV, v: CoordV)
    ensures
        (-u.0) * v.0 == -(u.0 * v.0) && u.0 * (-v.0) == -(u.0 * v.0) && (-u.0) * (-v.0) == u.0
            * v.0,
        (-u.0) * v.1 == -(u.0 * v.1) && u.0 * (-v.1) == -(u.0 * v.1) && (-u.0) * (-v.1) == u.0
            * v.1,
        (-u.0) * v.2 == -(u.0 * v.2) && u.0 * (-v.2) == -(u.0 * v.2) && (-u.0) * (-v.2) == u.0
            * v.2,
        (-u.1) * v.0 == -(u.1 * v.0) && u.1 * (-v.0) == -(u.1 * v.0) && (-u.1) * (-v.0) == u.1
            * v.0,
        (-u.1) * v.1 == -(u.1 * v.1) && u.1 * (-v.1) == -(u.1 * v.1) && (-u.1) * (-v.1) == u.1
            * v.1,
        (-u.1) * v.2 == -(u.1 * v.2) && u.1 * (-v.2) == -(u.1 * v.2) && (-u.1) * (-v.2) == u.1
            * v.2,
        (-u.2) * v.0 == -(u.2 * v.0) && u.2 * (-v.0) == -(u.2 * v.0) && (-u.2) * (-v.0) == u.2
            * v.0,
        (-u.2) * v.1 == -(u.2 * v.1) && u.2 * (-v.1) == -(u.2 * v.1) && (-u.2) * (-v.1) == u.2
            * v.1,
        (-u.2) * v.2 == -(u.2 * v.2) && u.2 * (-v.2) == -(u.2 * v.2) && (-u.2) * (-v.2) == u.2
            * v.2,
{
    lemma_mul_neg(u.0, v.0);
    lemma_mul_neg(u.0, v.1);
    lemma_mul_neg(u.0, v.2);
    lemma_mul_neg(u.1, v.0);
    lemma_mul_neg(u.1, v.1);
    lemma_mul_neg(u.1, v.2);
    lemma_mul_neg(u.2, v.0);
    lemma_mul_neg(u.2, v.1);
    lemma_mul_neg(u.2, v.2);
}

/// A quarter turn preserves dot products; in particular orthogonality.
pub proof fn lemma_rot_coord_dot(axis: int, s: int, u: CoordV, v: CoordV)
    requires
        s == 1 || s == -1,
    ensures
        dot(rot_coord(axis, s, u), rot_coord(axis, s, v)) == dot(u, v),
{
    lemma_mul_neg_all(u, v);
}

/// A quarter turn commutes with the cross product: rotating a right-handed
/// frame yields a right-handed frame.
pub proof fn lemma_rot_coord_cross(axis: int, s: int, u: CoordV, v: CoordV)
    requires
        s == 1 || s == -1,
    ensures
        rot_coord(axis, s, cross(u, v)) == cross(rot_coord(axis, s, u), rot_coord(axis, s, v)),
{
    lemma_mul_neg_all(u, v);
}

/// A quarter turn of an orientation preserves well-formedness: the result is
/// again one of the 24 rotations of the cube.
pub proof fn lemma_rot_orient_wf(axis: int, s: int, o: OrientV)
    requires
        s == 1 || s == -1,
        orient_wf(o),
    ensures
        orient_wf(rot_orient(axis, s, o)),
{
    lemma_rot_coord_shape(axis, s, o.0);
    lemma_rot_coord_shape(axis, s, o.1);
    lemma_rot_coord_shape(axis, s, o.2);
    lemma_rot_coord_dot(axis, s, o.0, o.1);
    lemma_rot_coord_cross(axis, s, o.0, o.1);
}

/// Inverse and four-fold laws lifted to orientations.
pub proof fn lemma_rot_orient_inverse(axis: int, s: int, o: OrientV)
    requires
        s == 1 || s == -1,
    ensures
        rot_orient(axis, -s, rot_orient(axis, s, o)) == o,
{
    lemma_rot_coord_inverse(axis, s, o.0);
    lemma_rot_coord_inverse(axis, s, o.1);
    lemma_rot_coord_inverse(axis, s, o.2);
}

pub proof fn lemma_rot_orient_four(axis: int, s: int, o: OrientV)
    requires
        s == 1 || s == -1,
    ensures
        rot_orient(axis, s, rot_orient(axis, s, rot_orient(axis, s, rot_orient(axis, s, o)))) == o,
{
    lemma_rot_coord_four(axis, s, o.0);
    lemma_rot_coord_four(axis, s, o.1);
    lemma_rot_coord_four(axis, s, o.2);
}

/// Executable orientation: the images of the three basis vectors, with entries
/// always in {-1, 0, 1}.
#[derive(Clone, Copy, PartialEq, Eq, Debug)]
pub struct Orientation {
    pub cx: [i8; 3],
    pub cy: [i8; 3],
    pub cz: [i8; 3],
}

impl View for Orientation {
    type V = OrientV;

    open spec fn view(&self) -> OrientV {
        (view3(self.cx), view3(self.cy), view3(self.cz))
    }
}

impl Orientation {
    pub fn identity() -> (r: Orientation)
        ensures
            r@ == ident_orient(),
    {
        Orientation { cx: [1, 0, 0], cy: [0, 1, 0], cz: [0, 0, 1] }
    }
}

/// Executable quarter turn of a coordinate triple.
pub fn rotate_coord(p: [i8; 3], axis: u8, s: i8) -> (r: [i8; 3])
    requires
        axis < 3,
        s == 1 || s == -1,
        bounded_coord(view3(p)),
    ensures
        view3(r) == rot_coord(axis as int, s as int, view3(p)),
{
    let x = p[0];
    let y = p[1];
    let z = p[2];
    if axis == 0 {
        if s == 1 {
            [x, -z, y]
        } else {
            [x, z, -y]
        }
    } else if axis == 1 {
        if s == 1 {
            [z, y, -x]
        } else {
            [-z, y, x]
        }
    } else {
        if s == 1 {
            [-y, x, z]
        } else {
            [y, -x, z]
        }
    }
}

/// Executable quarter turn of an orientation (left composition with the turn).
pub fn rotate_orientation(o: &Orientation, axis: u8, s: i8) -> (r: Orientation)
    requires
        axis < 3,
        s == 1 || s == -1,
        bounded_orient(o@),
    ensures
        r@ == rot_orient(axis as int, s as int, o@),
{
    Orientation {
        cx: rotate_coord(o.cx, axis, s),
        cy: rotate_coord(o.cy, axis, s),
        cz: rotate_coord(o.cz, axis, s),
    }
}

} // verus!
