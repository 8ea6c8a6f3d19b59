//! The six faces of a cube as a bit set.

use vstd::prelude::*;

verus! {

/// A set of cube faces, one bit per face.
pub type FaceFlags = u8;

pub const FACE_NONE: FaceFlags = 0;

/// The face towards -X.
pub const FACE_LEFT: FaceFlags = 1;

/// The face towards +X.
pub const FACE_RIGHT: FaceFlags = 2;

/// The face towards -Y.
pub const FACE_BOTTOM: FaceFlags = 4;

/// The face towards +Y.
pub const FACE_TOP: FaceFlags = 8;

/// The face towards -Z.
pub const FACE_BACK: FaceFlags = 16;

/// The face towards +Z.
pub const FACE_FRONT: FaceFlags = 32;

pub const FACE_ALL: FaceFlags = 63;

/// Whether `mask` holds any face of `faces`.
pub open spec fn has_face(mask: FaceFlags, faces: FaceFlags) -> bool {
    mask & faces != 0
}

/// `face` if `on`, else no face.
pub open spec fn face_if(on: bool, face: FaceFlags) -> FaceFlags {
    if on {
        face
    } else {
        FACE_NONE
    }
}

/// The mask that holds exactly the faces whose flag is true.
pub open spec fn face_mask(
    left: bool,
    right: bool,
    bottom: bool,
    top: bool,
    back: bool,
    front: bool,
) -> FaceFlags {
    face_if(left, FACE_LEFT) | face_if(right, FACE_RIGHT) | face_if(bottom, FACE_BOTTOM) | face_if(
        top,
        FACE_TOP,
    ) | face_if(back, FACE_BACK) | face_if(front, FACE_FRONT)
}

/// A mask built from six flags holds a face exactly when its flag is true,
/// and holds nothing else.
pub proof fn face_mask_members(
    left: bool,
    right: bool,
    bottom: bool,
    top: bool,
    back: bool,
    front: bool,
)
    ensures
        has_face(face_mask(left, right, bottom, top, back, front), FACE_LEFT) == left,
        has_face(face_mask(left, right, bottom, top, back, front), FACE_RIGHT) == right,
        has_face(face_mask(left, right, bottom, top, back, front), FACE_BOTTOM) == bottom,
        has_face(face_mask(left, right, bottom, top, back, front), FACE_TOP) == top,
        has_face(face_mask(left, right, bottom, top, back, front), FACE_BACK) == back,
        has_face(face_mask(left, right, bottom, top, back, front), FACE_FRONT) == front,
        face_mask(left, right, bottom, top, back, front) <= FACE_ALL,
        face_mask(left, right, bottom, top, back, front) == FACE_NONE <==> !(left || right
            || bottom || top || back || front),
        face_mask(left, right, bottom, top, back, front) == FACE_ALL <==> (left && right
            && bottom && top && back && front),
{
    let l: u8 = face_if(left, FACE_LEFT);
    let r: u8 = face_if(right, FACE_RIGHT);
    let b: u8 = face_if(bottom, FACE_BOTTOM);
    let t: u8 = face_if(top, FACE_TOP);
    let k: u8 = face_if(back, FACE_BACK);
    let f: u8 = face_if(front, FACE_FRONT);
    let m: u8 = l | r | b | t | k | f;
    assert(m == face_mask(left, right, bottom, top, back, front));
    assert(((m & 1 != 0) == (l != 0)) && ((m & 2 != 0) == (r != 0)) && ((m & 4 != 0) == (b != 0))
        && ((m & 8 != 0) == (t != 0)) && ((m & 16 != 0) == (k != 0)) && ((m & 32 != 0) == (f
        != 0)) && m <= 63 && ((m == 0) == (l == 0 && r == 0 && b == 0 && t == 0 && k == 0 && f
        == 0)) && ((m == 63) == (l != 0 && r != 0 && b != 0 && t != 0 && k != 0 && f != 0)))
        by (bit_vector)
        requires
            m == l | r | b | t | k | f,
            l == 0 || l == 1,
            r == 0 || r == 2,
            b == 0 || b == 4,
            t == 0 || t == 8,
            k == 0 || k == 16,
            f == 0 || f == 32,
    ;
}

/// A union holds a face exactly when one of its two sides does.
pub proof fn face_union_members(a: FaceFlags, b: FaceFlags, faces: FaceFlags)
    ensures
        has_face(a | b, faces) == (has_face(a, faces) || has_face(b, faces)),
{
    assert(((a | b) & faces != 0) == ((a & faces != 0) || (b & faces != 0))) by (bit_vector);
}

/// The empty mask holds no face, and is neutral in a union.
pub proof fn face_none_members(a: FaceFlags, faces: FaceFlags)
    ensures
        !has_face(FACE_NONE, faces),
        FACE_NONE | a == a,
        a | FACE_NONE == a,
{
    assert(0u8 & faces == 0) by (bit_vector);
    assert(0u8 | a == a) by (bit_vector);
    assert(a | 0u8 == a) by (bit_vector);
}


/// Two masks that hold the same faces are the same mask.
pub proof fn same_faces(a: FaceFlags, b: FaceFlags)
    requires
        forall|faces: FaceFlags| #[trigger] has_face(a, faces) == has_face(b, faces),
    ensures
        a == b,
{
    assert(has_face(a, 1) == has_face(b, 1));
    assert(has_face(a, 2) == has_face(b, 2));
    assert(has_face(a, 4) == has_face(b, 4));
    assert(has_face(a, 8) == has_face(b, 8));
    assert(has_face(a, 16) == has_face(b, 16));
    assert(has_face(a, 32) == has_face(b, 32));
    assert(has_face(a, 64) == has_face(b, 64));
    assert(has_face(a, 128) == has_face(b, 128));
    assert(a == b) by (bit_vector)
        requires
            (a & 1 != 0) == (b & 1 != 0),
            (a & 2 != 0) == (b & 2 != 0),
            (a & 4 != 0) == (b & 4 != 0),
            (a & 8 != 0) == (b & 8 != 0),
            (a & 16 != 0) == (b & 16 != 0),
            (a & 32 != 0) == (b & 32 != 0),
            (a & 64 != 0) == (b & 64 != 0),
            (a & 128 != 0) == (b & 128 != 0),
    ;
}

} // verus!
