//! The vertex references of a face: `p`, `p/t`, `p//n` or `p/t/n`.
//!
//! Each part is a decimal integer with an optional sign. A positive number
//! counts the elements of its pool from 1; a negative number counts back from
//! the end of the pool as it stands at the face, -1 being the last element.
//! The reference is resolved against the sizes of the three pools to indices
//! that count from 0.

use vstd::prelude::*;
use vstd::slice::slice_subrange;

verus! {

/// The character that parts a reference.
pub const SLASH: u8 = 47;

/// The plus sign.
pub const PLUS: u8 = 43;

/// The minus sign.
pub const MINUS: u8 = 45;

/// The digit zero.
pub const ZERO: u8 = 48;

/// The digit nine.
pub const NINE: u8 = 57;

/// Why a vertex reference, or the line that holds it, is refused.
#[derive(Debug, Clone, Copy, PartialEq, Eq, Structural)]
pub enum RefFault {
    /// The position is missing, or the reference has more than three parts.
    /// Of a face: it has too few vertices, or references of different forms.
    Malformed,
    /// A part is not a decimal integer. Of a line of coordinates: one of
    /// them is no number.
    Numeric,
    /// A part is zero or points outside its pool.
    OutOfRange,
}

/// One vertex of a face, as indices into the three pools, counting from 0.
#[derive(Debug, Clone, Copy, PartialEq, Eq, Structural)]
pub struct FaceVertex {
    /// The index of the position.
    pub position: usize,
    /// The index of the texture coordinate, where the reference names one.
    pub texcoord: Option<usize>,
    /// The index of the normal, where the reference names one.
    pub normal: Option<usize>,
}

/// The sizes of the three pools at some line of a document.
#[derive(Debug, Clone, Copy, PartialEq, Eq, Structural)]
pub struct PoolSizes {
    /// How many positions the document has given so far.
    pub positions: usize,
    /// How many texture coordinates it has given so far.
    pub texcoords: usize,
    /// How many normals it has given so far.
    pub normals: usize,
}

/// Whether `b` is a decimal digit.
pub open spec fn is_digit(b: u8) -> bool {
    ZERO <= b && b <= NINE
}

/// Whether `t` holds decimal digits only.
pub open spec fn all_digits(t: Seq<u8>) -> bool {
    forall|i: int| 0 <= i < t.len() ==> is_digit(#[trigger] t[i])
}

/// The number that the digits `t` write; 0 for no digits.
pub open spec fn digits_value(t: Seq<u8>) -> nat
    decreases t.len(),
{
    if t.len() == 0 {
        0
    } else {
        digits_value(t.drop_last()) * 10 + (t.last() - ZERO) as nat
    }
}

/// The integer that `t` writes: an optional sign, then at least one digit.
pub open spec fn signed_value(t: Seq<u8>) -> Option<int> {
    if t.len() == 0 {
        None
    } else {
        let body = if t[0] == PLUS || t[0] == MINUS {
            t.subrange(1, t.len() as int)
        } else {
            t
        };
        if body.len() == 0 || !all_digits(body) {
            None
        } else if t[0] == MINUS {
            Some(-(digits_value(body) as int))
        } else {
            Some(digits_value(body) as int)
        }
    }
}

/// The index, counting from 0, that the number `x` of a reference means in a
/// pool of `pool` elements.
pub open spec fn resolve(x: int, pool: nat) -> Option<nat> {
    if 1 <= x && x <= pool {
        Some((x - 1) as nat)
    } else if -(pool as int) <= x && x <= -1 {
        Some((pool + x) as nat)
    } else {
        None
    }
}

/// The index that the part `t` of a reference means in a pool of `pool`
/// elements.
pub open spec fn part_index(t: Seq<u8>, pool: nat) -> Result<usize, RefFault> {
    match signed_value(t) {
        None => Err(RefFault::Numeric),
        Some(x) => match resolve(x, pool) {
            None => Err(RefFault::OutOfRange),
            Some(i) => Ok(i as usize),
        },
    }
}

/// As `part_index`, for a part that may be left empty.
pub open spec fn optional_index(t: Seq<u8>, pool: nat) -> Result<Option<usize>, RefFault> {
    if t.len() == 0 {
        Ok(None)
    } else {
        match part_index(t, pool) {
            Err(f) => Err(f),
            Ok(i) => Ok(Some(i)),
        }
    }
}

/// The place of the first slash at or after `i`, or the length of `t`.
pub open spec fn first_slash(t: Seq<u8>, i: int) -> int
    decreases t.len() - i,
{
    if 0 <= i && i < t.len() && t[i] != SLASH {
        first_slash(t, i + 1)
    } else {
        i
    }
}

/// The part of `t` between the slash at `a` and the place `b`; nothing where
/// `a` is the end of `t`.
pub open spec fn part_after(t: Seq<u8>, a: int, b: int) -> Seq<u8> {
    if a < t.len() {
        t.subrange(a + 1, b)
    } else {
        Seq::empty()
    }
}

/// The place where the part after the slash at `a` ends; the end of `t` where
/// `a` is the end of `t`.
pub open spec fn next_slash(t: Seq<u8>, a: int) -> int {
    if a < t.len() {
        first_slash(t, a + 1)
    } else {
        t.len() as int
    }
}

/// The vertex that the reference `t` means at a place of the document where
/// the pools have the sizes `pools`.
pub open spec fn face_vertex(t: Seq<u8>, pools: PoolSizes) -> Result<FaceVertex, RefFault> {
    let a = first_slash(t, 0);
    let b = next_slash(t, a);
    let c = next_slash(t, b);
    if a == 0 || c < t.len() {
        Err(RefFault::Malformed)
    } else {
        match part_index(t.subrange(0, a), pools.positions as nat) {
            Err(f) => Err(f),
            Ok(position) => match optional_index(part_after(t, a, b), pools.texcoords as nat) {
                Err(f) => Err(f),
                Ok(texcoord) => match optional_index(part_after(t, b, c), pools.normals as nat) {
                    Err(f) => Err(f),
                    Ok(normal) => Ok(FaceVertex { position, texcoord, normal }),
                },
            },
        }
    }
}

/// What a run of digits comes to.
enum Magnitude {
    /// It is empty, or holds something that is no digit.
    Broken,
    /// Its value.
    Value(usize),
    /// Its value is more than a `usize` holds.
    Huge,
}

/// Reads the digits `t[from..]`.
fn magnitude(t: &[u8], from: usize) -> (r: Magnitude)
    requires
        from <= t.len(),
    ensures
        ({
            let body = t@.subrange(from as int, t.len() as int);
            match r {
                Magnitude::Broken => body.len() == 0 || !all_digits(body),
                Magnitude::Value(v) => body.len() > 0 && all_digits(body) && digits_value(body)
                    == v,
                Magnitude::Huge => body.len() > 0 && all_digits(body) && digits_value(body)
                    > usize::MAX,
            }
        }),
{
    if from == t.len() {
        return Magnitude::Broken;
    }
    let ghost body = t@.subrange(from as int, t.len() as int);
    let mut acc: Option<usize> = Some(0);
    let mut i = from;
    while i < t.len()
        invariant
            from <= i <= t.len(),
            body == t@.subrange(from as int, t.len() as int),
            all_digits(t@.subrange(from as int, i as int)),
            match acc {
                Some(v) => v == digits_value(t@.subrange(from as int, i as int)),
                None => digits_value(t@.subrange(from as int, i as int)) > usize::MAX,
            },
        decreases t.len() - i,
    {
        let b = t[i];
        if b < ZERO || b > NINE {
            assert(!is_digit(body[i - from]));
            return Magnitude::Broken;
        }
        let ghost before = t@.subrange(from as int, i as int);
        let ghost after = t@.subrange(from as int, i + 1);
        assert(after.drop_last() =~= before);
        assert(after.last() == b);
        assert(all_digits(after)) by {
            assert forall|k: int| 0 <= k < after.len() implies is_digit(#[trigger] after[k]) by {
                if k < before.len() {
                    assert(after[k] == before[k]);
                }
            }
        }
        acc = match acc {
            None => None,
            Some(v) => match v.checked_mul(10) {
                None => None,
                Some(w) => w.checked_add((b - ZERO) as usize),
            },
        };
        i = i + 1;
    }
    assert(t@.subrange(from as int, i as int) =~= body);
    match acc {
        Some(v) => Magnitude::Value(v),
        None => Magnitude::Huge,
    }
}

/// Resolves one part of a reference against a pool of `pool` elements.
pub fn parse_index(t: &[u8], pool: usize) -> (r: Result<usize, RefFault>)
    ensures
        r == part_index(t@, pool as nat),
{
    if t.len() == 0 {
        return Err(RefFault::Numeric);
    }
    let negative = t[0] == MINUS;
    let from: usize = if t[0] == PLUS || t[0] == MINUS {
        1
    } else {
        0
    };
    assert(t@.subrange(0, t.len() as int) =~= t@);
    match magnitude(t, from) {
        Magnitude::Broken => Err(RefFault::Numeric),
        Magnitude::Huge => Err(RefFault::OutOfRange),
        Magnitude::Value(v) => {
            if v == 0 || v > pool {
                Err(RefFault::OutOfRange)
            } else if negative {
                Ok(pool - v)
            } else {
                Ok(v - 1)
            }
        },
    }
}

/// As `parse_index`, for a part that may be left empty.
pub fn parse_optional_index(t: &[u8], pool: usize) -> (r: Result<Option<usize>, RefFault>)
    ensures
        r == optional_index(t@, pool as nat),
{
    if t.len() == 0 {
        Ok(None)
    } else {
        match parse_index(t, pool) {
            Err(f) => Err(f),
            Ok(i) => Ok(Some(i)),
        }
    }
}

/// Finds the first slash at or after `i`.
fn first_slash_from(t: &[u8], i: usize) -> (r: usize)
    requires
        i <= t.len(),
    ensures
        r == first_slash(t@, i as int),
        i <= r <= t.len(),
{
    let mut j = i;
    while j < t.len() && t[j] != SLASH
        invariant
            i <= j <= t.len(),
            first_slash(t@, i as int) == first_slash(t@, j as int),
        decreases t.len() - j,
    {
        j = j + 1;
    }
    j
}

/// Finds the end of the part that follows the slash at `a`.
fn next_slash_from(t: &[u8], a: usize) -> (r: usize)
    requires
        a <= t.len(),
    ensures
        r == next_slash(t@, a as int),
        a <= r <= t.len(),
        a < t.len() ==> a < r,
{
    if a < t.len() {
        first_slash_from(t, a + 1)
    } else {
        t.len()
    }
}

/// The part that follows the slash at `a` and ends at `b`.
fn part_after_slash<'a>(t: &'a [u8], a: usize, b: usize) -> (r: &'a [u8])
    requires
        a <= b <= t.len(),
        a < t.len() ==> a < b,
    ensures
        r@ == part_after(t@, a as int, b as int),
{
    if a < t.len() {
        slice_subrange(t, a + 1, b)
    } else {
        slice_subrange(t, a, a)
    }
}

/// Resolves the vertex reference `token` of a face against the sizes of the
/// pools at that face.
///
/// The reference is a position, then optionally a slash and a texture
/// coordinate, then optionally a slash and a normal; the texture coordinate
/// and the normal may be left empty.
pub fn parse_face_vertex(token: &[u8], pools: PoolSizes) -> (r: Result<FaceVertex, RefFault>)
    ensures
        r == face_vertex(token@, pools),
{
    let a = first_slash_from(token, 0);
    let b = next_slash_from(token, a);
    let c = next_slash_from(token, b);
    if a == 0 || c < token.len() {
        return Err(RefFault::Malformed);
    }
    let position = match parse_index(slice_subrange(token, 0, a), pools.positions) {
        Err(f) => {
            return Err(f);
        },
        Ok(i) => i,
    };
    let texcoord = match parse_optional_index(part_after_slash(token, a, b), pools.texcoords) {
        Err(f) => {
            return Err(f);
        },
        Ok(i) => i,
    };
    let normal = match parse_optional_index(part_after_slash(token, b, c), pools.normals) {
        Err(f) => {
            return Err(f);
        },
        Ok(i) => i,
    };
    Ok(FaceVertex { position, texcoord, normal })
}

} // verus!
