//! Splitting faces into triangles.
//!
//! The vertices of all faces of a mesh stand in one list, face after face;
//! the corners of a face are places in that list. A face of n corners becomes
//! a fan of n - 2 triangles round its first corner: the triangle i takes the
//! corners 0, i + 1 and i + 2 of the face, in that order, so that the
//! triangles wind as the face does. The fan fills the face where the face is
//! flat and convex.

use vstd::prelude::*;

verus! {

/// The corners of the fan of a face that starts at the place `start` and has
/// `arity` corners: three for each of its triangles.
pub open spec fn fan(start: int, arity: int) -> Seq<int>
    decreases arity,
{
    if arity < 3 {
        Seq::empty()
    } else {
        fan(start, arity - 1) + seq![start, start + arity - 2, start + arity - 1]
    }
}

/// The number of corners of the first `upto` faces: the place where the next
/// face starts.
pub open spec fn arity_total(arities: Seq<u32>, upto: int) -> int
    decreases upto,
{
    if upto <= 0 {
        0
    } else {
        arity_total(arities, upto - 1) + arities[upto - 1]
    }
}

/// The corners of the fans of the first `upto` faces.
pub open spec fn fans(arities: Seq<u32>, upto: int) -> Seq<int>
    decreases upto,
{
    if upto <= 0 {
        Seq::empty()
    } else {
        fans(arities, upto - 1) + fan(arity_total(arities, upto - 1), arities[upto - 1] as int)
    }
}

/// Whether every face has at least three corners.
pub open spec fn all_polygons(arities: Seq<u32>) -> bool {
    forall|f: int| 0 <= f < arities.len() ==> #[trigger] arities[f] >= 3
}

/// The places `0`, `1`, ... below `count`.
pub open spec fn every_place(count: nat) -> Seq<int> {
    Seq::new(count, |j: int| j)
}

/// The corners of the triangles of a mesh whose faces have the given numbers
/// of corners and `count` corners in all. No arities stand for faces that
/// are triangles already. `None` where the faces are no triangles, a face has
/// fewer than three corners, or the arities do not come to `count`.
pub open spec fn triangle_corners(arities: Seq<u32>, count: nat) -> Option<Seq<int>> {
    if arities.len() == 0 {
        if count % 3 == 0 {
            Some(every_place(count))
        } else {
            None
        }
    } else if all_polygons(arities) && arity_total(arities, arities.len() as int) == count {
        Some(fans(arities, arities.len() as int))
    } else {
        None
    }
}

/// A fan has n - 2 triangles, and its triangle `i` takes the corners 0,
/// i + 1 and i + 2 of the face.
pub proof fn lemma_fan_triangles(start: int, arity: int, i: int)
    requires
        arity >= 3,
        0 <= i < arity - 2,
    ensures
        fan(start, arity).len() == 3 * (arity - 2),
        fan(start, arity)[3 * i] == start,
        fan(start, arity)[3 * i + 1] == start + i + 1,
        fan(start, arity)[3 * i + 2] == start + i + 2,
    decreases arity,
{
    lemma_fan_len(start, arity);
    if i < arity - 3 {
        lemma_fan_triangles(start, arity - 1, i);
    } else {
        lemma_fan_len(start, arity - 1);
    }
}

/// A fan has three corners for each of its n - 2 triangles.
pub proof fn lemma_fan_len(start: int, arity: int)
    ensures
        fan(start, arity).len() == if arity < 3 {
            0
        } else {
            3 * (arity - 2)
        },
    decreases arity,
{
    if arity >= 3 {
        lemma_fan_len(start, arity - 1);
    }
}

/// Every corner of a fan is a corner of its face.
pub proof fn lemma_fan_in_face(start: int, arity: int)
    ensures
        forall|j: int|
            0 <= j < fan(start, arity).len() ==> start <= #[trigger] fan(start, arity)[j] < start
                + arity,
    decreases arity,
{
    if arity >= 3 {
        lemma_fan_in_face(start, arity - 1);
        lemma_fan_len(start, arity - 1);
        let before = fan(start, arity - 1);
        let last = seq![start, start + arity - 2, start + arity - 1];
        assert forall|j: int| 0 <= j < fan(start, arity).len() implies start <= #[trigger] fan(
            start,
            arity,
        )[j] < start + arity by {
            if j < before.len() {
                assert(fan(start, arity)[j] == before[j]);
            } else {
                assert(fan(start, arity)[j] == last[j - before.len()]);
            }
        }
    }
}

/// The faces before a face hold no more corners than the faces up to it.
pub proof fn lemma_arity_total_grows(arities: Seq<u32>, a: int, b: int)
    requires
        a <= b,
    ensures
        0 <= arity_total(arities, a) <= arity_total(arities, b),
    decreases b - a, b,
{
    if b <= 0 {
    } else if a < b {
        lemma_arity_total_grows(arities, a, b - 1);
    } else {
        lemma_arity_total_grows(arities, a - 1, b - 1);
    }
}

/// The corners of the triangles come in threes, and each is a corner of a
/// face.
pub proof fn lemma_fans_in_mesh(arities: Seq<u32>, upto: int)
    requires
        0 <= upto <= arities.len(),
    ensures
        fans(arities, upto).len() % 3 == 0,
        forall|j: int|
            0 <= j < fans(arities, upto).len() ==> 0 <= #[trigger] fans(arities, upto)[j]
                < arity_total(arities, upto),
    decreases upto,
{
    if upto > 0 {
        lemma_fans_in_mesh(arities, upto - 1);
        let start = arity_total(arities, upto - 1);
        let arity = arities[upto - 1] as int;
        lemma_fan_len(start, arity);
        lemma_fan_in_face(start, arity);
        lemma_arity_total_grows(arities, 0, upto - 1);
        let before = fans(arities, upto - 1);
        assert forall|j: int| 0 <= j < fans(arities, upto).len() implies 0 <= #[trigger] fans(
            arities,
            upto,
        )[j] < arity_total(arities, upto) by {
            if j >= before.len() {
                assert(fans(arities, upto)[j] == fan(start, arity)[j - before.len()]);
            } else {
                assert(fans(arities, upto)[j] == before[j]);
            }
        }
    }
}

/// The corners of the triangles of a mesh come in threes, and each is one of
/// the `count` corners of the mesh.
pub proof fn lemma_triangle_corners_in_mesh(arities: Seq<u32>, count: nat)
    ensures
        triangle_corners(arities, count) matches Some(c) ==> c.len() % 3 == 0 && forall|j: int|
            0 <= j < c.len() ==> 0 <= #[trigger] c[j] < count,
{
    if arities.len() > 0 {
        lemma_fans_in_mesh(arities, arities.len() as int);
    }
}

/// Appends the corners of the fan of one face to `out`.
fn push_fan(out: &mut Vec<usize>, start: usize, arity: usize)
    requires
        arity >= 3,
        start + arity <= usize::MAX,
    ensures
        final(out)@.len() == old(out)@.len() + fan(start as int, arity as int).len(),
        forall|j: int| 0 <= j < old(out)@.len() ==> final(out)@[j] == old(out)@[j],
        forall|j: int|
            0 <= j < fan(start as int, arity as int).len() ==> final(out)@[old(out)@.len() + j]
                == #[trigger] fan(start as int, arity as int)[j],
{
    let mut n: usize = 2;
    let ghost before = out@;
    while n < arity
        invariant
            2 <= n <= arity,
            start + arity <= usize::MAX,
            out@.len() == before.len() + fan(start as int, n as int).len(),
            forall|j: int| 0 <= j < before.len() ==> out@[j] == before[j],
            forall|j: int|
                0 <= j < fan(start as int, n as int).len() ==> out@[before.len() + j]
                    == #[trigger] fan(start as int, n as int)[j],
        decreases arity - n,
    {
        let ghost so_far = fan(start as int, n as int);
        out.push(start);
        out.push(start + n - 1);
        out.push(start + n);
        n = n + 1;
        proof {
            let next = fan(start as int, n as int);
            assert(next == so_far + seq![start as int, start + n - 2, start + n - 1]);
            assert forall|j: int| 0 <= j < next.len() implies out@[before.len() + j]
                == #[trigger] next[j] by {
                if j < so_far.len() {
                    assert(next[j] == so_far[j]);
                }
            }
        }
    }
}

/// The corners of the triangles of a mesh, as `triangle_corners` says.
pub fn corners_of_triangles(arities: &Vec<u32>, count: usize) -> (r: Option<Vec<usize>>)
    ensures
        match r {
            Some(c) => triangle_corners(arities@, count as nat) == Some(
                Seq::new(c@.len(), |j: int| c@[j] as int),
            ),
            None => triangle_corners(arities@, count as nat) is None,
        },
{
    let mut out: Vec<usize> = Vec::new();
    if arities.len() == 0 {
        if count % 3 != 0 {
            return None;
        }
        let mut j: usize = 0;
        while j < count
            invariant
                j <= count,
                out@.len() == j,
                forall|i: int| 0 <= i < j ==> out@[i] == i,
            decreases count - j,
        {
            out.push(j);
            j = j + 1;
        }
        assert(Seq::new(out@.len(), |j: int| out@[j] as int) =~= every_place(count as nat));
        return Some(out);
    }
    let mut start: usize = 0;
    let mut f: usize = 0;
    while f < arities.len()
        invariant
            f <= arities.len(),
            start == arity_total(arities@, f as int),
            start <= count,
            forall|g: int| 0 <= g < f ==> #[trigger] arities@[g] >= 3,
            out@.len() == fans(arities@, f as int).len(),
            forall|j: int|
                0 <= j < out@.len() ==> out@[j] as int == #[trigger] fans(arities@, f as int)[j],
        decreases arities.len() - f,
    {
        let arity = arities[f] as usize;
        if arity < 3 {
            return None;
        }
        if arity > count - start {
            proof {
                lemma_arity_total_grows(arities@, f + 1, arities.len() as int);
            }
            return None;
        }
        let ghost before = out@;
        let ghost so_far = fans(arities@, f as int);
        push_fan(&mut out, start, arity);
        proof {
            let next = fans(arities@, f + 1);
            assert(next == so_far + fan(start as int, arity as int));
            assert forall|j: int| 0 <= j < out@.len() implies out@[j] as int == #[trigger] next[j] by {
                if j < so_far.len() {
                    assert(next[j] == so_far[j]);
                    assert(out@[j] == before[j]);
                } else {
                    assert(next[j] == fan(start as int, arity as int)[j - so_far.len()]);
                }
            }
        }
        start = start + arity;
        f = f + 1;
    }
    if start != count {
        return None;
    }
    assert(Seq::new(out@.len(), |j: int| out@[j] as int) =~= fans(
        arities@,
        arities.len() as int,
    ));
    Some(out)
}

} // verus!
