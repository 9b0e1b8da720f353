//! Making a parsed mesh ready to be put together: a list of triangles over
//! vertices with a single index.
//!
//! The faces are split into triangles. Where the mesh has an index of its
//! own for normals or texture coordinates, every distinct combination of
//! indices becomes one vertex, and the attributes are laid out by vertex.

use crate::error::MeshFault;
use crate::mesh::narrowed;
use crate::parser::{RawMesh, RawMeshView};
use crate::triangulate::{corners_of_triangles, lemma_triangle_corners_in_mesh, triangle_corners};
use crate::weld::{first_seen, index_vertices, welded, widened, VertexKey};
use vstd::prelude::*;
use vstd::slice::slice_to_vec;

verus! {

/// Whether the mesh has one index for all its attributes.
pub open spec fn is_single_index(mesh: RawMeshView) -> bool {
    mesh.normal_indices.len() == 0 && mesh.texcoord_indices.len() == 0
}

/// The values of `stream` at the corners.
pub open spec fn gathered(stream: Seq<u32>, corners: Seq<int>) -> Seq<u32> {
    Seq::new(corners.len(), |j: int| stream[corners[j]])
}

/// The key of the corner `corner` of the mesh.
pub open spec fn key_of_corner(mesh: RawMeshView, corner: int) -> VertexKey {
    VertexKey {
        position: mesh.indices[corner],
        normal: if mesh.normal_indices.len() > 0 {
            Some(mesh.normal_indices[corner])
        } else {
            None
        },
        texcoord: if mesh.texcoord_indices.len() > 0 {
            Some(mesh.texcoord_indices[corner])
        } else {
            None
        },
    }
}

/// The keys of the corners.
pub open spec fn corner_keys(mesh: RawMeshView, corners: Seq<int>) -> Seq<VertexKey> {
    Seq::new(corners.len(), |j: int| key_of_corner(mesh, corners[j]))
}

/// Whether the key names elements that the arrays of the mesh hold.
pub open spec fn key_in_range(mesh: RawMeshView, key: VertexKey) -> bool {
    &&& (key.position as int) < mesh.positions.len() / 3
    &&& (key.normal matches Some(n) ==> (n as int) < mesh.normals.len() / 3)
    &&& (key.texcoord matches Some(t) ==> (t as int) < mesh.texcoords.len() / 2)
}

/// Whether every key names elements that the arrays of the mesh hold.
pub open spec fn keys_in_range(mesh: RawMeshView, keys: Seq<VertexKey>) -> bool {
    forall|j: int| 0 <= j < keys.len() ==> key_in_range(mesh, #[trigger] keys[j])
}

/// An attribute of a vertex.
#[derive(Debug, Clone, Copy, PartialEq, Eq, Structural)]
pub enum Attribute {
    /// Where the vertex lies: a row of three values.
    Position,
    /// The normal at the vertex: a row of three values.
    Normal,
    /// The texture coordinate of the vertex: a row of two values.
    Texcoord,
}

/// The number of values in a row of the attribute.
pub open spec fn width(attribute: Attribute) -> nat {
    match attribute {
        Attribute::Position => 3,
        Attribute::Normal => 3,
        Attribute::Texcoord => 2,
    }
}

/// The index by which the key names its row of the attribute.
pub open spec fn index_in(key: VertexKey, attribute: Attribute) -> Option<u32> {
    match attribute {
        Attribute::Position => Some(key.position),
        Attribute::Normal => key.normal,
        Attribute::Texcoord => key.texcoord,
    }
}

/// Whether every key names a row of the attribute that the pool holds.
pub open spec fn rows_in_pool(pool: Seq<u32>, keys: Seq<VertexKey>, attribute: Attribute) -> bool {
    forall|j: int|
        0 <= j < keys.len() ==> (index_in(#[trigger] keys[j], attribute) matches Some(at) && (
        at as int) < pool.len() / width(attribute))
}

/// The rows of the attribute that the keys name in the pool, one after the
/// other.
pub open spec fn picked(pool: Seq<u32>, keys: Seq<VertexKey>, attribute: Attribute) -> Seq<u32>
    decreases keys.len(),
{
    if keys.len() == 0 {
        Seq::empty()
    } else {
        let at = index_in(keys.last(), attribute)->0 as int;
        picked(pool, keys.drop_last(), attribute) + pool.subrange(
            width(attribute) * at,
            width(attribute) * at + width(attribute),
        )
    }
}

/// The mesh with one index for every distinct key of its corners `corners`.
pub open spec fn welded_mesh(mesh: RawMeshView, corners: Seq<int>) -> RawMeshView {
    let keys = corner_keys(mesh, corners);
    let unique = first_seen(keys);
    RawMeshView {
        positions: picked(mesh.positions, unique, Attribute::Position),
        normals: if mesh.normal_indices.len() > 0 {
            picked(mesh.normals, unique, Attribute::Normal)
        } else {
            Seq::empty()
        },
        texcoords: if mesh.texcoord_indices.len() > 0 {
            picked(mesh.texcoords, unique, Attribute::Texcoord)
        } else {
            Seq::empty()
        },
        indices: narrowed(welded(keys)),
        face_arities: Seq::empty(),
        normal_indices: Seq::empty(),
        texcoord_indices: Seq::empty(),
        material_id: mesh.material_id,
    }
}

/// The mesh as a list of triangles over vertices with a single index, or why
/// it cannot be made one.
///
/// The faces are split into fans of triangles. A mesh with a single index
/// keeps its vertices. A mesh with an index of its own for normals or
/// texture coordinates has them for every corner; its vertices are the
/// distinct keys of its corners, in the order in which they first appear.
pub open spec fn prepared(mesh: RawMeshView) -> Result<RawMeshView, MeshFault> {
    match triangle_corners(mesh.face_arities, mesh.indices.len()) {
        None => Err(MeshFault::NotTriangles),
        Some(corners) => {
            if is_single_index(mesh) {
                Ok(
                    RawMeshView {
                        positions: mesh.positions,
                        normals: mesh.normals,
                        texcoords: mesh.texcoords,
                        indices: gathered(mesh.indices, corners),
                        face_arities: Seq::empty(),
                        normal_indices: Seq::empty(),
                        texcoord_indices: Seq::empty(),
                        material_id: mesh.material_id,
                    },
                )
            } else if (mesh.normal_indices.len() > 0 && mesh.normal_indices.len()
                != mesh.indices.len()) || (mesh.texcoord_indices.len() > 0
                && mesh.texcoord_indices.len() != mesh.indices.len()) {
                Err(MeshFault::AttributeCount)
            } else if !keys_in_range(mesh, corner_keys(mesh, corners)) {
                Err(MeshFault::IndexOutOfRange)
            } else if first_seen(corner_keys(mesh, corners)).len() > 0x1_0000_0000 {
                Err(MeshFault::TooManyVertices)
            } else {
                Ok(welded_mesh(mesh, corners))
            }
        },
    }
}

/// The rows that are picked for the keys hold as many values as a row of
/// the attribute for each key.
pub proof fn lemma_picked_len(pool: Seq<u32>, keys: Seq<VertexKey>, attribute: Attribute)
    requires
        rows_in_pool(pool, keys, attribute),
    ensures
        picked(pool, keys, attribute).len() == width(attribute) * keys.len(),
    decreases keys.len(),
{
    if keys.len() > 0 {
        let front = keys.drop_last();
        assert(keys.last() == keys[keys.len() - 1]);
        assert forall|j: int| 0 <= j < front.len() implies (index_in(
            #[trigger] front[j],
            attribute,
        ) matches Some(at) && (at as int) < pool.len() / width(attribute)) by {
            assert(front[j] == keys[j]);
        }
        lemma_picked_len(pool, front, attribute);
        let row = width(attribute) as int;
        let at = index_in(keys.last(), attribute)->0 as int;
        let size = pool.len() as int;
        let count = keys.len() as int;
        assert(row * at + row <= size) by (nonlinear_arith)
            requires
                0 <= at < size / row,
                row == 2 || row == 3,
        ;
        assert(row * (count - 1) + row == row * count) by (nonlinear_arith);
    }
}

/// A prepared mesh is a list of triangles with a single index: it has three
/// indices for each triangle and no index of its own for any attribute. Where
/// its vertices are the distinct keys of its corners, it has one index for
/// each corner of its triangles and one position for each distinct key.
pub proof fn lemma_prepared_counts(mesh: RawMeshView)
    ensures
        prepared(mesh) matches Ok(p) ==> {
            let corners = triangle_corners(mesh.face_arities, mesh.indices.len())->0;
            &&& p.indices.len() == corners.len()
            &&& p.indices.len() % 3 == 0
            &&& p.face_arities.len() == 0
            &&& is_single_index(p)
            &&& p.material_id == mesh.material_id
            &&& !is_single_index(mesh) ==> p.positions.len() == 3 * first_seen(
                corner_keys(mesh, corners),
            ).len()
        },
{
    lemma_triangle_corners_in_mesh(mesh.face_arities, mesh.indices.len());
    if prepared(mesh) is Ok && !is_single_index(mesh) {
        let corners = triangle_corners(mesh.face_arities, mesh.indices.len())->0;
        let keys = corner_keys(mesh, corners);
        let unique = first_seen(keys);
        crate::weld::lemma_first_seen(keys);
        assert forall|j: int| 0 <= j < unique.len() implies (index_in(
            #[trigger] unique[j],
            Attribute::Position,
        ) matches Some(at) && (at as int) < mesh.positions.len() / 3) by {
            let at = crate::weld::slot(keys, unique[j]);
            crate::weld::lemma_slot(keys, unique[j]);
            assert(keys[at] == unique[j]);
            assert(key_in_range(mesh, keys[at]));
        }
        lemma_picked_len(mesh.positions, unique, Attribute::Position);
    }
}

/// What the corners of the triangles are, as numbers.
pub open spec fn places(corners: Seq<usize>) -> Seq<int> {
    Seq::new(corners.len(), |j: int| corners[j] as int)
}

/// The values of `stream` at the corners.
fn gather(stream: &Vec<u32>, corners: &Vec<usize>) -> (r: Vec<u32>)
    requires
        forall|j: int| 0 <= j < corners@.len() ==> #[trigger] corners@[j] < stream@.len(),
    ensures
        r@ == gathered(stream@, places(corners@)),
{
    let mut out: Vec<u32> = Vec::new();
    let mut j: usize = 0;
    while j < corners.len()
        invariant
            j <= corners.len(),
            out@.len() == j,
            forall|i: int| 0 <= i < corners@.len() ==> #[trigger] corners@[i] < stream@.len(),
            forall|i: int| 0 <= i < j ==> out@[i] == stream@[corners@[i] as int],
        decreases corners.len() - j,
    {
        out.push(stream[corners[j]]);
        j = j + 1;
    }
    assert(out@ =~= gathered(stream@, places(corners@)));
    out
}

/// The keys of the corners, where each names elements that the mesh holds.
fn keys_of(mesh: &RawMesh, corners: &Vec<usize>) -> (r: Option<Vec<VertexKey>>)
    requires
        forall|j: int| 0 <= j < corners@.len() ==> #[trigger] corners@[j] < mesh.indices@.len(),
        mesh.normal_indices@.len() == 0 || mesh.normal_indices@.len() == mesh.indices@.len(),
        mesh.texcoord_indices@.len() == 0 || mesh.texcoord_indices@.len() == mesh.indices@.len(),
    ensures
        match r {
            Some(keys) => keys@ == corner_keys(mesh@, places(corners@)) && keys_in_range(
                mesh@,
                keys@,
            ),
            None => !keys_in_range(mesh@, corner_keys(mesh@, places(corners@))),
        },
{
    let ghost all = corner_keys(mesh@, places(corners@));
    let position_count = mesh.positions.len() / 3;
    let normal_count = mesh.normals.len() / 3;
    let texcoord_count = mesh.texcoords.len() / 2;
    let has_normals = mesh.normal_indices.len() > 0;
    let has_texcoords = mesh.texcoord_indices.len() > 0;
    let mut keys: Vec<VertexKey> = Vec::new();
    let mut j: usize = 0;
    while j < corners.len()
        invariant
            j <= corners.len(),
            keys@.len() == j,
            all == corner_keys(mesh@, places(corners@)),
            position_count == mesh.positions@.len() / 3,
            normal_count == mesh.normals@.len() / 3,
            texcoord_count == mesh.texcoords@.len() / 2,
            has_normals == (mesh.normal_indices@.len() > 0),
            has_texcoords == (mesh.texcoord_indices@.len() > 0),
            forall|i: int| 0 <= i < corners@.len() ==> #[trigger] corners@[i] < mesh.indices@.len(),
            mesh.normal_indices@.len() == 0 || mesh.normal_indices@.len() == mesh.indices@.len(),
            mesh.texcoord_indices@.len() == 0 || mesh.texcoord_indices@.len()
                == mesh.indices@.len(),
            forall|i: int| 0 <= i < j ==> #[trigger] keys@[i] == all[i],
            forall|i: int| 0 <= i < j ==> key_in_range(mesh@, #[trigger] keys@[i]),
        decreases corners.len() - j,
    {
        let corner = corners[j];
        let key = VertexKey {
            position: mesh.indices[corner],
            normal: if has_normals {
                Some(mesh.normal_indices[corner])
            } else {
                None
            },
            texcoord: if has_texcoords {
                Some(mesh.texcoord_indices[corner])
            } else {
                None
            },
        };
        assert(key == all[j as int]);
        let normal_fits = match key.normal {
            Some(n) => (n as usize) < normal_count,
            None => true,
        };
        let texcoord_fits = match key.texcoord {
            Some(t) => (t as usize) < texcoord_count,
            None => true,
        };
        if key.position as usize >= position_count || !normal_fits || !texcoord_fits {
            assert(!key_in_range(mesh@, all[j as int]));
            return None;
        }
        keys.push(key);
        j = j + 1;
    }
    assert(keys@ =~= all);
    Some(keys)
}

/// The index by which the key names its row of the attribute.
fn index_of(key: &VertexKey, attribute: Attribute) -> (r: Option<u32>)
    ensures
        r == index_in(*key, attribute),
{
    match attribute {
        Attribute::Position => Some(key.position),
        Attribute::Normal => key.normal,
        Attribute::Texcoord => key.texcoord,
    }
}

/// The rows of the attribute that the keys name in the pool.
fn pick(pool: &Vec<u32>, keys: &Vec<VertexKey>, attribute: Attribute) -> (r: Vec<u32>)
    requires
        rows_in_pool(pool@, keys@, attribute),
    ensures
        r@ == picked(pool@, keys@, attribute),
{
    let size = pool.len();
    let row: usize = match attribute {
        Attribute::Texcoord => 2,
        _ => 3,
    };
    let mut out: Vec<u32> = Vec::new();
    let mut j: usize = 0;
    assert(keys@.take(0) =~= Seq::<VertexKey>::empty());
    while j < keys.len()
        invariant
            j <= keys.len(),
            size == pool@.len(),
            row == width(attribute),
            rows_in_pool(pool@, keys@, attribute),
            out@ == picked(pool@, keys@.take(j as int), attribute),
        decreases keys.len() - j,
    {
        let at = match index_of(&keys[j], attribute) {
            Some(at) => at as usize,
            None => 0,
        };
        assert(index_in(keys@[j as int], attribute) == Some(at as u32) && (at as int) < size / row);
        assert(row * at + row <= size) by (nonlinear_arith)
            requires
                0 <= at < size / row,
                row == 2 || row == 3,
        ;
        assert(keys@.take(j + 1).drop_last() =~= keys@.take(j as int));
        assert(keys@.take(j + 1).last() == keys@[j as int]);
        let start = row * at;
        let ghost before = out@;
        let mut c: usize = 0;
        while c < row
            invariant
                c <= row,
                start + row <= size,
                size == pool@.len(),
                out@ == before + pool@.subrange(start as int, start + c),
            decreases row - c,
        {
            out.push(pool[start + c]);
            c = c + 1;
        }
        j = j + 1;
    }
    assert(keys@.take(j as int) =~= keys@);
    out
}

/// Makes the mesh a list of triangles over vertices with a single index, as
/// `prepared` says.
pub fn prepare(mesh: &RawMesh) -> (r: Result<RawMesh, MeshFault>)
    ensures
        match r {
            Ok(p) => prepared(mesh@) == Ok::<RawMeshView, MeshFault>(p@),
            Err(f) => prepared(mesh@) == Err::<RawMeshView, MeshFault>(f),
        },
{
    let corners = match corners_of_triangles(&mesh.face_arities, mesh.indices.len()) {
        None => {
            return Err(MeshFault::NotTriangles);
        },
        Some(c) => c,
    };
    proof {
        lemma_triangle_corners_in_mesh(mesh@.face_arities, mesh@.indices.len());
        assert forall|j: int| 0 <= j < corners@.len() implies #[trigger] corners@[j]
            < mesh.indices@.len() by {
            assert(places(corners@)[j] == corners@[j]);
        }
    }
    let has_normals = mesh.normal_indices.len() > 0;
    let has_texcoords = mesh.texcoord_indices.len() > 0;
    if !has_normals && !has_texcoords {
        return Ok(
            RawMesh {
                positions: slice_to_vec(mesh.positions.as_slice()),
                normals: slice_to_vec(mesh.normals.as_slice()),
                texcoords: slice_to_vec(mesh.texcoords.as_slice()),
                indices: gather(&mesh.indices, &corners),
                face_arities: Vec::new(),
                normal_indices: Vec::new(),
                texcoord_indices: Vec::new(),
                material_id: mesh.material_id,
            },
        );
    }
    if (has_normals && mesh.normal_indices.len() != mesh.indices.len()) || (has_texcoords
        && mesh.texcoord_indices.len() != mesh.indices.len()) {
        return Err(MeshFault::AttributeCount);
    }
    let keys = match keys_of(mesh, &corners) {
        None => {
            return Err(MeshFault::IndexOutOfRange);
        },
        Some(k) => k,
    };
    let (indices, unique) = match index_vertices(&keys) {
        None => {
            return Err(MeshFault::TooManyVertices);
        },
        Some(x) => x,
    };
    proof {
        crate::weld::lemma_first_seen(keys@);
        assert forall|j: int| 0 <= j < unique@.len() implies key_in_range(
            mesh@,
            #[trigger] unique@[j],
        ) by {
            let at = crate::weld::slot(keys@, unique@[j]);
            crate::weld::lemma_slot(keys@, unique@[j]);
            assert(keys@[at] == unique@[j]);
        }
        assert forall|j: int| 0 <= j < unique@.len() implies (has_normals ==> (
        #[trigger] unique@[j]).normal is Some) && (has_texcoords ==> unique@[j].texcoord is Some) by {
            let at = crate::weld::slot(keys@, unique@[j]);
            crate::weld::lemma_slot(keys@, unique@[j]);
            assert(keys@[at] == unique@[j]);
            assert(keys@[at] == key_of_corner(mesh@, places(corners@)[at]));
        }
        assert(indices@ =~= narrowed(welded(keys@))) by {
            assert(widened(indices@) == welded(keys@));
            assert forall|i: int| 0 <= i < indices@.len() implies indices@[i] == narrowed(
                welded(keys@),
            )[i] by {
                assert(widened(indices@)[i] == indices@[i]);
            }
        }
        assert(rows_in_pool(mesh.positions@, unique@, Attribute::Position));
        assert(has_normals ==> rows_in_pool(mesh.normals@, unique@, Attribute::Normal));
        assert(has_texcoords ==> rows_in_pool(mesh.texcoords@, unique@, Attribute::Texcoord));
    }
    let positions = pick(&mesh.positions, &unique, Attribute::Position);
    let normals = if has_normals {
        pick(&mesh.normals, &unique, Attribute::Normal)
    } else {
        Vec::new()
    };
    let texcoords = if has_texcoords {
        pick(&mesh.texcoords, &unique, Attribute::Texcoord)
    } else {
        Vec::new()
    };
    Ok(
        RawMesh {
            positions,
            normals,
            texcoords,
            indices,
            face_arities: Vec::new(),
            normal_indices: Vec::new(),
            texcoord_indices: Vec::new(),
            material_id: mesh.material_id,
        },
    )
}

} // verus!
