//! Putting the arrays of one or more parsed meshes together to one mesh.
//!
//! The vertices of the meshes follow each other; the indices of each mesh are
//! raised by the number of vertices before it. Positions and normals are
//! rows of three values, texture coordinates rows of two.

use crate::error::{MeshFault, ObjError};
use crate::parser::{RawMesh, RawMeshView, RawModel};
use crate::prepare::{prepare, prepared, width, Attribute};
use crate::settings::ObjSettings;
use vstd::prelude::*;

verus! {

/// The rows of `row` values that the flat array `s` holds; what is left over
/// at the end does not count.
pub open spec fn chunks(s: Seq<u32>, row: nat) -> Seq<Seq<u32>> {
    Seq::new(s.len() / row, |i: int| s.subrange(row * i, row * i + row))
}

/// The rows of three that the flat array `s` holds.
pub open spec fn triples(s: Seq<u32>) -> Seq<Seq<u32>> {
    chunks(s, 3)
}

/// The rows of two that the flat array `s` holds.
pub open spec fn pairs(s: Seq<u32>) -> Seq<Seq<u32>> {
    chunks(s, 2)
}

/// The flat array in which the mesh holds the attribute.
pub open spec fn stream(mesh: RawMeshView, attribute: Attribute) -> Seq<u32> {
    match attribute {
        Attribute::Position => mesh.positions,
        Attribute::Normal => mesh.normals,
        Attribute::Texcoord => mesh.texcoords,
    }
}

/// The rows of the attribute of all meshes, one mesh after the other.
pub open spec fn merged_rows(meshes: Seq<RawMeshView>, attribute: Attribute) -> Seq<Seq<u32>>
    decreases meshes.len(),
{
    if meshes.len() == 0 {
        Seq::empty()
    } else {
        merged_rows(meshes.drop_last(), attribute) + chunks(
            stream(meshes.last(), attribute),
            width(attribute),
        )
    }
}

/// The positions of all meshes, one after the other.
pub open spec fn merged_positions(meshes: Seq<RawMeshView>) -> Seq<Seq<u32>> {
    merged_rows(meshes, Attribute::Position)
}

/// The normals of all meshes, one after the other.
pub open spec fn merged_normals(meshes: Seq<RawMeshView>) -> Seq<Seq<u32>> {
    merged_rows(meshes, Attribute::Normal)
}

/// The texture coordinates of all meshes, one after the other.
pub open spec fn merged_uvs(meshes: Seq<RawMeshView>) -> Seq<Seq<u32>> {
    merged_rows(meshes, Attribute::Texcoord)
}

/// The indices `indices`, each raised by `offset`.
pub open spec fn raised(indices: Seq<u32>, offset: int) -> Seq<int> {
    Seq::new(indices.len(), |j: int| indices[j] + offset)
}

/// The indices of all meshes, one after the other, those of each mesh raised
/// by the number of vertices of the meshes before it.
pub open spec fn merged_indices(meshes: Seq<RawMeshView>) -> Seq<int>
    decreases meshes.len(),
{
    if meshes.len() == 0 {
        Seq::empty()
    } else {
        merged_indices(meshes.drop_last()) + raised(
            meshes.last().indices,
            merged_positions(meshes.drop_last()).len() as int,
        )
    }
}

/// Whether every index is one that 32 bits can hold.
pub open spec fn fits(indices: Seq<int>) -> bool {
    forall|i: int| 0 <= i < indices.len() ==> #[trigger] indices[i] <= u32::MAX
}

/// The indices as 32-bit values.
pub open spec fn narrowed(indices: Seq<int>) -> Seq<u32> {
    Seq::new(indices.len(), |i: int| indices[i] as u32)
}

/// Whether every index of the mesh points at one of its own vertices.
pub open spec fn in_range(mesh: RawMeshView) -> bool {
    forall|j: int|
        0 <= j < mesh.indices.len() ==> (#[trigger] mesh.indices[j] as int) < mesh.positions.len()
            / 3
}

/// Whether every mesh has indices that point at its own vertices.
pub open spec fn all_in_range(meshes: Seq<RawMeshView>) -> bool {
    forall|k: int| 0 <= k < meshes.len() ==> in_range(#[trigger] meshes[k])
}

/// Whether the mesh brings the attribute, with a row for each of its
/// vertices.
pub open spec fn brings(mesh: RawMeshView, attribute: Attribute) -> bool {
    stream(mesh, attribute).len() > 0 && stream(mesh, attribute).len() / width(attribute)
        == mesh.positions.len() / 3
}

/// Whether every mesh brings the attribute for each of its vertices.
pub open spec fn all_bring(meshes: Seq<RawMeshView>, attribute: Attribute) -> bool {
    forall|k: int| 0 <= k < meshes.len() ==> brings(#[trigger] meshes[k], attribute)
}

/// Whether every mesh brings a normal for each of its vertices.
pub open spec fn all_have_normals(meshes: Seq<RawMeshView>) -> bool {
    all_bring(meshes, Attribute::Normal)
}

/// Whether every mesh brings a texture coordinate for each of its vertices.
pub open spec fn all_have_uvs(meshes: Seq<RawMeshView>) -> bool {
    all_bring(meshes, Attribute::Texcoord)
}

/// Where the normals of a mesh come from.
#[derive(Debug, Clone, PartialEq, Eq)]
pub enum Normals {
    /// From the document: one normal for each vertex.
    Source(Vec<[u32; 3]>),
    /// To be computed for each triangle, after every triangle has been given
    /// vertices of its own.
    Flat,
    /// To be computed for each vertex, as the mean of its triangles.
    Smooth,
}

/// What a `Normals` holds.
pub enum NormalsView {
    Source(Seq<Seq<u32>>),
    Flat,
    Smooth,
}

/// What a vector of rows holds.
pub open spec fn rows<const N: usize>(v: Seq<[u32; N]>) -> Seq<Seq<u32>> {
    Seq::new(v.len(), |i: int| v[i]@)
}

impl View for Normals {
    type V = NormalsView;

    open spec fn view(&self) -> NormalsView {
        match self {
            Normals::Source(n) => NormalsView::Source(rows(n@)),
            Normals::Flat => NormalsView::Flat,
            Normals::Smooth => NormalsView::Smooth,
        }
    }
}

/// A mesh that is ready for a renderer: a list of triangles over vertices
/// with their attributes.
#[derive(Debug, Clone, PartialEq, Eq)]
pub struct MeshData {
    /// Three indices for each triangle.
    pub indices: Vec<u32>,
    /// The position of each vertex.
    pub positions: Vec<[u32; 3]>,
    /// The texture coordinate of each vertex, where the document gives them,
    /// with the vertical axis as in the document.
    pub uvs: Option<Vec<[u32; 2]>>,
    /// The normal of each vertex, or how to compute them.
    pub normals: Normals,
}

/// What a `MeshData` holds.
pub struct MeshDataView {
    pub indices: Seq<u32>,
    pub positions: Seq<Seq<u32>>,
    pub uvs: Option<Seq<Seq<u32>>>,
    pub normals: NormalsView,
}

impl View for MeshData {
    type V = MeshDataView;

    open spec fn view(&self) -> MeshDataView {
        MeshDataView {
            indices: self.indices@,
            positions: rows(self.positions@),
            uvs: match self.uvs {
                Some(u) => Some(rows(u@)),
                None => None,
            },
            normals: self.normals@,
        }
    }
}

/// Whether the arrays of a mesh fit together: the indices are a list of
/// triangles, each index points at a vertex, and each attribute that is
/// present has one row for each vertex.
pub open spec fn well_formed(m: MeshDataView) -> bool {
    &&& m.indices.len() % 3 == 0
    &&& forall|i: int| 0 <= i < m.indices.len() ==> (#[trigger] m.indices[i] as int) < m.positions.len()
    &&& (m.uvs matches Some(u) ==> u.len() == m.positions.len())
    &&& (m.normals matches NormalsView::Source(n) ==> n.len() == m.positions.len())
}

/// Where the normals of the merged mesh come from: the document where every
/// mesh brings a normal for each of its vertices and the settings do not
/// force a computation, else the computation that the settings prefer.
pub open spec fn chosen_normals(meshes: Seq<RawMeshView>, settings: ObjSettings) -> NormalsView {
    if all_have_normals(meshes) && !settings.force_compute_normals {
        NormalsView::Source(merged_normals(meshes))
    } else if settings.prefer_flat_normals {
        NormalsView::Flat
    } else {
        NormalsView::Smooth
    }
}

/// The texture coordinates of the merged mesh: those of the document where
/// every mesh brings one for each of its vertices. Where the faces of a
/// document name a texture coordinate for some vertices only, the mesh has
/// none.
pub open spec fn chosen_uvs(meshes: Seq<RawMeshView>) -> Option<Seq<Seq<u32>>> {
    if all_have_uvs(meshes) {
        Some(merged_uvs(meshes))
    } else {
        None
    }
}

/// The mesh that meshes of triangles with a single index make together under
/// the settings, or why they make none.
pub open spec fn merged(meshes: Seq<RawMeshView>, settings: ObjSettings) -> Result<
    MeshDataView,
    ObjError,
> {
    let mesh = MeshDataView {
        indices: narrowed(merged_indices(meshes)),
        positions: merged_positions(meshes),
        uvs: chosen_uvs(meshes),
        normals: chosen_normals(meshes, settings),
    };
    if !all_in_range(meshes) {
        Err(ObjError::InvalidMesh(MeshFault::IndexOutOfRange))
    } else if !fits(merged_indices(meshes)) {
        Err(ObjError::InvalidMesh(MeshFault::TooManyVertices))
    } else if mesh.indices.len() % 3 != 0 {
        Err(ObjError::InvalidMesh(MeshFault::NotTriangles))
    } else {
        Ok(mesh)
    }
}

/// The first `upto` meshes, each prepared as `prepared` says; or the fault of
/// the first mesh that cannot be prepared.
pub open spec fn prepared_all(meshes: Seq<RawMeshView>, upto: int) -> Result<
    Seq<RawMeshView>,
    MeshFault,
>
    decreases upto,
{
    if upto <= 0 {
        Ok(Seq::empty())
    } else {
        match prepared_all(meshes, upto - 1) {
            Err(f) => Err(f),
            Ok(before) => match prepared(meshes[upto - 1]) {
                Err(f) => Err(f),
                Ok(p) => Ok(before.push(p)),
            },
        }
    }
}

/// The mesh that parsed meshes make together under the settings, or why
/// they make none: each mesh is prepared, and the prepared meshes are put
/// together as `merged` says.
pub open spec fn converted(meshes: Seq<RawMeshView>, settings: ObjSettings) -> Result<
    MeshDataView,
    ObjError,
> {
    match prepared_all(meshes, meshes.len() as int) {
        Err(f) => Err(ObjError::InvalidMesh(f)),
        Ok(plain) => merged(plain, settings),
    }
}

/// What a sequence of meshes holds.
pub open spec fn meshes_view(meshes: Seq<RawMesh>) -> Seq<RawMeshView> {
    Seq::new(meshes.len(), |k: int| meshes[k]@)
}

/// The merged indices of the first meshes are the first of all merged
/// indices, and likewise the merged positions.
pub proof fn lemma_merged_prefix(meshes: Seq<RawMeshView>, k: int)
    requires
        0 <= k <= meshes.len(),
    ensures
        merged_indices(meshes.take(k)).len() <= merged_indices(meshes).len(),
        merged_indices(meshes.take(k)) == merged_indices(meshes).take(
            merged_indices(meshes.take(k)).len() as int,
        ),
        merged_positions(meshes.take(k)).len() <= merged_positions(meshes).len(),
    decreases meshes.len() - k,
{
    if k == meshes.len() {
        assert(meshes.take(k) =~= meshes);
        assert(merged_indices(meshes).take(merged_indices(meshes).len() as int) =~= merged_indices(
            meshes,
        ));
    } else {
        lemma_merged_prefix(meshes.drop_last(), k);
        assert(meshes.drop_last().take(k) =~= meshes.take(k));
        assert(merged_indices(meshes.take(k)) =~= merged_indices(meshes).take(
            merged_indices(meshes.take(k)).len() as int,
        ));
    }
}

/// Where every mesh points at its own vertices, every merged index points at
/// a merged vertex.
pub proof fn lemma_merged_indices_in_range(meshes: Seq<RawMeshView>)
    requires
        all_in_range(meshes),
    ensures
        forall|i: int|
            0 <= i < merged_indices(meshes).len() ==> 0 <= #[trigger] merged_indices(meshes)[i]
                < merged_positions(meshes).len(),
    decreases meshes.len(),
{
    if meshes.len() > 0 {
        let front = meshes.drop_last();
        assert(all_in_range(front)) by {
            assert forall|k: int| 0 <= k < front.len() implies in_range(#[trigger] front[k]) by {
                assert(front[k] == meshes[k]);
            }
        }
        lemma_merged_indices_in_range(front);
        let last = meshes.last();
        assert(in_range(last)) by {
            assert(last == meshes[meshes.len() - 1]);
        }
        let offset = merged_positions(front).len() as int;
        assert forall|i: int| 0 <= i < merged_indices(meshes).len() implies 0
            <= #[trigger] merged_indices(meshes)[i] < merged_positions(meshes).len() by {
            let before = merged_indices(front).len();
            if i >= before {
                let j = i - before;
                assert(merged_indices(meshes)[i] == raised(last.indices, offset)[j]);
                assert((last.indices[j] as int) < last.positions.len() / 3);
            } else {
                assert(merged_indices(meshes)[i] == merged_indices(front)[i]);
            }
        }
    }
}

/// Where every mesh brings an attribute for each of its vertices, the merged
/// mesh has one row of it for each of its vertices.
pub proof fn lemma_merged_attribute_counts(meshes: Seq<RawMeshView>, attribute: Attribute)
    requires
        all_bring(meshes, attribute),
    ensures
        merged_rows(meshes, attribute).len() == merged_positions(meshes).len(),
    decreases meshes.len(),
{
    if meshes.len() > 0 {
        let front = meshes.drop_last();
        assert(brings(meshes[meshes.len() - 1], attribute));
        assert forall|k: int| 0 <= k < front.len() implies brings(
            #[trigger] front[k],
            attribute,
        ) by {
            assert(brings(meshes[k], attribute));
        }
        lemma_merged_attribute_counts(front, attribute);
    }
}

/// Every mesh that `merged` gives is well formed.
pub proof fn lemma_merged_well_formed(meshes: Seq<RawMeshView>, settings: ObjSettings)
    ensures
        merged(meshes, settings) matches Ok(m) ==> well_formed(m),
{
    if merged(meshes, settings) is Ok {
        lemma_merged_indices_in_range(meshes);
        if all_have_normals(meshes) {
            lemma_merged_attribute_counts(meshes, Attribute::Normal);
        }
        if all_have_uvs(meshes) {
            lemma_merged_attribute_counts(meshes, Attribute::Texcoord);
        }
        let m = merged(meshes, settings)->Ok_0;
        assert forall|i: int| 0 <= i < m.indices.len() implies (#[trigger] m.indices[i] as int)
            < m.positions.len() by {
            assert(merged_indices(meshes)[i] <= u32::MAX);
        }
    }
}

/// Every mesh that `converted` gives is well formed.
pub proof fn lemma_converted_well_formed(meshes: Seq<RawMeshView>, settings: ObjSettings)
    ensures
        converted(meshes, settings) matches Ok(m) ==> well_formed(m),
{
    if prepared_all(meshes, meshes.len() as int) is Ok {
        lemma_merged_well_formed(prepared_all(meshes, meshes.len() as int)->Ok_0, settings);
    }
}

/// A fault among the first meshes is the fault of all of them.
pub proof fn lemma_prepared_all_fault(meshes: Seq<RawMeshView>, upto: int, all: int)
    requires
        0 <= upto <= all,
        prepared_all(meshes, upto) is Err,
    ensures
        prepared_all(meshes, all) == prepared_all(meshes, upto),
    decreases all - upto,
{
    if upto < all {
        lemma_prepared_all_fault(meshes, upto, all - 1);
    }
}

/// Converting is a function of what the meshes hold: meshes that hold the
/// same arrays, in the same order, make the same mesh, index for index and
/// vertex for vertex.
pub proof fn lemma_conversion_is_deterministic(
    first: Seq<RawMeshView>,
    second: Seq<RawMeshView>,
    settings: ObjSettings,
)
    requires
        first.len() == second.len(),
        forall|k: int| 0 <= k < first.len() ==> first[k] == second[k],
    ensures
        converted(first, settings) == converted(second, settings),
{
    assert(first =~= second);
}

/// Putting meshes together keeps their order: the vertices of each mesh
/// stand together, after those of the meshes before it, and its indices
/// likewise, each raised by the number of the vertices before.
pub proof fn lemma_merged_order(meshes: Seq<RawMeshView>, k: int)
    requires
        0 <= k < meshes.len(),
    ensures
        merged_positions(meshes.take(k)).len() + triples(meshes[k].positions).len()
            <= merged_positions(meshes).len(),
        forall|j: int|
            0 <= j < triples(meshes[k].positions).len() ==> merged_positions(
                meshes,
            )[merged_positions(meshes.take(k)).len() + j] == #[trigger] triples(
                meshes[k].positions,
            )[j],
        merged_indices(meshes.take(k)).len() + meshes[k].indices.len() <= merged_indices(
            meshes,
        ).len(),
        forall|j: int|
            0 <= j < meshes[k].indices.len() ==> merged_indices(meshes)[merged_indices(
                meshes.take(k),
            ).len() + j] == (#[trigger] meshes[k].indices[j]) + merged_positions(
                meshes.take(k),
            ).len(),
    decreases meshes.len(),
{
    let front = meshes.drop_last();
    if k == meshes.len() - 1 {
        assert(meshes.take(k) =~= front);
        assert(meshes[k] == meshes.last());
    } else {
        lemma_merged_order(front, k);
        assert(front.take(k) =~= meshes.take(k));
        assert(front[k] == meshes[k]);
    }
}

/// Where no mesh brings normals, the normals of the merged mesh are
/// computed: flat or smooth, as the settings prefer.
pub proof fn lemma_absent_normals_are_computed(meshes: Seq<RawMeshView>, settings: ObjSettings)
    requires
        meshes.len() > 0,
        forall|k: int| 0 <= k < meshes.len() ==> (#[trigger] meshes[k]).normals.len() == 0,
    ensures
        merged(meshes, settings) matches Ok(m) ==> m.normals == (if settings.prefer_flat_normals {
            NormalsView::Flat
        } else {
            NormalsView::Smooth
        }),
{
    assert(meshes[0].normals.len() == 0);
}

/// The same elements in the opposite order.
pub fn reversed<T>(v: Vec<T>) -> (r: Vec<T>)
    ensures
        r@ == v@.reverse(),
{
    let ghost all = v@;
    let mut v = v;
    let mut out: Vec<T> = Vec::new();
    while v.len() > 0
        invariant
            v.len() + out.len() == all.len(),
            v@ == all.take(v.len() as int),
            forall|j: int| 0 <= j < out.len() ==> #[trigger] out@[j] == all[all.len() - 1 - j],
        decreases v.len(),
    {
        let x = v.pop().unwrap();
        out.push(x);
    }
    assert(out@ =~= all.reverse());
    out
}

/// Appends the rows of `N` values of `values` to `out`.
fn push_rows<const N: usize>(out: &mut Vec<[u32; N]>, values: &Vec<u32>)
    requires
        N == 2 || N == 3,
    ensures
        rows(final(out)@) == rows(old(out)@) + chunks(values@, N as nat),
{
    let size = values.len();
    let n = size / N;
    let ghost all = chunks(values@, N as nat);
    let mut c: usize = 0;
    assert(rows(out@) =~= rows(old(out)@) + all.take(0));
    while c < n
        invariant
            c <= n,
            N == 2 || N == 3,
            size == values@.len(),
            n == size / N,
            all == chunks(values@, N as nat),
            rows(out@) == rows(old(out)@) + all.take(c as int),
        decreases n - c,
    {
        assert(N * c + N <= size) by (nonlinear_arith)
            requires
                0 <= c < size / N,
                N == 2 || N == 3,
        ;
        let start = N * c;
        let mut row: [u32; N] = [0u32; N];
        let mut i: usize = 0;
        while i < N
            invariant
                i <= N,
                start + N <= size,
                size == values@.len(),
                forall|k: int| 0 <= k < i ==> row@[k] == values@[start + k],
            decreases N - i,
        {
            row[i] = values[start + i];
            i = i + 1;
        }
        assert(row@ =~= values@.subrange(N * c, N * c + N));
        let ghost before = out@;
        out.push(row);
        assert(rows(out@) =~= rows(before).push(row@));
        assert(all.take(c + 1) =~= all.take(c as int).push(row@));
        c = c + 1;
    }
    assert(all.take(n as int) =~= all);
}

/// The rows of three of a flat array.
pub fn convert_vec3(values: &Vec<u32>) -> (r: Vec<[u32; 3]>)
    ensures
        rows(r@) == triples(values@),
{
    let mut out: Vec<[u32; 3]> = Vec::new();
    assert(rows(out@) =~= Seq::<Seq<u32>>::empty());
    push_rows(&mut out, values);
    assert(rows(out@) =~= triples(values@));
    out
}

/// The rows of two of a flat array of texture coordinates, with the vertical
/// axis as in the array.
pub fn convert_uv(values: &Vec<u32>) -> (r: Vec<[u32; 2]>)
    ensures
        rows(r@) == pairs(values@),
{
    let mut out: Vec<[u32; 2]> = Vec::new();
    assert(rows(out@) =~= Seq::<Seq<u32>>::empty());
    push_rows(&mut out, values);
    assert(rows(out@) =~= pairs(values@));
    out
}

/// Puts the arrays of parsed meshes together to one mesh.
#[derive(Debug, Clone, PartialEq, Eq)]
pub struct MeshConverter {
    meshes: Vec<RawMesh>,
}

impl View for MeshConverter {
    type V = Seq<RawMeshView>;

    closed spec fn view(&self) -> Seq<RawMeshView> {
        meshes_view(self.meshes@)
    }
}

impl MeshConverter {
    /// A converter for the meshes, in their order.
    pub fn new(meshes: Vec<RawMesh>) -> (r: MeshConverter)
        ensures
            r@ == meshes_view(meshes@),
    {
        MeshConverter { meshes }
    }

    /// A converter for the mesh of one model.
    pub fn from_model(model: RawModel) -> (r: MeshConverter)
        ensures
            r@ == seq![model@.mesh],
    {
        let mut meshes: Vec<RawMesh> = Vec::new();
        meshes.push(model.mesh);
        assert(meshes_view(meshes@) =~= seq![model@.mesh]);
        MeshConverter { meshes }
    }

    /// A converter for the meshes of the models, in their order.
    pub fn from_models(models: Vec<RawModel>) -> (r: MeshConverter)
        ensures
            r@ == Seq::new(models@.len(), |k: int| models@[k]@.mesh),
    {
        let ghost all = models@;
        let mut rest = reversed(models);
        let mut meshes: Vec<RawMesh> = Vec::new();
        while rest.len() > 0
            invariant
                meshes.len() + rest.len() == all.len(),
                forall|j: int| 0 <= j < rest.len() ==> #[trigger] rest@[j] == all[all.len() - 1 - j],
                forall|j: int| 0 <= j < meshes.len() ==> (#[trigger] meshes@[j])@ == all[j]@.mesh,
            decreases rest.len(),
        {
            let model = rest.pop().unwrap();
            meshes.push(model.mesh);
        }
        assert(meshes_view(meshes@) =~= Seq::new(all.len(), |k: int| all[k]@.mesh));
        MeshConverter { meshes }
    }

    /// The indices of all meshes, those of each mesh raised by the number of
    /// vertices before it; `None` where an index becomes more than 32 bits
    /// hold.
    pub fn indices(&self) -> (r: Option<Vec<u32>>)
        ensures
            match r {
                Some(v) => fits(merged_indices(self@)) && v@ == narrowed(merged_indices(self@)),
                None => !fits(merged_indices(self@)),
            },
    {
        let ghost all = self@;
        let mut data: Vec<u32> = Vec::new();
        // The number of vertices before the mesh, where 32 bits hold it.
        let mut offset: Option<u32> = Some(0);
        let mut k: usize = 0;
        assert(all.take(0) =~= Seq::<RawMeshView>::empty());
        while k < self.meshes.len()
            invariant
                k <= self.meshes.len(),
                all == self@,
                all.len() == self.meshes.len(),
                fits(merged_indices(all.take(k as int))),
                data@ == narrowed(merged_indices(all.take(k as int))),
                match offset {
                    Some(o) => o == merged_positions(all.take(k as int)).len(),
                    None => merged_positions(all.take(k as int)).len() > u32::MAX,
                },
            decreases self.meshes.len() - k,
        {
            let mesh = &self.meshes[k];
            let ghost front = all.take(k as int);
            let ghost next = all.take(k + 1);
            let ghost before = merged_positions(front).len() as int;
            proof {
                assert(next.drop_last() =~= front);
                assert(next.last() == mesh@);
                assert(all[k as int] == mesh@);
                lemma_merged_prefix(all, k + 1);
            }
            let ghost part = raised(mesh@.indices, before);
            let ghost start = data@;
            assert(merged_indices(next) == merged_indices(front) + part);
            let mut j: usize = 0;
            while j < mesh.indices.len()
                invariant
                    j <= mesh.indices.len(),
                    part == raised(mesh@.indices, before),
                    before == merged_positions(front).len(),
                    start == narrowed(merged_indices(front)),
                    fits(merged_indices(front)),
                    merged_indices(next) == merged_indices(front) + part,
                    all == self@,
                    merged_indices(next).len() <= merged_indices(all).len(),
                    merged_indices(next) == merged_indices(all).take(
                        merged_indices(next).len() as int,
                    ),
                    match offset {
                        Some(o) => o == before,
                        None => before > u32::MAX,
                    },
                    forall|i: int| 0 <= i < j ==> #[trigger] part[i] <= u32::MAX,
                    data@ == start + narrowed(part.take(j as int)),
                decreases mesh.indices.len() - j,
            {
                let shifted = match offset {
                    Some(o) => mesh.indices[j].checked_add(o),
                    None => None,
                };
                match shifted {
                    Some(v) => {
                        let ghost so_far = data@;
                        data.push(v);
                        assert(data@ =~= start + narrowed(part.take(j + 1))) by {
                            assert(narrowed(part.take(j + 1)) =~= narrowed(
                                part.take(j as int),
                            ).push(v));
                        }
                    },
                    None => {
                        proof {
                            let at = merged_indices(front).len() + j;
                            assert(merged_indices(next)[at] == part[j as int]);
                            assert(merged_indices(all)[at] == merged_indices(next)[at]);
                            assert(merged_indices(all)[at] > u32::MAX);
                        }
                        return None;
                    },
                }
                j = j + 1;
            }
            proof {
                assert(part.take(j as int) =~= part);
                assert(fits(merged_indices(next))) by {
                    assert forall|i: int| 0 <= i < merged_indices(next).len() implies (
                    #[trigger] merged_indices(next)[i]) <= u32::MAX by {
                        let n0 = merged_indices(front).len();
                        if i < n0 {
                            assert(merged_indices(next)[i] == merged_indices(front)[i]);
                        } else {
                            assert(merged_indices(next)[i] == part[i - n0]);
                        }
                    }
                }
                assert(narrowed(merged_indices(next)) =~= start + narrowed(part));
            }
            let count = mesh.positions.len() / 3;
            offset = match offset {
                Some(o) => {
                    let sum: u64 = o as u64 + count as u64;
                    if sum <= u32::MAX as u64 {
                        Some(sum as u32)
                    } else {
                        None
                    }
                },
                None => None,
            };
            k = k + 1;
        }
        assert(all.take(k as int) =~= all);
        Some(data)
    }

    /// The rows of the attribute of all meshes, one mesh after the other.
    fn attribute_rows<const N: usize>(&self, attribute: Attribute) -> (r: Vec<[u32; N]>)
        requires
            N == width(attribute),
        ensures
            rows(r@) == merged_rows(self@, attribute),
    {
        let ghost all = self@;
        let mut data: Vec<[u32; N]> = Vec::new();
        let mut k: usize = 0;
        assert(all.take(0) =~= Seq::<RawMeshView>::empty());
        assert(rows(data@) =~= merged_rows(all.take(0), attribute));
        while k < self.meshes.len()
            invariant
                k <= self.meshes.len(),
                N == width(attribute),
                all == self@,
                all.len() == self.meshes.len(),
                rows(data@) == merged_rows(all.take(k as int), attribute),
            decreases self.meshes.len() - k,
        {
            proof {
                assert(all.take(k + 1).drop_last() =~= all.take(k as int));
                assert(all.take(k + 1).last() == self.meshes[k as int]@);
            }
            let mesh = &self.meshes[k];
            let values = match attribute {
                Attribute::Position => &mesh.positions,
                Attribute::Normal => &mesh.normals,
                Attribute::Texcoord => &mesh.texcoords,
            };
            assert(values@ == stream(mesh@, attribute));
            push_rows(&mut data, values);
            k = k + 1;
        }
        assert(all.take(k as int) =~= all);
        data
    }

    /// The positions of all meshes, one after the other.
    pub fn position(&self) -> (r: Vec<[u32; 3]>)
        ensures
            rows(r@) == merged_positions(self@),
    {
        self.attribute_rows(Attribute::Position)
    }

    /// The normals of all meshes, one after the other.
    pub fn normal(&self) -> (r: Vec<[u32; 3]>)
        ensures
            rows(r@) == merged_normals(self@),
    {
        self.attribute_rows(Attribute::Normal)
    }

    /// The texture coordinates of all meshes, one after the other.
    pub fn uv(&self) -> (r: Vec<[u32; 2]>)
        ensures
            rows(r@) == merged_uvs(self@),
    {
        self.attribute_rows(Attribute::Texcoord)
    }

    /// Whether every mesh brings the attribute for each of its vertices.
    fn every_mesh_brings(&self, attribute: Attribute) -> (r: bool)
        ensures
            r == all_bring(self@, attribute),
    {
        let mut k: usize = 0;
        while k < self.meshes.len()
            invariant
                k <= self.meshes.len(),
                self@.len() == self.meshes.len(),
                forall|j: int| 0 <= j < k ==> brings(#[trigger] self@[j], attribute),
            decreases self.meshes.len() - k,
        {
            let mesh = &self.meshes[k];
            let count = match attribute {
                Attribute::Position => mesh.positions.len() / 3,
                Attribute::Normal => mesh.normals.len() / 3,
                Attribute::Texcoord => mesh.texcoords.len() / 2,
            };
            let held = match attribute {
                Attribute::Position => mesh.positions.len(),
                Attribute::Normal => mesh.normals.len(),
                Attribute::Texcoord => mesh.texcoords.len(),
            };
            if held == 0 || count != mesh.positions.len() / 3 {
                assert(!brings(self@[k as int], attribute));
                return false;
            }
            assert(brings(self@[k as int], attribute));
            k = k + 1;
        }
        true
    }

    /// Whether every mesh brings a normal for each of its vertices.
    pub fn has_normal(&self) -> (r: bool)
        ensures
            r == all_have_normals(self@),
    {
        self.every_mesh_brings(Attribute::Normal)
    }

    /// Whether every mesh brings a texture coordinate for each of its
    /// vertices.
    pub fn has_uv(&self) -> (r: bool)
        ensures
            r == all_have_uvs(self@),
    {
        self.every_mesh_brings(Attribute::Texcoord)
    }

    /// Whether every index of every mesh points at a vertex of that mesh.
    pub fn is_in_range(&self) -> (r: bool)
        ensures
            r == all_in_range(self@),
    {
        let mut k: usize = 0;
        while k < self.meshes.len()
            invariant
                k <= self.meshes.len(),
                self@.len() == self.meshes.len(),
                forall|i: int| 0 <= i < k ==> in_range(#[trigger] self@[i]),
            decreases self.meshes.len() - k,
        {
            let mesh = &self.meshes[k];
            let count = mesh.positions.len() / 3;
            let mut j: usize = 0;
            while j < mesh.indices.len()
                invariant
                    j <= mesh.indices.len(),
                    k < self.meshes.len(),
                    self@.len() == self.meshes.len(),
                    mesh@ == self@[k as int],
                    count == mesh.positions.len() / 3,
                    forall|i: int| 0 <= i < j ==> (#[trigger] mesh@.indices[i] as int) < count,
                decreases mesh.indices.len() - j,
            {
                if mesh.indices[j] as usize >= count {
                    assert(!in_range(self@[k as int])) by {
                        assert(mesh@.indices[j as int] as int >= mesh@.positions.len() / 3);
                    }
                    return false;
                }
                j = j + 1;
            }
            k = k + 1;
        }
        true
    }

    /// Puts the meshes together to one mesh, as `converted` says: every mesh
    /// is made a list of triangles over vertices with a single index, and
    /// these are put together.
    ///
    /// The mesh that comes out is well formed.
    pub fn convert(&self, settings: &ObjSettings) -> (r: Result<MeshData, ObjError>)
        ensures
            match r {
                Ok(m) => converted(self@, *settings) == Ok::<MeshDataView, ObjError>(m@)
                    && well_formed(m@),
                Err(e) => converted(self@, *settings) == Err::<MeshDataView, ObjError>(e),
            },
    {
        let ghost all = self@;
        let mut plain: Vec<RawMesh> = Vec::new();
        let mut k: usize = 0;
        assert(meshes_view(plain@) =~= Seq::<RawMeshView>::empty());
        while k < self.meshes.len()
            invariant
                k <= self.meshes.len(),
                all == self@,
                all.len() == self.meshes.len(),
                plain@.len() == k,
                prepared_all(all, k as int) == Ok::<Seq<RawMeshView>, MeshFault>(
                    meshes_view(plain@),
                ),
            decreases self.meshes.len() - k,
        {
            let ghost before = meshes_view(plain@);
            assert(all[k as int] == self.meshes[k as int]@);
            match prepare(&self.meshes[k]) {
                Err(f) => {
                    proof {
                        assert(prepared_all(all, k + 1) == Err::<Seq<RawMeshView>, MeshFault>(f));
                        lemma_prepared_all_fault(all, k + 1, all.len() as int);
                    }
                    return Err(ObjError::InvalidMesh(f));
                },
                Ok(p) => {
                    plain.push(p);
                    assert(meshes_view(plain@) =~= before.push(plain@[k as int]@));
                },
            }
            k = k + 1;
        }
        let merger = MeshConverter { meshes: plain };
        merger.merge(settings)
    }

    /// Puts meshes of triangles with a single index together to one mesh, as
    /// `merged` says: the merged indices and positions, the texture
    /// coordinates where every mesh brings one for each of its vertices, and
    /// the normals of the document or the way to compute them that the
    /// settings choose.
    ///
    /// The mesh that comes out is well formed.
    pub fn merge(&self, settings: &ObjSettings) -> (r: Result<MeshData, ObjError>)
        ensures
            match r {
                Ok(m) => merged(self@, *settings) == Ok::<MeshDataView, ObjError>(m@)
                    && well_formed(m@),
                Err(e) => merged(self@, *settings) == Err::<MeshDataView, ObjError>(e),
            },
    {
        proof {
            lemma_merged_well_formed(self@, *settings);
        }
        if !self.is_in_range() {
            return Err(ObjError::InvalidMesh(MeshFault::IndexOutOfRange));
        }
        let indices = match self.indices() {
            None => {
                return Err(ObjError::InvalidMesh(MeshFault::TooManyVertices));
            },
            Some(v) => v,
        };
        if indices.len() % 3 != 0 {
            return Err(ObjError::InvalidMesh(MeshFault::NotTriangles));
        }
        let positions = self.position();
        let uvs = if self.has_uv() {
            Some(self.uv())
        } else {
            None
        };
        let normals = if self.has_normal() && !settings.force_compute_normals {
            Normals::Source(self.normal())
        } else if settings.prefer_flat_normals {
            Normals::Flat
        } else {
            Normals::Smooth
        };
        Ok(MeshData { indices, positions, uvs, normals })
    }
}

} // verus!
