//! What a caller can configure, and the loaders that a host registers.

use vstd::prelude::*;

verus! {

/// How a document is turned into index and attribute arrays.
#[derive(Debug, Clone, Copy, PartialEq, Eq, Structural)]
pub struct LoadOptionsDef {
    /// One index for positions, normals and texture coordinates together.
    pub single_index: bool,
    /// Every face is split into triangles.
    pub triangulate: bool,
    /// Points are left out. A face has three vertices or more: one of a
    /// single vertex is refused whatever this says.
    pub ignore_points: bool,
    /// Lines are left out. A face of two vertices is refused whatever this
    /// says.
    pub ignore_lines: bool,
}

/// Settings of the OBJ loaders.
#[derive(Debug, Clone, Copy, PartialEq, Eq, Structural)]
pub struct ObjSettings {
    /// Compute the normals even where the document supplies them.
    pub force_compute_normals: bool,
    /// Prefer flat normals over smooth normals when computing them.
    pub prefer_flat_normals: bool,
    /// How the document is turned into index and attribute arrays.
    pub load_options: LoadOptionsDef,
}

/// Adds support for OBJ documents to a host.
#[derive(Debug, Clone, Copy, PartialEq, Eq, Structural)]
pub struct ObjPlugin;

/// Loads a whole OBJ document as one mesh.
#[derive(Debug, Clone, Copy, PartialEq, Eq, Structural)]
pub struct MeshObjLoader;

/// Loads an OBJ document as a scene of one entity for each model.
#[derive(Debug, Clone, Copy, PartialEq, Eq, Structural)]
pub struct ObjLoader;

/// The options for meshes that go to a realtime renderer: triangulated, with
/// a single index, points and lines left out.
pub open spec fn gpu_options() -> LoadOptionsDef {
    LoadOptionsDef {
        single_index: true,
        triangulate: true,
        ignore_points: true,
        ignore_lines: true,
    }
}

/// The options for meshes that go to an offline renderer: the faces as they
/// are, with an index for each attribute, points and lines left out.
pub open spec fn offline_rendering_options() -> LoadOptionsDef {
    LoadOptionsDef {
        single_index: false,
        triangulate: false,
        ignore_points: true,
        ignore_lines: true,
    }
}

/// The settings with which the loader of a whole document as one mesh
/// starts: the normals of the document where it has them, smooth normals
/// where it has none, and the options for an offline renderer.
pub open spec fn mesh_settings() -> ObjSettings {
    ObjSettings {
        force_compute_normals: false,
        prefer_flat_normals: false,
        load_options: offline_rendering_options(),
    }
}

impl ObjSettings {
    /// The settings of `mesh_settings`.
    pub fn for_mesh() -> (r: ObjSettings)
        ensures
            r == mesh_settings(),
    {
        ObjSettings {
            force_compute_normals: false,
            prefer_flat_normals: false,
            load_options: LoadOptionsDef::offline_rendering(),
        }
    }
}

impl LoadOptionsDef {
    /// The options of `gpu_options`.
    pub fn gpu() -> (r: LoadOptionsDef)
        ensures
            r == gpu_options(),
    {
        LoadOptionsDef {
            single_index: true,
            triangulate: true,
            ignore_points: true,
            ignore_lines: true,
        }
    }

    /// The options of `offline_rendering_options`.
    pub fn offline_rendering() -> (r: LoadOptionsDef)
        ensures
            r == offline_rendering_options(),
    {
        LoadOptionsDef {
            single_index: false,
            triangulate: false,
            ignore_points: true,
            ignore_lines: true,
        }
    }
}

impl Default for LoadOptionsDef {
    /// Every option switched off: the arrays stay as close to the document
    /// as they can.
    fn default() -> (r: LoadOptionsDef)
        ensures
            !r.single_index && !r.triangulate && !r.ignore_points && !r.ignore_lines,
    {
        LoadOptionsDef {
            single_index: false,
            triangulate: false,
            ignore_points: false,
            ignore_lines: false,
        }
    }
}

impl Default for ObjSettings {
    /// The normals of the document where it has them, smooth normals where
    /// it has none, and the options for a realtime renderer, under which
    /// every face comes out as triangles.
    fn default() -> (r: ObjSettings)
        ensures
            r == (ObjSettings {
                force_compute_normals: false,
                prefer_flat_normals: false,
                load_options: gpu_options(),
            }),
    {
        ObjSettings {
            force_compute_normals: false,
            prefer_flat_normals: false,
            load_options: LoadOptionsDef::gpu(),
        }
    }
}

impl Default for ObjPlugin {
    fn default() -> (r: ObjPlugin)
        ensures
            r == ObjPlugin,
    {
        ObjPlugin
    }
}

impl Default for MeshObjLoader {
    fn default() -> (r: MeshObjLoader)
        ensures
            r == MeshObjLoader,
    {
        MeshObjLoader
    }
}

impl Default for ObjLoader {
    fn default() -> (r: ObjLoader)
        ensures
            r == ObjLoader,
    {
        ObjLoader
    }
}

/// Whether `extension` is one of the two spellings under which OBJ
/// documents are known: `obj` and `OBJ`.
pub open spec fn is_obj_extension(extension: Seq<char>) -> bool {
    extension == "obj"@ || extension == "OBJ"@
}

/// The extensions of the files that the loaders take: `obj` and `OBJ`.
pub fn extensions() -> (r: Vec<&'static str>)
    ensures
        r@.len() == 2,
        r@[0]@ == "obj"@,
        r@[1]@ == "OBJ"@,
        forall|e: Seq<char>| is_obj_extension(e) <==> (e == r@[0]@ || e == r@[1]@),
{
    let mut out: Vec<&'static str> = Vec::new();
    out.push("obj");
    out.push("OBJ");
    out
}

} // verus!
