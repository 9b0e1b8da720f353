//! Loading of Wavefront OBJ documents and their MTL material libraries into
//! renderer-ready mesh and material descriptions.
//!
//! The bytes of a document are checked line by line and parsed. The faces of
//! each parsed mesh are split into triangles, and its vertices are given one
//! index each. The meshes are then put together to one mesh
//! (`load_obj_as_mesh`), or each becomes a mesh of the plan of a scene with
//! one entity for each model and one material for each material of the
//! libraries (`load_obj_as_scene`). Reading files, decoding images and
//! building the objects of a renderer are left to the host.
//!
//! Floating-point values are carried as their IEEE-754 single-precision bit
//! patterns (`u32`), so that every function here is a function on integers.

pub mod document;
pub mod error;
pub mod face;
pub mod label;
pub mod library;
pub mod loader;
pub mod mesh;
pub mod number;
pub mod parser;
pub mod prepare;
pub mod scene;
pub mod settings;
pub mod text;
pub mod texture;
pub mod triangulate;
pub mod weld;

pub use document::{check_document, library_requests, read_text};
pub use text::strip_comments;
pub use error::{ErrorKind, LoadFailure, MeshFault, ObjError};
pub use face::{parse_face_vertex, FaceVertex, PoolSizes, RefFault};
pub use label::{material_label, mesh_label};
pub use library::{check_library, color_spaces, read_library, ColorSpaces};
pub use loader::{load_obj_as_mesh, load_obj_as_scene, load_obj_from_bytes, load_obj_scene};
pub use mesh::{convert_uv, convert_vec3, MeshConverter, MeshData, Normals};
pub use number::{first_number, word_is_float};
pub use parser::{
    load_obj_data, material_origins, MaterialLibrary, MaterialOrigin, Parsed, RawMaterial, RawMesh,
    RawModel,
};
pub use prepare::prepare;
pub use scene::{
    choose_material, home_of_library, number_of, plan_scene, resolve_texture, texture_extension,
    EntityPlan, MaterialPlan, MeshPlan, ScenePlan,
};
pub use settings::{extensions, LoadOptionsDef, MeshObjLoader, ObjLoader, ObjPlugin, ObjSettings};
pub use texture::{file_extension, sibling_path, texture_file_name};
pub use triangulate::corners_of_triangles;
pub use weld::{index_vertices, VertexKey};
