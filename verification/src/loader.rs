//! The loaders: from the bytes of a document to a mesh, or to the plan of a
//! scene.

use crate::document::{library_requests, requested_libraries, texts_view};
use crate::error::{ObjError, ObjErrorView};
use crate::mesh::{converted, well_formed, MeshConverter, MeshData, MeshDataView};
use crate::parser::{
    document_result, failure_of, find_library, library_position, library_table, load_failure,
    load_obj_data, material_origins, materials_contents, models_contents, origins_of,
    raw_materials, raw_models, MaterialLibrary, RawModelView,
};
use crate::scene::{plan_scene, planned_scene, ScenePlan, ScenePlanView};
use crate::settings::{
    extensions, gpu_options, LoadOptionsDef, MeshObjLoader, ObjLoader, ObjSettings,
};
use vstd::prelude::*;

verus! {

/// The meshes of the models.
pub open spec fn meshes_of(models: Seq<RawModelView>) -> Seq<crate::parser::RawMeshView> {
    Seq::new(models.len(), |k: int| models[k].mesh)
}

/// The mesh that a document makes under the settings: all its models put
/// together, or the error of the document.
pub open spec fn mesh_of_document(bytes: Seq<u8>, settings: ObjSettings) -> Result<
    MeshDataView,
    ObjError,
> {
    match document_result(bytes, settings.load_options, Seq::empty()) {
        Err(e) => Err(e),
        Ok(p) => converted(meshes_of(models_contents(p.models)), settings),
    }
}

/// The settings of the loader that knows no settings: the options for a
/// realtime renderer, and smooth normals where the document brings none.
pub open spec fn plain_settings() -> ObjSettings {
    ObjSettings {
        force_compute_normals: false,
        prefer_flat_normals: false,
        load_options: gpu_options(),
    }
}

/// The first of the names `requests` of which the table holds no library.
pub open spec fn missing_library(
    requests: Seq<Seq<char>>,
    table: Seq<(Seq<char>, Seq<u8>)>,
) -> Option<Seq<char>>
    decreases requests.len(),
{
    if requests.len() == 0 {
        None
    } else if library_position(table, requests[0]) is None {
        Some(requests[0])
    } else {
        missing_library(requests.drop_first(), table)
    }
}

/// The scene that a document makes with the libraries that the host has read
/// for it. The document is parsed with the options for a realtime renderer.
/// Where the parser could load no material and a library failed, the error
/// is `MaterialLoadError` with the path of the document and the first
/// library that the document asks for and the table does not hold. A
/// `mtllib` line asks for one library or more, and is served all of them or
/// none. The libraries lie beside the document, and the textures of a
/// material beside its library; a colour of a material is of CIE XYZ where
/// its library says so. Where several libraries hold a material of one name,
/// the first of them wins.
pub open spec fn scene_of_document(
    bytes: Seq<u8>,
    document: Seq<char>,
    libraries: Seq<(Seq<char>, Seq<u8>)>,
    settings: ObjSettings,
) -> Result<ScenePlanView, ObjErrorView> {
    match document_result(bytes, gpu_options(), libraries) {
        Err(e) => Err(e@),
        Ok(p) => match p.materials {
            Err(e) => Err(
                ObjErrorView::MaterialLoadError {
                    document,
                    library: missing_library(requested_libraries(bytes), libraries),
                    cause: failure_of(e),
                },
            ),
            Ok(materials) => match planned_scene(
                models_contents(p.models),
                materials_contents(materials),
                origins_of(bytes, libraries),
                document,
                settings,
            ) {
                Err(e) => Err(e@),
                Ok(scene) => Ok(scene),
            },
        },
    }
}

/// The first of the names `requests` of which the table holds no library.
#[verifier::loop_isolation(false)]
pub fn first_missing(requests: Vec<String>, libraries: &Vec<MaterialLibrary>) -> (r: Option<
    String,
>)
    ensures
        crate::parser::text_view(r) == missing_library(
            texts_view(requests@),
            library_table(libraries@),
        ),
{
    let ghost all = texts_view(requests@);
    let ghost table = library_table(libraries@);
    let mut rest = crate::mesh::reversed(requests);
    assert(all.skip(0) =~= all);
    let ghost mut k: int = 0;
    while rest.len() > 0
        invariant
            0 <= k <= all.len(),
            rest.len() == all.len() - k,
            table == library_table(libraries@),
            forall|j: int| 0 <= j < rest.len() ==> (#[trigger] rest@[j])@ == all[all.len() - 1 - j],
            missing_library(all, table) == missing_library(all.skip(k), table),
        decreases rest.len(),
    {
        let name = rest.pop().unwrap();
        proof {
            assert(all.skip(k)[0] == name@);
            assert(all.skip(k).drop_first() =~= all.skip(k + 1));
        }
        match find_library(libraries, &name) {
            None => {
                assert(missing_library(all.skip(k), table) == Some(name@));
                return Some(name);
            },
            Some(_) => {},
        }
        proof {
            k = k + 1;
        }
    }
    None
}

/// Loads a document as one mesh, as `mesh_of_document` says: without its
/// comments, the document has to be UTF-8 text that `document_verdict` and
/// the parser accept; the meshes of all its models are put together as
/// `converted` says. The material
/// libraries of the document are not read.
///
/// The mesh that comes out is well formed.
pub fn load_obj_as_mesh(bytes: &[u8], settings: &ObjSettings) -> (r: Result<MeshData, ObjError>)
    ensures
        match r {
            Ok(m) => mesh_of_document(bytes@, *settings) == Ok::<MeshDataView, ObjError>(m@)
                && well_formed(m@),
            Err(e) => mesh_of_document(bytes@, *settings) == Err::<MeshDataView, ObjError>(e),
        },
{
    let libraries: Vec<MaterialLibrary> = Vec::new();
    assert(library_table(libraries@) =~= Seq::empty());
    let parsed = match load_obj_data(bytes, &settings.load_options, &libraries) {
        Err(e) => {
            return Err(e);
        },
        Ok(p) => p,
    };
    let models = raw_models(&parsed.models);
    let converter = MeshConverter::from_models(models);
    assert(converter@ =~= meshes_of(models_contents(parsed@.models)));
    converter.convert(settings)
}

/// Loads a document as one mesh with the settings of `plain_settings`.
pub fn load_obj_from_bytes(bytes: &[u8]) -> (r: Result<MeshData, ObjError>)
    ensures
        match r {
            Ok(m) => mesh_of_document(bytes@, plain_settings()) == Ok::<MeshDataView, ObjError>(
                m@,
            ) && well_formed(m@),
            Err(e) => mesh_of_document(bytes@, plain_settings()) == Err::<MeshDataView, ObjError>(
                e,
            ),
        },
{
    let settings = ObjSettings {
        force_compute_normals: false,
        prefer_flat_normals: false,
        load_options: LoadOptionsDef::gpu(),
    };
    load_obj_as_mesh(bytes, &settings)
}

/// Loads a document as the plan of a scene, as `scene_of_document` says.
///
/// `document` is the path of the document, beside which its textures lie;
/// `libraries` holds the material libraries that the host has read for it,
/// under the names that `library_requests` gives.
pub fn load_obj_as_scene(
    bytes: &[u8],
    document: &str,
    libraries: &Vec<MaterialLibrary>,
    settings: &ObjSettings,
) -> (r: Result<ScenePlan, ObjError>)
    ensures
        match r {
            Ok(p) => scene_of_document(bytes@, document@, library_table(libraries@), *settings)
                == Ok::<ScenePlanView, ObjErrorView>(p@),
            Err(e) => scene_of_document(bytes@, document@, library_table(libraries@), *settings)
                == Err::<ScenePlanView, ObjErrorView>(e@),
        },
        r matches Ok(p) ==> forall|k: int|
            0 <= k < p@.meshes.len() ==> well_formed(#[trigger] p@.meshes[k].data),
{
    let options = LoadOptionsDef::gpu();
    let parsed = match load_obj_data(bytes, &options, libraries) {
        Err(e) => {
            return Err(e);
        },
        Ok(p) => p,
    };
    let materials = match &parsed.materials {
        Err(e) => {
            return Err(
                ObjError::MaterialLoadError {
                    document: document.to_owned(),
                    library: first_missing(library_requests(bytes), libraries),
                    cause: load_failure(*e),
                },
            );
        },
        Ok(materials) => raw_materials(materials),
    };
    let models = raw_models(&parsed.models);
    let origins = material_origins(bytes, libraries);
    plan_scene(models, materials, &origins, document, settings)
}

/// Loads a document as the plan of a scene with the settings of
/// `plain_settings`.
pub fn load_obj_scene(bytes: &[u8], document: &str, libraries: &Vec<MaterialLibrary>) -> (r:
    Result<ScenePlan, ObjError>)
    ensures
        match r {
            Ok(p) => scene_of_document(
                bytes@,
                document@,
                library_table(libraries@),
                plain_settings(),
            ) == Ok::<ScenePlanView, ObjErrorView>(p@),
            Err(e) => scene_of_document(
                bytes@,
                document@,
                library_table(libraries@),
                plain_settings(),
            ) == Err::<ScenePlanView, ObjErrorView>(e@),
        },
{
    let settings = ObjSettings {
        force_compute_normals: false,
        prefer_flat_normals: false,
        load_options: LoadOptionsDef::gpu(),
    };
    load_obj_as_scene(bytes, document, libraries, &settings)
}

impl MeshObjLoader {
    /// Loads the bytes that the host has read as one mesh: `load_obj_as_mesh`.
    pub fn load(&self, bytes: &[u8], settings: &ObjSettings) -> (r: Result<MeshData, ObjError>)
        ensures
            match r {
                Ok(m) => mesh_of_document(bytes@, *settings) == Ok::<MeshDataView, ObjError>(m@)
                    && well_formed(m@),
                Err(e) => mesh_of_document(bytes@, *settings) == Err::<MeshDataView, ObjError>(e),
            },
    {
        load_obj_as_mesh(bytes, settings)
    }

    /// The extensions of the files that the loader takes: `obj` and `OBJ`.
    pub fn extensions(&self) -> (r: Vec<&'static str>)
        ensures
            r@.len() == 2,
            r@[0]@ == "obj"@,
            r@[1]@ == "OBJ"@,
    {
        extensions()
    }
}

impl ObjLoader {
    /// Loads the bytes that the host has read as the plan of a scene:
    /// `load_obj_as_scene`.
    pub fn load(
        &self,
        bytes: &[u8],
        document: &str,
        libraries: &Vec<MaterialLibrary>,
        settings: &ObjSettings,
    ) -> (r: Result<ScenePlan, ObjError>)
        ensures
            match r {
                Ok(p) => scene_of_document(
                    bytes@,
                    document@,
                    library_table(libraries@),
                    *settings,
                ) == Ok::<ScenePlanView, ObjErrorView>(p@),
                Err(e) => scene_of_document(
                    bytes@,
                    document@,
                    library_table(libraries@),
                    *settings,
                ) == Err::<ScenePlanView, ObjErrorView>(e@),
            },
    {
        load_obj_as_scene(bytes, document, libraries, settings)
    }

    /// The extensions of the files that the loader takes: `obj` and `OBJ`.
    pub fn extensions(&self) -> (r: Vec<&'static str>)
        ensures
            r@.len() == 2,
            r@[0]@ == "obj"@,
            r@[1]@ == "OBJ"@,
    {
        extensions()
    }
}

/// Loading is a function of the bytes and the settings: the same document
/// under the same settings makes the same mesh, index for index and vertex
/// for vertex.
pub proof fn lemma_load_is_deterministic(
    first: Seq<u8>,
    second: Seq<u8>,
    first_settings: ObjSettings,
    second_settings: ObjSettings,
)
    requires
        first == second,
        first_settings == second_settings,
    ensures
        mesh_of_document(first, first_settings) == mesh_of_document(second, second_settings),
{
}

} // verus!
