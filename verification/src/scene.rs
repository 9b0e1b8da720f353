//! The plan of a scene: one mesh and one entity for each model of a
//! document, and one material for each material of its libraries.
//!
//! Every part is addressed by its position in the plan. A model whose
//! material the libraries do not hold gets the default material of the host;
//! its geometry stays.

use crate::error::{ObjError, ObjErrorView};
use crate::label::{decimal, material_label, mesh_label};
use crate::number::{first_number, leading_number};
use crate::mesh::{
    converted, lemma_converted_well_formed, well_formed, MeshConverter, MeshData, MeshDataView,
};
use crate::mesh::reversed;
use crate::library::{plain_colors, ColorSpaces};
use crate::parser::{
    origins_view, MaterialOrigin, MaterialOriginView, RawMaterial, RawMaterialView, RawModel,
    RawModelView,
};
use crate::settings::ObjSettings;
use crate::texture::{
    beside, decoded, extension_of, file_extension, map_file_name, sibling_path, text_of,
    texture_file_name,
};
use vstd::prelude::*;
use vstd::utf8::encode_utf8;

verus! {

/// A material of a scene.
#[derive(Debug, Clone, PartialEq, Eq)]
pub struct MaterialPlan {
    /// The label under which the material is registered.
    pub label: String,
    /// The name that the library gives the material.
    pub name: String,
    /// The three parts of the base colour: the diffuse colour.
    pub base_color: Option<[u32; 3]>,
    /// Whether the parts of the base colour are those of a colour of CIE
    /// XYZ; else they are red, green and blue.
    pub base_color_xyz: bool,
    /// The opacity of the base colour.
    pub opacity: Option<u32>,
    /// The path of the texture of the base colour.
    pub base_color_texture: Option<String>,
    /// The path of the normal map.
    pub normal_map_texture: Option<String>,
    /// Whether the material is blended by its opacity: it names a texture of
    /// the opacity.
    pub alpha_blend: bool,
    /// The roughness: the number that the library writes, as text.
    pub roughness: Option<String>,
    /// The metallic: the number that the library writes, as text.
    pub metallic: Option<String>,
    /// The thickness of the clearcoat: the number that the library writes,
    /// as text.
    pub clearcoat: Option<String>,
    /// The roughness of the clearcoat: the number that the library writes,
    /// as text.
    pub clearcoat_roughness: Option<String>,
    /// The strength of the anisotropy: the number that the library writes,
    /// as text.
    pub anisotropy: Option<String>,
    /// The rotation of the anisotropy: the number that the library writes,
    /// as text.
    pub anisotropy_rotation: Option<String>,
}

/// What a `MaterialPlan` holds.
pub struct MaterialPlanView {
    pub label: Seq<char>,
    pub name: Seq<char>,
    pub base_color: Option<Seq<u32>>,
    pub base_color_xyz: bool,
    pub opacity: Option<u32>,
    pub base_color_texture: Option<Seq<char>>,
    pub normal_map_texture: Option<Seq<char>>,
    pub alpha_blend: bool,
    pub roughness: Option<Seq<char>>,
    pub metallic: Option<Seq<char>>,
    pub clearcoat: Option<Seq<char>>,
    pub clearcoat_roughness: Option<Seq<char>>,
    pub anisotropy: Option<Seq<char>>,
    pub anisotropy_rotation: Option<Seq<char>>,
}

impl View for MaterialPlan {
    type V = MaterialPlanView;

    open spec fn view(&self) -> MaterialPlanView {
        MaterialPlanView {
            label: self.label@,
            name: self.name@,
            base_color: crate::parser::color_view(self.base_color),
            base_color_xyz: self.base_color_xyz,
            opacity: self.opacity,
            base_color_texture: crate::parser::text_view(self.base_color_texture),
            normal_map_texture: crate::parser::text_view(self.normal_map_texture),
            alpha_blend: self.alpha_blend,
            roughness: crate::parser::text_view(self.roughness),
            metallic: crate::parser::text_view(self.metallic),
            clearcoat: crate::parser::text_view(self.clearcoat),
            clearcoat_roughness: crate::parser::text_view(self.clearcoat_roughness),
            anisotropy: crate::parser::text_view(self.anisotropy),
            anisotropy_rotation: crate::parser::text_view(self.anisotropy_rotation),
        }
    }
}

/// A mesh of a scene.
#[derive(Debug, Clone, PartialEq, Eq)]
pub struct MeshPlan {
    /// The label under which the mesh is registered.
    pub label: String,
    /// Its arrays.
    pub data: MeshData,
}

/// What a `MeshPlan` holds.
pub struct MeshPlanView {
    pub label: Seq<char>,
    pub data: MeshDataView,
}

impl View for MeshPlan {
    type V = MeshPlanView;

    open spec fn view(&self) -> MeshPlanView {
        MeshPlanView { label: self.label@, data: self.data@ }
    }
}

/// An entity of a scene: a mesh with its material.
#[derive(Debug, Clone, Copy, PartialEq, Eq, Structural)]
pub struct EntityPlan {
    /// The position of the mesh among the meshes of the plan.
    pub mesh: usize,
    /// The position of the material among the materials of the plan; `None`
    /// for the default material of the host.
    pub material: Option<usize>,
}

/// The plan of a scene.
#[derive(Debug, Clone, PartialEq, Eq)]
pub struct ScenePlan {
    /// The materials, in the order of the libraries.
    pub materials: Vec<MaterialPlan>,
    /// The meshes, one for each model, in the order of the document.
    pub meshes: Vec<MeshPlan>,
    /// The entities, one for each model, in the order of the document.
    pub entities: Vec<EntityPlan>,
}

/// What a `ScenePlan` holds.
pub struct ScenePlanView {
    pub materials: Seq<MaterialPlanView>,
    pub meshes: Seq<MeshPlanView>,
    pub entities: Seq<EntityPlan>,
}

/// What a sequence of planned materials holds.
pub open spec fn material_plans_view(plans: Seq<MaterialPlan>) -> Seq<MaterialPlanView> {
    Seq::new(plans.len(), |k: int| plans[k]@)
}

/// What a sequence of planned meshes holds.
pub open spec fn mesh_plans_view(plans: Seq<MeshPlan>) -> Seq<MeshPlanView> {
    Seq::new(plans.len(), |k: int| plans[k]@)
}

impl View for ScenePlan {
    type V = ScenePlanView;

    open spec fn view(&self) -> ScenePlanView {
        ScenePlanView {
            materials: material_plans_view(self.materials@),
            meshes: mesh_plans_view(self.meshes@),
            entities: self.entities@,
        }
    }
}

/// The path of the texture that the map `map` of a material names, for a
/// material of the document `document`: the file name of the map, beside the
/// document. `None` where the material has no such map, the map names no
/// file, or the path is no text.
pub open spec fn resolved_texture(document: Seq<char>, map: Option<Seq<char>>) -> Option<
    Seq<char>,
> {
    match map {
        None => None,
        Some(m) => {
            let file = map_file_name(encode_utf8(m));
            if file.len() == 0 {
                None
            } else {
                decoded(beside(encode_utf8(document), file))
            }
        },
    }
}

/// The kind of image that the path of a texture names: the extension of its
/// file, where it has one that is not empty.
pub open spec fn image_kind(path: Seq<char>) -> Option<Seq<char>> {
    match extension_of(encode_utf8(path)) {
        None => None,
        Some(e) => if e.len() == 0 {
            None
        } else {
            decoded(e)
        },
    }
}

/// The number that a statement of a material writes: its first word, where
/// that writes a number.
pub open spec fn number_text(statement: Option<Seq<char>>) -> Option<Seq<char>> {
    match statement {
        None => None,
        Some(t) => match leading_number(encode_utf8(t)) {
            None => None,
            Some(w) => decoded(w),
        },
    }
}

/// The material of the scene that stands for the material `m` at the
/// position `index`; `home` is the path of the library that holds the
/// material, beside which its textures lie, and `spaces` tells which of its
/// colours are colours of CIE XYZ.
pub open spec fn planned_material(
    m: RawMaterialView,
    index: int,
    home: Seq<char>,
    spaces: ColorSpaces,
) -> MaterialPlanView {
    MaterialPlanView {
        label: "Material"@ + decimal(index as nat),
        name: m.name,
        base_color: m.diffuse,
        base_color_xyz: spaces.diffuse_xyz,
        opacity: m.dissolve,
        base_color_texture: resolved_texture(home, m.diffuse_texture),
        normal_map_texture: resolved_texture(home, m.normal_texture),
        alpha_blend: m.dissolve_texture is Some,
        roughness: number_text(m.roughness),
        metallic: number_text(m.metallic),
        clearcoat: number_text(m.clearcoat),
        clearcoat_roughness: number_text(m.clearcoat_roughness),
        anisotropy: number_text(m.anisotropy),
        anisotropy_rotation: number_text(m.anisotropy_rotation),
    }
}

/// The path of the library of the name `library`, which lies beside the
/// document; the path of the document where that is no text.
pub open spec fn library_home(document: Seq<char>, library: Seq<char>) -> Seq<char> {
    match decoded(beside(encode_utf8(document), encode_utf8(library))) {
        Some(path) => path,
        None => document,
    }
}

/// The path of the library that holds the material at the position
/// `index`, where `origins` names one for each of the `count` materials;
/// else the path of the document.
pub open spec fn home_of(
    origins: Seq<MaterialOriginView>,
    count: nat,
    index: int,
    document: Seq<char>,
) -> Seq<char> {
    if origins.len() == count {
        library_home(document, origins[index].library)
    } else {
        document
    }
}

/// The colour spaces of the material at the position `index`, where
/// `origins` names them for each of the `count` materials.
pub open spec fn spaces_of(origins: Seq<MaterialOriginView>, count: nat, index: int)
    -> ColorSpaces {
    if origins.len() == count {
        origins[index].spaces
    } else {
        plain_colors()
    }
}

/// The materials of the scene.
pub open spec fn planned_materials(
    materials: Seq<RawMaterialView>,
    origins: Seq<MaterialOriginView>,
    document: Seq<char>,
) -> Seq<MaterialPlanView> {
    Seq::new(
        materials.len(),
        |k: int|
            planned_material(
                materials[k],
                k,
                home_of(origins, materials.len(), k, document),
                spaces_of(origins, materials.len(), k),
            ),
    )
}

/// The first of the materials from `from` on that has the name `name`; the
/// number of the materials where none has it.
pub open spec fn first_named(materials: Seq<RawMaterialView>, name: Seq<char>, from: int) -> int
    decreases materials.len() - from,
{
    if from < 0 || from >= materials.len() {
        materials.len() as int
    } else if materials[from].name == name {
        from
    } else {
        first_named(materials, name, from + 1)
    }
}

/// The last material of the name of `best` among `best` and the materials
/// from `next` on that follow it in the same library.
pub open spec fn last_of_library(
    materials: Seq<RawMaterialView>,
    origins: Seq<MaterialOriginView>,
    best: int,
    next: int,
) -> int
    decreases materials.len() - next,
{
    if next < 0 || next >= materials.len() || origins[next].library != origins[best].library {
        best
    } else if materials[next].name == materials[best].name {
        last_of_library(materials, origins, next, next + 1)
    } else {
        last_of_library(materials, origins, best, next + 1)
    }
}

/// The material that a model gets which names the material at `id`. Of the
/// libraries that hold a material of that name the first wins, and of the
/// materials of that name in one library the last. Where `origins` does not
/// name the library of each material, it is the material at `id` itself.
pub open spec fn chosen_material(
    materials: Seq<RawMaterialView>,
    origins: Seq<MaterialOriginView>,
    id: int,
) -> int {
    if origins.len() == materials.len() && 0 <= id < materials.len() {
        let first = first_named(materials, materials[id].name, 0);
        last_of_library(materials, origins, first, first + 1)
    } else {
        id
    }
}

/// The material of the entity of a model: the one that `chosen_material`
/// gives for the material that the model names, where the scene holds it.
pub open spec fn planned_material_id(
    model: RawModelView,
    materials: Seq<RawMaterialView>,
    origins: Seq<MaterialOriginView>,
) -> Option<usize> {
    match model.mesh.material_id {
        Some(id) => if id < materials.len() {
            Some(chosen_material(materials, origins, id as int) as usize)
        } else {
            None
        },
        None => None,
    }
}

/// The entities of the scene.
pub open spec fn planned_entities(
    models: Seq<RawModelView>,
    materials: Seq<RawMaterialView>,
    origins: Seq<MaterialOriginView>,
) -> Seq<EntityPlan> {
    Seq::new(
        models.len(),
        |k: int|
            EntityPlan {
                mesh: k as usize,
                material: planned_material_id(models[k], materials, origins),
            },
    )
}

/// A search for a name from `from` on finds a material of that name, at or
/// after `from`, where there is one.
pub proof fn lemma_first_named(materials: Seq<RawMaterialView>, name: Seq<char>, from: int, at: int)
    requires
        0 <= from <= at < materials.len(),
        materials[at].name == name,
    ensures
        from <= first_named(materials, name, from) <= at,
        materials[first_named(materials, name, from)].name == name,
    decreases at - from,
{
    if materials[from].name != name {
        lemma_first_named(materials, name, from + 1, at);
    }
}

/// The last material of a name in a library is one of the scene, has that
/// name and lies in that library.
pub proof fn lemma_last_of_library(
    materials: Seq<RawMaterialView>,
    origins: Seq<MaterialOriginView>,
    best: int,
    next: int,
)
    requires
        origins.len() == materials.len(),
        0 <= best < next <= materials.len(),
    ensures
        best <= last_of_library(materials, origins, best, next) < materials.len(),
        materials[last_of_library(materials, origins, best, next)].name == materials[best].name,
        origins[last_of_library(materials, origins, best, next)].library
            == origins[best].library,
    decreases materials.len() - next,
{
    if next < materials.len() && origins[next].library == origins[best].library {
        if materials[next].name == materials[best].name {
            lemma_last_of_library(materials, origins, next, next + 1);
        } else {
            lemma_last_of_library(materials, origins, best, next + 1);
        }
    }
}

/// The material that a model gets is one of the scene, has the name that
/// the model asked for, and lies in the library of the first material of
/// that name.
pub proof fn lemma_chosen_material(
    materials: Seq<RawMaterialView>,
    origins: Seq<MaterialOriginView>,
    id: int,
)
    requires
        origins.len() == materials.len(),
        0 <= id < materials.len(),
    ensures
        0 <= chosen_material(materials, origins, id) < materials.len(),
        materials[chosen_material(materials, origins, id)].name == materials[id].name,
        origins[chosen_material(materials, origins, id)].library == origins[first_named(
            materials,
            materials[id].name,
            0,
        )].library,
        first_named(materials, materials[id].name, 0) <= id,
{
    lemma_first_named(materials, materials[id].name, 0, id);
    let first = first_named(materials, materials[id].name, 0);
    lemma_last_of_library(materials, origins, first, first + 1);
}

/// The meshes of the first `upto` models, each put together on its own; or
/// the error of the first model that gives no mesh.
pub open spec fn planned_meshes(models: Seq<RawModelView>, settings: ObjSettings, upto: int)
    -> Result<Seq<MeshPlanView>, ObjError>
    decreases upto,
{
    if upto <= 0 {
        Ok(Seq::empty())
    } else {
        match planned_meshes(models, settings, upto - 1) {
            Err(e) => Err(e),
            Ok(before) => match converted(seq![models[upto - 1].mesh], settings) {
                Err(e) => Err(e),
                Ok(data) => Ok(
                    before.push(
                        MeshPlanView { label: "Mesh"@ + decimal((upto - 1) as nat), data },
                    ),
                ),
            },
        }
    }
}

/// The scene that the models and materials of a document make. `origins`
/// names, for each material, the library that holds it and the spaces of
/// its colours.
pub open spec fn planned_scene(
    models: Seq<RawModelView>,
    materials: Seq<RawMaterialView>,
    origins: Seq<MaterialOriginView>,
    document: Seq<char>,
    settings: ObjSettings,
) -> Result<ScenePlanView, ObjError> {
    match planned_meshes(models, settings, models.len() as int) {
        Err(e) => Err(e),
        Ok(meshes) => Ok(
            ScenePlanView {
                materials: planned_materials(materials, origins, document),
                meshes,
                entities: planned_entities(models, materials, origins),
            },
        ),
    }
}

/// Finds the material that a model gets which names the material at `id`,
/// as `chosen_material` says.
pub fn choose_material(materials: &Vec<RawMaterial>, origins: &Vec<MaterialOrigin>, id: usize) -> (r:
    usize)
    ensures
        r == chosen_material(
            crate::parser::materials_view(materials@),
            origins_view(origins@),
            id as int,
        ),
        id < materials.len() ==> r < materials.len(),
{
    let ghost all = crate::parser::materials_view(materials@);
    let ghost marks = origins_view(origins@);
    if origins.len() != materials.len() || id >= materials.len() {
        return id;
    }
    proof {
        lemma_chosen_material(all, marks, id as int);
    }
    let mut first: usize = 0;
    while first < id && materials[first].name != materials[id].name
        invariant
            first <= id < materials.len(),
            all == crate::parser::materials_view(materials@),
            first_named(all, all[id as int].name, 0) == first_named(
                all,
                all[id as int].name,
                first as int,
            ),
        decreases id - first,
    {
        assert(all[first as int] == materials@[first as int]@);
        assert(all[id as int] == materials@[id as int]@);
        first = first + 1;
    }
    assert(all[first as int] == materials@[first as int]@);
    assert(all[id as int] == materials@[id as int]@);
    assert(first_named(all, all[id as int].name, 0) == first);
    let mut best = first;
    let mut next = first + 1;
    while next < materials.len() && origins[next].library == origins[best].library
        invariant
            first <= best < next <= materials.len(),
            origins.len() == materials.len(),
            all == crate::parser::materials_view(materials@),
            marks == origins_view(origins@),
            last_of_library(all, marks, first as int, first + 1) == last_of_library(
                all,
                marks,
                best as int,
                next as int,
            ),
        decreases materials.len() - next,
    {
        assert(all[next as int] == materials@[next as int]@);
        assert(all[best as int] == materials@[best as int]@);
        assert(marks[next as int] == origins@[next as int]@);
        assert(marks[best as int] == origins@[best as int]@);
        if materials[next].name == materials[best].name {
            best = next;
        }
        next = next + 1;
    }
    proof {
        if next < materials.len() {
            assert(marks[next as int] == origins@[next as int]@);
            assert(marks[best as int] == origins@[best as int]@);
        }
    }
    best
}

/// Resolves the texture that a map of a material names, as
/// `resolved_texture` says.
pub fn resolve_texture(document: &str, map: &Option<String>) -> (r: Option<String>)
    ensures
        crate::parser::text_view(r) == resolved_texture(document@, crate::parser::text_view(*map)),
{
    match map {
        None => None,
        Some(m) => {
            let file = texture_file_name(m.as_str().as_bytes());
            if file.len() == 0 {
                None
            } else {
                let path = sibling_path(document.as_bytes(), file.as_slice());
                text_of(path.as_slice())
            }
        },
    }
}

/// The extension by which the image of a texture is decoded, as `image_kind`
/// says; `TextureResolutionError` with the path where the path names no kind
/// of image.
pub fn texture_extension(path: &str) -> (r: Result<String, ObjError>)
    ensures
        match r {
            Ok(e) => image_kind(path@) == Some(e@),
            Err(e) => image_kind(path@) is None && e@ == (ObjErrorView::TextureResolutionError {
                path: path@,
            }),
        },
{
    let kind = match file_extension(path.as_bytes()) {
        None => None,
        Some(e) => if e.len() == 0 {
            None
        } else {
            text_of(e.as_slice())
        },
    };
    match kind {
        Some(e) => Ok(e),
        None => Err(ObjError::TextureResolutionError { path: path.to_owned() }),
    }
}

/// The number that a statement of a material writes, as `number_text` says.
pub fn number_of(statement: &Option<String>) -> (r: Option<String>)
    ensures
        crate::parser::text_view(r) == number_text(crate::parser::text_view(*statement)),
{
    match statement {
        None => None,
        Some(t) => match first_number(t.as_str().as_bytes()) {
            None => None,
            Some(w) => text_of(w),
        },
    }
}

/// The path of the library of the name `library`, as `library_home` says.
pub fn home_of_library(document: &str, library: &str) -> (r: String)
    ensures
        r@ == library_home(document@, library@),
{
    let path = sibling_path(document.as_bytes(), library.as_bytes());
    match text_of(path.as_slice()) {
        Some(p) => p,
        None => document.to_owned(),
    }
}

/// Plans the material of the scene that stands for `material` at the
/// position `index`; its textures lie beside `home`, and `spaces` tells which
/// of its colours are colours of CIE XYZ.
pub fn plan_material(material: RawMaterial, index: usize, home: &str, spaces: ColorSpaces) -> (r:
    MaterialPlan)
    ensures
        r@ == planned_material(material@, index as int, home@, spaces),
{
    let base_color_texture = resolve_texture(home, &material.diffuse_texture);
    let normal_map_texture = resolve_texture(home, &material.normal_texture);
    MaterialPlan {
        label: material_label(index),
        name: material.name,
        base_color: material.diffuse,
        base_color_xyz: spaces.diffuse_xyz,
        opacity: material.dissolve,
        base_color_texture,
        normal_map_texture,
        alpha_blend: material.dissolve_texture.is_some(),
        roughness: number_of(&material.roughness),
        metallic: number_of(&material.metallic),
        clearcoat: number_of(&material.clearcoat),
        clearcoat_roughness: number_of(&material.clearcoat_roughness),
        anisotropy: number_of(&material.anisotropy),
        anisotropy_rotation: number_of(&material.anisotropy_rotation),
    }
}

/// Plans the scene that the models and materials of a document make, as
/// `planned_scene` says: a material for each material, with its textures
/// beside the library that holds it; a mesh and an entity for each model.
/// The first model whose arrays make no mesh gives the error.
///
/// `origins` names the library of each material and the spaces of its
/// colours. Where it does not name them for each material, the textures lie
/// beside the document, and the colours are red, green and blue.
///
/// A model that names no material, or one that the scene does not hold, gets
/// no material: the host gives it its default. A model that names a
/// material gets the one that `chosen_material` gives: where several
/// libraries hold a material of its name, that of the first.
#[verifier::loop_isolation(false)]
pub fn plan_scene(
    models: Vec<RawModel>,
    materials: Vec<RawMaterial>,
    origins: &Vec<MaterialOrigin>,
    document: &str,
    settings: &ObjSettings,
) -> (r: Result<ScenePlan, ObjError>)
    ensures
        match r {
            Ok(p) => planned_scene(
                crate::parser::models_view(models@),
                crate::parser::materials_view(materials@),
                origins_view(origins@),
                document@,
                *settings,
            ) == Ok::<ScenePlanView, ObjError>(p@),
            Err(e) => planned_scene(
                crate::parser::models_view(models@),
                crate::parser::materials_view(materials@),
                origins_view(origins@),
                document@,
                *settings,
            ) == Err::<ScenePlanView, ObjError>(e),
        },
        r matches Ok(p) ==> forall|k: int|
            0 <= k < p@.meshes.len() ==> well_formed(#[trigger] p@.meshes[k].data),
{
    let ghost model_views = crate::parser::models_view(models@);
    proof {
        lemma_planned_meshes_well_formed(model_views, *settings, models@.len() as int);
    }
    let ghost material_views = crate::parser::materials_view(materials@);
    let ghost origin_views = origins_view(origins@);
    let material_count = materials.len();
    let model_count = models.len();
    let origins_fit = origins.len() == material_count;

    let mut chosen: Vec<usize> = Vec::new();
    while chosen.len() < material_count
        invariant
            chosen.len() <= material_count,
            material_count == materials.len(),
            forall|j: int|
                0 <= j < chosen.len() ==> #[trigger] chosen@[j] == chosen_material(
                    material_views,
                    origin_views,
                    j,
                ),
        decreases material_count - chosen.len(),
    {
        let id = chosen.len();
        chosen.push(choose_material(&materials, origins, id));
    }

    let mut material_plans: Vec<MaterialPlan> = Vec::new();
    let mut rest = reversed(materials);
    while rest.len() > 0
        invariant
            material_plans.len() + rest.len() == material_count,
            material_count == material_views.len(),
            forall|j: int|
                0 <= j < rest.len() ==> (#[trigger] rest@[j])@ == material_views[material_count
                    - 1 - j],
            forall|j: int|
                0 <= j < material_plans.len() ==> (#[trigger] material_plans@[j])@
                    == planned_material(
                    material_views[j],
                    j,
                    home_of(origin_views, material_count as nat, j, document@),
                    spaces_of(origin_views, material_count as nat, j),
                ),
        decreases rest.len(),
    {
        let index = material_plans.len();
        let material = rest.pop().unwrap();
        let plan = if origins_fit {
            assert(origin_views[index as int] == origins@[index as int]@);
            let home = home_of_library(document, origins[index].library.as_str());
            plan_material(material, index, home.as_str(), origins[index].spaces)
        } else {
            plan_material(
                material,
                index,
                document,
                ColorSpaces { diffuse_xyz: false, specular_xyz: false, emissive_xyz: false },
            )
        };
        material_plans.push(plan);
    }
    assert(material_plans_view(material_plans@) =~= planned_materials(
        material_views,
        origin_views,
        document@,
    ));

    let mut mesh_plans: Vec<MeshPlan> = Vec::new();
    let mut entities: Vec<EntityPlan> = Vec::new();
    let mut rest = reversed(models);
    assert(mesh_plans_view(mesh_plans@) =~= Seq::<MeshPlanView>::empty());
    while rest.len() > 0
        invariant
            mesh_plans.len() + rest.len() == model_count,
            entities.len() == mesh_plans.len(),
            model_count == model_views.len(),
            material_count == material_views.len(),
            forall|j: int|
                0 <= j < rest.len() ==> (#[trigger] rest@[j])@ == model_views[model_count - 1 - j],
            planned_meshes(model_views, *settings, mesh_plans.len() as int) == Ok::<
                Seq<MeshPlanView>,
                ObjError,
            >(mesh_plans_view(mesh_plans@)),
            forall|j: int|
                0 <= j < entities.len() ==> #[trigger] entities@[j] == planned_entities(
                    model_views,
                    material_views,
                    origin_views,
                )[j],
        decreases rest.len(),
    {
        let index = mesh_plans.len();
        let model = rest.pop().unwrap();
        assert(model@ == model_views[index as int]);
        let material = match model.mesh.material_id {
            Some(id) => if id < material_count {
                Some(chosen[id])
            } else {
                None
            },
            None => None,
        };
        let converter = MeshConverter::from_model(model);
        let ghost before = mesh_plans_view(mesh_plans@);
        match converter.convert(settings) {
            Err(e) => {
                proof {
                    assert(planned_meshes(model_views, *settings, index + 1) == Err::<
                        Seq<MeshPlanView>,
                        ObjError,
                    >(e));
                    lemma_planned_meshes_error(
                        model_views,
                        *settings,
                        index + 1,
                        model_count as int,
                    );
                }
                return Err(e);
            },
            Ok(data) => {
                mesh_plans.push(MeshPlan { label: mesh_label(index), data });
                entities.push(EntityPlan { mesh: index, material });
                assert(mesh_plans_view(mesh_plans@) =~= before.push(mesh_plans@[index as int]@));
            },
        }
    }
    assert(entities@ =~= planned_entities(model_views, material_views, origin_views));
    Ok(ScenePlan { materials: material_plans, meshes: mesh_plans, entities })
}

/// Every mesh of a planned scene is well formed.
pub proof fn lemma_planned_meshes_well_formed(
    models: Seq<RawModelView>,
    settings: ObjSettings,
    upto: int,
)
    ensures
        planned_meshes(models, settings, upto) matches Ok(meshes) ==> forall|k: int|
            0 <= k < meshes.len() ==> well_formed(#[trigger] meshes[k].data),
    decreases upto,
{
    if upto > 0 {
        lemma_planned_meshes_well_formed(models, settings, upto - 1);
        lemma_converted_well_formed(seq![models[upto - 1].mesh], settings);
    }
}

/// An error among the first models is the error of all of them.
pub proof fn lemma_planned_meshes_error(
    models: Seq<RawModelView>,
    settings: ObjSettings,
    upto: int,
    all: int,
)
    requires
        0 <= upto <= all,
        planned_meshes(models, settings, upto) is Err,
    ensures
        planned_meshes(models, settings, all) == planned_meshes(models, settings, upto),
    decreases all - upto,
{
    if upto < all {
        lemma_planned_meshes_error(models, settings, upto, all - 1);
    }
}

} // verus!
