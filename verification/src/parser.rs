//! The parser of documents and libraries, `tobj`, and what it hands back.
//!
//! Floating-point values leave the parser as their IEEE-754 single-precision
//! bit patterns.

use crate::document::{
    check_text, classify, is_library_line, names_from, plain_text, push_names, read_text,
    request_of_line, requested_name, text_verdict, texts_view, Keyword,
};
use crate::error::{LoadFailure, ObjError};
use crate::library::{
    check_library_text, color_spaces, library_spaces, library_text_verdict, plain_library,
    read_library, ColorSpaces,
};
use crate::settings::LoadOptionsDef;
use crate::text::{
    is_line_end, lemma_line_end_bounds, line_end, line_end_from, skip_blanks_from, word_end_from,
    LINE_FEED,
};
use std::collections::HashMap;
use vstd::prelude::*;
use vstd::utf8::valid_utf8;

verus! {

/// `tobj::LoadError`: why the parser refused its input.
#[verifier::external_type_specification]
pub struct ExLoadError(tobj::LoadError);

/// `tobj::LoadOptions`: how the parser turns a document into arrays.
#[verifier::external_type_specification]
pub struct ExLoadOptions(tobj::LoadOptions);

impl From<LoadOptionsDef> for tobj::LoadOptions {
    /// The options of the parser that stand for `def`.
    fn from(def: LoadOptionsDef) -> (r: tobj::LoadOptions) {
        tobj::LoadOptions {
            single_index: def.single_index,
            triangulate: def.triangulate,
            ignore_points: def.ignore_points,
            ignore_lines: def.ignore_lines,
        }
    }
}

impl vstd::std_specs::convert::FromSpecImpl<LoadOptionsDef> for tobj::LoadOptions {
    open spec fn obeys_from_spec() -> bool {
        true
    }

    open spec fn from_spec(def: LoadOptionsDef) -> tobj::LoadOptions {
        tobj::LoadOptions {
            single_index: def.single_index,
            triangulate: def.triangulate,
            ignore_points: def.ignore_points,
            ignore_lines: def.ignore_lines,
        }
    }
}

impl From<tobj::LoadOptions> for LoadOptionsDef {
    /// The options that stand for those of the parser.
    fn from(lo: tobj::LoadOptions) -> (r: LoadOptionsDef) {
        LoadOptionsDef {
            single_index: lo.single_index,
            triangulate: lo.triangulate,
            ignore_points: lo.ignore_points,
            ignore_lines: lo.ignore_lines,
        }
    }
}

impl vstd::std_specs::convert::FromSpecImpl<tobj::LoadOptions> for LoadOptionsDef {
    open spec fn obeys_from_spec() -> bool {
        true
    }

    open spec fn from_spec(lo: tobj::LoadOptions) -> LoadOptionsDef {
        LoadOptionsDef {
            single_index: lo.single_index,
            triangulate: lo.triangulate,
            ignore_points: lo.ignore_points,
            ignore_lines: lo.ignore_lines,
        }
    }
}

/// `tobj::Model`: a named mesh of a document.
#[verifier::external_type_specification]
#[verifier::external_body]
pub struct ExModel(tobj::Model);

/// `tobj::Material`: a material of a library.
#[verifier::external_type_specification]
#[verifier::external_body]
pub struct ExMaterial(tobj::Material);

/// The arrays of one mesh, as the parser gives them.
#[derive(Debug, Clone, PartialEq, Eq)]
pub struct RawMesh {
    /// The positions, three values for each vertex.
    pub positions: Vec<u32>,
    /// The normals, three values for each vertex that has one.
    pub normals: Vec<u32>,
    /// The texture coordinates, two values for each vertex that has one.
    pub texcoords: Vec<u32>,
    /// The corners of the faces, face after face, as indices of positions;
    /// where the mesh has a single index, as indices of normals and texture
    /// coordinates too.
    pub indices: Vec<u32>,
    /// The number of corners of each face; empty where every face is a
    /// triangle.
    pub face_arities: Vec<u32>,
    /// The normal of each corner, as an index of its own; empty where the
    /// mesh has a single index or no normals.
    pub normal_indices: Vec<u32>,
    /// The texture coordinate of each corner, as an index of its own; empty
    /// where the mesh has a single index or no texture coordinates.
    pub texcoord_indices: Vec<u32>,
    /// The material of the mesh, as an index into the materials of the
    /// document.
    pub material_id: Option<usize>,
}

/// What a `RawMesh` holds.
pub struct RawMeshView {
    pub positions: Seq<u32>,
    pub normals: Seq<u32>,
    pub texcoords: Seq<u32>,
    pub indices: Seq<u32>,
    pub face_arities: Seq<u32>,
    pub normal_indices: Seq<u32>,
    pub texcoord_indices: Seq<u32>,
    pub material_id: Option<usize>,
}

impl View for RawMesh {
    type V = RawMeshView;

    open spec fn view(&self) -> RawMeshView {
        RawMeshView {
            positions: self.positions@,
            normals: self.normals@,
            texcoords: self.texcoords@,
            indices: self.indices@,
            face_arities: self.face_arities@,
            normal_indices: self.normal_indices@,
            texcoord_indices: self.texcoord_indices@,
            material_id: self.material_id,
        }
    }
}

/// A named mesh of a document.
#[derive(Debug, Clone, PartialEq, Eq)]
pub struct RawModel {
    /// The name that the document gives the object or group.
    pub name: String,
    /// Its arrays.
    pub mesh: RawMesh,
}

/// What a `RawModel` holds.
pub struct RawModelView {
    pub name: Seq<char>,
    pub mesh: RawMeshView,
}

impl View for RawModel {
    type V = RawModelView;

    open spec fn view(&self) -> RawModelView {
        RawModelView { name: self.name@, mesh: self.mesh@ }
    }
}

/// A material of a library, as the parser gives it.
#[derive(Debug, Clone, PartialEq, Eq)]
pub struct RawMaterial {
    /// The name after `newmtl`.
    pub name: String,
    /// The diffuse colour, `Kd`.
    pub diffuse: Option<[u32; 3]>,
    /// The specular colour, `Ks`.
    pub specular: Option<[u32; 3]>,
    /// The emissive colour, `Ke`.
    pub emissive: Option<[u32; 3]>,
    /// The opacity, `d`.
    pub dissolve: Option<u32>,
    /// The texture of the diffuse colour, `map_Kd`, with its options.
    pub diffuse_texture: Option<String>,
    /// The normal map, `map_Bump` or `bump`, with its options.
    pub normal_texture: Option<String>,
    /// The texture of the opacity, `map_d`, with its options.
    pub dissolve_texture: Option<String>,
    /// The roughness, `Pr`, as the library writes it.
    pub roughness: Option<String>,
    /// The metallic, `Pm`, as the library writes it.
    pub metallic: Option<String>,
    /// The thickness of the clearcoat, `Pc`, as the library writes it.
    pub clearcoat: Option<String>,
    /// The roughness of the clearcoat, `Pcr`, as the library writes it.
    pub clearcoat_roughness: Option<String>,
    /// The strength of the anisotropy, `aniso`, as the library writes it.
    pub anisotropy: Option<String>,
    /// The rotation of the anisotropy, `anisor`, as the library writes it.
    pub anisotropy_rotation: Option<String>,
}

/// What a `RawMaterial` holds.
pub struct RawMaterialView {
    pub name: Seq<char>,
    pub diffuse: Option<Seq<u32>>,
    pub specular: Option<Seq<u32>>,
    pub emissive: Option<Seq<u32>>,
    pub dissolve: Option<u32>,
    pub diffuse_texture: Option<Seq<char>>,
    pub normal_texture: Option<Seq<char>>,
    pub dissolve_texture: Option<Seq<char>>,
    pub roughness: Option<Seq<char>>,
    pub metallic: Option<Seq<char>>,
    pub clearcoat: Option<Seq<char>>,
    pub clearcoat_roughness: Option<Seq<char>>,
    pub anisotropy: Option<Seq<char>>,
    pub anisotropy_rotation: Option<Seq<char>>,
}

/// The fields of a material that the parser reads as such.
pub struct MaterialFields {
    pub name: String,
    pub diffuse: Option<[u32; 3]>,
    pub specular: Option<[u32; 3]>,
    pub emissive: Option<[u32; 3]>,
    pub dissolve: Option<u32>,
    pub diffuse_texture: Option<String>,
    pub normal_texture: Option<String>,
    pub dissolve_texture: Option<String>,
}

/// What a `MaterialFields` holds.
pub struct MaterialFieldsView {
    pub name: Seq<char>,
    pub diffuse: Option<Seq<u32>>,
    pub specular: Option<Seq<u32>>,
    pub emissive: Option<Seq<u32>>,
    pub dissolve: Option<u32>,
    pub diffuse_texture: Option<Seq<char>>,
    pub normal_texture: Option<Seq<char>>,
    pub dissolve_texture: Option<Seq<char>>,
}

impl View for MaterialFields {
    type V = MaterialFieldsView;

    open spec fn view(&self) -> MaterialFieldsView {
        MaterialFieldsView {
            name: self.name@,
            diffuse: color_view(self.diffuse),
            specular: color_view(self.specular),
            emissive: color_view(self.emissive),
            dissolve: self.dissolve,
            diffuse_texture: text_view(self.diffuse_texture),
            normal_texture: text_view(self.normal_texture),
            dissolve_texture: text_view(self.dissolve_texture),
        }
    }
}

/// What an optional colour holds.
pub open spec fn color_view(c: Option<[u32; 3]>) -> Option<Seq<u32>> {
    match c {
        Some(a) => Some(a@),
        None => None,
    }
}

/// What an optional text holds.
pub open spec fn text_view(t: Option<String>) -> Option<Seq<char>> {
    match t {
        Some(s) => Some(s@),
        None => None,
    }
}

impl View for RawMaterial {
    type V = RawMaterialView;

    open spec fn view(&self) -> RawMaterialView {
        RawMaterialView {
            name: self.name@,
            diffuse: color_view(self.diffuse),
            specular: color_view(self.specular),
            emissive: color_view(self.emissive),
            dissolve: self.dissolve,
            diffuse_texture: text_view(self.diffuse_texture),
            normal_texture: text_view(self.normal_texture),
            dissolve_texture: text_view(self.dissolve_texture),
            roughness: text_view(self.roughness),
            metallic: text_view(self.metallic),
            clearcoat: text_view(self.clearcoat),
            clearcoat_roughness: text_view(self.clearcoat_roughness),
            anisotropy: text_view(self.anisotropy),
            anisotropy_rotation: text_view(self.anisotropy_rotation),
        }
    }
}

/// A material library that the host has read for a document.
#[derive(Debug, Clone, PartialEq, Eq)]
pub struct MaterialLibrary {
    /// The file name under which the document asks for the library.
    pub name: String,
    /// The bytes of the library.
    pub bytes: Vec<u8>,
}

impl View for MaterialLibrary {
    type V = (Seq<char>, Seq<u8>);

    open spec fn view(&self) -> (Seq<char>, Seq<u8>) {
        (self.name@, self.bytes@)
    }
}

/// The names and bytes of a table of libraries.
pub open spec fn library_table(libraries: Seq<MaterialLibrary>) -> Seq<(Seq<char>, Seq<u8>)> {
    libraries.map_values(|l: MaterialLibrary| l@)
}

/// What the parser hands back for a document that it accepts.
pub struct Parsed {
    /// The models of the document, in its order.
    pub models: Vec<tobj::Model>,
    /// The materials of its libraries, or why they could not be loaded.
    pub materials: Result<Vec<tobj::Material>, tobj::LoadError>,
}

/// What a `Parsed` holds.
pub struct ParsedView {
    pub models: Seq<tobj::Model>,
    pub materials: Result<Seq<tobj::Material>, tobj::LoadError>,
}

impl View for Parsed {
    type V = ParsedView;

    open spec fn view(&self) -> ParsedView {
        ParsedView {
            models: self.models@,
            materials: match self.materials {
                Ok(m) => Ok(m@),
                Err(e) => Err(e),
            },
        }
    }
}

/// What `tobj::load_obj_buf` returns for the text of a document, the load
/// options, and a material loader that serves, for each `mtllib` line, the
/// libraries of the table that the line names, as `load_library` does.
pub uninterp spec fn parsed_document(
    bytes: Seq<u8>,
    options: LoadOptionsDef,
    libraries: Seq<(Seq<char>, Seq<u8>)>,
) -> Result<ParsedView, tobj::LoadError>;

/// What `tobj::load_mtl_buf` returns for the text of a library: its
/// materials in their order, or why it is refused.
pub uninterp spec fn parsed_library(bytes: Seq<u8>) -> Result<Seq<tobj::Material>, tobj::LoadError>;

/// What a `tobj::Model` holds: its name and the arrays of its mesh.
pub uninterp spec fn model_contents(model: tobj::Model) -> RawModelView;

/// The fields of a `tobj::Material` that the parser reads as such.
pub uninterp spec fn material_contents(material: tobj::Material) -> MaterialFieldsView;

/// What a `tobj::Material` holds for a statement that the parser keeps as
/// text: what followed the keyword `key` on its line; `None` where the
/// material has no such statement.
pub uninterp spec fn material_parameter(material: tobj::Material, key: Seq<char>) -> Option<
    Seq<char>,
>;

/// What a `tobj::Material` holds: its fields, and the scalar parameters that
/// the parser keeps as text under their keywords.
pub open spec fn material_view(material: tobj::Material) -> RawMaterialView {
    let fields = material_contents(material);
    RawMaterialView {
        name: fields.name,
        diffuse: fields.diffuse,
        specular: fields.specular,
        emissive: fields.emissive,
        dissolve: fields.dissolve,
        diffuse_texture: fields.diffuse_texture,
        normal_texture: fields.normal_texture,
        dissolve_texture: fields.dissolve_texture,
        roughness: material_parameter(material, "Pr"@),
        metallic: material_parameter(material, "Pm"@),
        clearcoat: material_parameter(material, "Pc"@),
        clearcoat_roughness: material_parameter(material, "Pcr"@),
        anisotropy: material_parameter(material, "aniso"@),
        anisotropy_rotation: material_parameter(material, "anisor"@),
    }
}

/// `core::str::from_utf8`: whether the bytes are UTF-8 text.
#[verifier::external_body]
fn is_utf8(bytes: &[u8]) -> (r: bool)
    ensures
        r == valid_utf8(bytes@),
{
    std::str::from_utf8(bytes).is_ok()
}

/// `tobj::load_mtl_buf`: parses the bytes of a material library. The
/// materials of the result, or its error, are named `parsed_library`.
///
/// The parser takes it for granted that a colour has three components; a
/// library is handed to it only where it is text and `library_text_verdict`
/// has found that.
#[verifier::external_body]
fn parse_library(bytes: &[u8]) -> (r: Result<
    (Vec<tobj::Material>, HashMap<String, usize>),
    tobj::LoadError,
>)
    requires
        valid_utf8(bytes@),
        library_text_verdict(bytes@) is Ok,
    ensures
        match r {
            Ok((materials, _)) => parsed_library(bytes@) == Ok::<
                Seq<tobj::Material>,
                tobj::LoadError,
            >(materials@),
            Err(e) => parsed_library(bytes@) == Err::<Seq<tobj::Material>, tobj::LoadError>(e),
        },
{
    let mut reader = bytes;
    tobj::load_mtl_buf(&mut reader)
}

/// `tobj::load_obj_buf`: parses the bytes of a document with the load
/// options, asking `load_library` for the libraries that each `mtllib` line
/// of the document names. The result is named `parsed_document`.
///
/// The parser computes with the indices of a face before it has compared them
/// with the pools; a document is handed to it only where it is text and
/// `text_verdict` has found every reference inside its pool.
#[verifier::external_body]
fn parse_document(bytes: &[u8], options: &LoadOptionsDef, libraries: &Vec<MaterialLibrary>) -> (r:
    Result<Parsed, tobj::LoadError>)
    requires
        valid_utf8(bytes@),
        text_verdict(bytes@) is Ok,
    ensures
        match r {
            Ok(p) => parsed_document(bytes@, *options, library_table(libraries@)) == Ok::<
                ParsedView,
                tobj::LoadError,
            >(p@),
            Err(e) => parsed_document(bytes@, *options, library_table(libraries@)) == Err::<
                ParsedView,
                tobj::LoadError,
            >(e),
        },
{
    let outside = tobj::LoadOptions {
        single_index: options.single_index,
        triangulate: options.triangulate,
        ignore_points: options.ignore_points,
        ignore_lines: options.ignore_lines,
    };
    let mut reader = bytes;
    let loader = |p: &std::path::Path| load_library(libraries, p.to_string_lossy().as_bytes());
    let (models, materials) = tobj::load_obj_buf(&mut reader, &outside, loader)?;
    Ok(Parsed { models, materials })
}

/// Copies the name and the arrays out of a `tobj::Model`, each value of the
/// arrays as its bit pattern. The result is named `model_contents`.
#[verifier::external_body]
fn raw_model(model: &tobj::Model) -> (r: RawModel)
    ensures
        r@ == model_contents(*model),
{
    RawModel {
        name: model.name.clone(),
        mesh: RawMesh {
            positions: model.mesh.positions.iter().map(|x| x.to_bits()).collect(),
            normals: model.mesh.normals.iter().map(|x| x.to_bits()).collect(),
            texcoords: model.mesh.texcoords.iter().map(|x| x.to_bits()).collect(),
            indices: model.mesh.indices.clone(),
            face_arities: model.mesh.face_arities.clone(),
            normal_indices: model.mesh.normal_indices.clone(),
            texcoord_indices: model.mesh.texcoord_indices.clone(),
            material_id: model.mesh.material_id,
        },
    }
}

/// Copies the fields out of a `tobj::Material`, each colour component as its
/// bit pattern. The result is named `material_contents`.
#[verifier::external_body]
fn material_fields(material: &tobj::Material) -> (r: MaterialFields)
    ensures
        r@ == material_contents(*material),
{
    MaterialFields {
        name: material.name.clone(),
        diffuse: material.diffuse.map(|c| c.map(|x| x.to_bits())),
        specular: material.specular.map(|c| c.map(|x| x.to_bits())),
        emissive: material.emissive.map(|c| c.map(|x| x.to_bits())),
        dissolve: material.dissolve.map(|x| x.to_bits()),
        diffuse_texture: material.diffuse_texture.clone(),
        normal_texture: material.normal_texture.clone(),
        dissolve_texture: material.dissolve_texture.clone(),
    }
}

/// Looks up, in a `tobj::Material`, the statement that the parser has kept as
/// text under the keyword `key`. The result is named `material_parameter`.
#[verifier::external_body]
fn parameter_text(material: &tobj::Material, key: &str) -> (r: Option<String>)
    ensures
        text_view(r) == material_parameter(*material, key@),
{
    material.unknown_param.get(key).cloned()
}

/// Copies out of a `tobj::Material` what it holds, as `material_view` says.
pub fn raw_material(material: &tobj::Material) -> (r: RawMaterial)
    ensures
        r@ == material_view(*material),
{
    let fields = material_fields(material);
    RawMaterial {
        name: fields.name,
        diffuse: fields.diffuse,
        specular: fields.specular,
        emissive: fields.emissive,
        dissolve: fields.dissolve,
        diffuse_texture: fields.diffuse_texture,
        normal_texture: fields.normal_texture,
        dissolve_texture: fields.dissolve_texture,
        roughness: parameter_text(material, "Pr"),
        metallic: parameter_text(material, "Pm"),
        clearcoat: parameter_text(material, "Pc"),
        clearcoat_roughness: parameter_text(material, "Pcr"),
        anisotropy: parameter_text(material, "aniso"),
        anisotropy_rotation: parameter_text(material, "anisor"),
    }
}

/// The position in the table of the first library of the name `name`.
pub open spec fn library_position(table: Seq<(Seq<char>, Seq<u8>)>, name: Seq<char>) -> Option<
    int,
>
    decreases table.len(),
{
    if table.len() == 0 {
        None
    } else if table[0].0 == name {
        Some(0)
    } else {
        match library_position(table.drop_first(), name) {
            Some(k) => Some(k + 1),
            None => None,
        }
    }
}

/// Finds the first library of the name `name`.
pub fn find_library(libraries: &Vec<MaterialLibrary>, name: &String) -> (r: Option<usize>)
    ensures
        match r {
            Some(k) => library_position(library_table(libraries@), name@) == Some(k as int) && k
                < libraries.len(),
            None => library_position(library_table(libraries@), name@) == None::<int>,
        },
{
    let ghost table = library_table(libraries@);
    let mut k: usize = 0;
    assert(table.skip(0) =~= table);
    while k < libraries.len()
        invariant
            k <= libraries.len(),
            table == library_table(libraries@),
            table.len() == libraries.len(),
            match library_position(table.skip(k as int), name@) {
                Some(j) => library_position(table, name@) == Some(j + k),
                None => library_position(table, name@) == None::<int>,
            },
        decreases libraries.len() - k,
    {
        let ghost rest = table.skip(k as int);
        assert(rest[0] == libraries@[k as int]@);
        assert(rest.drop_first() =~= table.skip(k + 1));
        if libraries[k].name == *name {
            return Some(k);
        }
        k = k + 1;
    }
    assert(table.skip(k as int).len() == 0);
    None
}

/// The texts of the libraries of the names `names`, one after the other,
/// each as `plain_library` reads it and closed by a line feed; `None` where
/// the table lacks a library of one of the names.
pub open spec fn joined(table: Seq<(Seq<char>, Seq<u8>)>, names: Seq<Seq<char>>) -> Option<
    Seq<u8>,
>
    decreases names.len(),
{
    if names.len() == 0 {
        Some(Seq::empty())
    } else {
        match library_position(table, names[0]) {
            None => None,
            Some(k) => match joined(table, names.drop_first()) {
                None => None,
                Some(rest) => Some(plain_library(table[k].1).push(LINE_FEED) + rest),
            },
        }
    }
}

/// What the parser is served for the request of a `mtllib` line, whose words
/// are the names of libraries: `OpenFileFailed` where the table lacks one of
/// them, `ReadError` where what is read of the libraries is no text,
/// `MaterialParseError` where a line of them lacks a number, else what the
/// parser makes of the libraries, one after the other.
pub open spec fn served(table: Seq<(Seq<char>, Seq<u8>)>, request: Seq<u8>) -> Result<
    Seq<tobj::Material>,
    tobj::LoadError,
> {
    match joined(table, names_from(request, 0)) {
        None => Err(tobj::LoadError::OpenFileFailed),
        Some(text) => {
            if !valid_utf8(text) {
                Err(tobj::LoadError::ReadError)
            } else if library_text_verdict(text) is Err {
                Err(tobj::LoadError::MaterialParseError)
            } else {
                parsed_library(text)
            }
        },
    }
}

/// The texts of the libraries of the names, as `joined` says.
fn join_libraries(libraries: &Vec<MaterialLibrary>, names: &Vec<String>) -> (r: Option<Vec<u8>>)
    ensures
        match r {
            Some(text) => joined(library_table(libraries@), texts_view(names@)) == Some(text@),
            None => joined(library_table(libraries@), texts_view(names@)) == None::<Seq<u8>>,
        },
{
    let ghost table = library_table(libraries@);
    let ghost all = texts_view(names@);
    let mut text: Vec<u8> = Vec::new();
    let mut n: usize = 0;
    assert(all.skip(0) =~= all);
    assert(text@ + Seq::<u8>::empty() =~= text@);
    while n < names.len()
        invariant
            n <= names.len(),
            table == library_table(libraries@),
            all == texts_view(names@),
            joined(table, all) == match joined(table, all.skip(n as int)) {
                None => None::<Seq<u8>>,
                Some(rest) => Some(text@ + rest),
            },
        decreases names.len() - n,
    {
        let ghost left = all.skip(n as int);
        assert(left[0] == names@[n as int]@);
        assert(left.drop_first() =~= all.skip(n + 1));
        let k = match find_library(libraries, &names[n]) {
            None => {
                return None;
            },
            Some(k) => k,
        };
        assert(table[k as int].1 == libraries@[k as int].bytes@);
        let library = read_library(libraries[k].bytes.as_slice());
        let ghost before = text@;
        text.extend_from_slice(library.as_slice());
        text.push(LINE_FEED);
        proof {
            assert(text@ =~= before + library@.push(LINE_FEED));
            match joined(table, all.skip(n + 1)) {
                Some(rest) => {
                    assert(before + (library@.push(LINE_FEED) + rest) =~= text@ + rest);
                },
                None => {},
            }
        }
        n = n + 1;
    }
    assert(all.skip(n as int) =~= Seq::<Seq<char>>::empty());
    assert(text@ + Seq::<u8>::empty() =~= text@);
    Some(text)
}

/// Serves the parser the libraries that the request of a `mtllib` line
/// names, as `served` says.
pub fn load_library(libraries: &Vec<MaterialLibrary>, request: &[u8]) -> (r: Result<
    (Vec<tobj::Material>, HashMap<String, usize>),
    tobj::LoadError,
>)
    ensures
        match r {
            Ok((materials, _)) => served(library_table(libraries@), request@) == Ok::<
                Seq<tobj::Material>,
                tobj::LoadError,
            >(materials@),
            Err(e) => served(library_table(libraries@), request@) == Err::<
                Seq<tobj::Material>,
                tobj::LoadError,
            >(e),
        },
{
    let mut names: Vec<String> = Vec::new();
    push_names(&mut names, request);
    assert(texts_view(names@) =~= names_from(request@, 0));
    match join_libraries(libraries, &names) {
        None => Err(tobj::LoadError::OpenFileFailed),
        Some(text) => {
            if !is_utf8(text.as_slice()) {
                return Err(tobj::LoadError::ReadError);
            }
            match check_library_text(text.as_slice()) {
                Err(_) => Err(tobj::LoadError::MaterialParseError),
                Ok(()) => parse_library(text.as_slice()),
            }
        },
    }
}

/// Where a material of a scene comes from.
#[derive(Debug, Clone, PartialEq, Eq)]
pub struct MaterialOrigin {
    /// The name under which the document asks for the library of the
    /// material.
    pub library: String,
    /// Which colours of the material are colours of CIE XYZ.
    pub spaces: ColorSpaces,
}

/// What a `MaterialOrigin` holds.
pub struct MaterialOriginView {
    pub library: Seq<char>,
    pub spaces: ColorSpaces,
}

impl View for MaterialOrigin {
    type V = MaterialOriginView;

    open spec fn view(&self) -> MaterialOriginView {
        MaterialOriginView { library: self.library@, spaces: self.spaces }
    }
}

/// What a sequence of origins holds.
pub open spec fn origins_view(origins: Seq<MaterialOrigin>) -> Seq<MaterialOriginView> {
    Seq::new(origins.len(), |k: int| origins[k]@)
}

/// One origin for each material of the library of the name `name`, with
/// the colour spaces that the library notes for its materials in their
/// order.
pub open spec fn marks_of(name: Seq<char>, spaces: Seq<ColorSpaces>) -> Seq<MaterialOriginView> {
    Seq::new(spaces.len(), |n: int| MaterialOriginView { library: name, spaces: spaces[n] })
}

/// The origins of the materials of the libraries of the names `names`, one
/// library after the other; a name of which the table holds no library adds
/// none.
pub open spec fn marks(table: Seq<(Seq<char>, Seq<u8>)>, names: Seq<Seq<char>>) -> Seq<
    MaterialOriginView,
>
    decreases names.len(),
{
    if names.len() == 0 {
        Seq::empty()
    } else {
        marks(table, names.drop_last()) + (match library_position(table, names.last()) {
            None => Seq::empty(),
            Some(k) => marks_of(names.last(), library_spaces(table[k].1)),
        })
    }
}

/// The origins of the materials that the parser is served for the request of
/// a `mtllib` line: none where it is served an error.
pub open spec fn library_origins(table: Seq<(Seq<char>, Seq<u8>)>, request: Seq<u8>) -> Seq<
    MaterialOriginView,
> {
    match served(table, request) {
        Err(_) => Seq::empty(),
        Ok(_) => marks(table, names_from(request, 0)),
    }
}

/// The origins of the materials that the parser is served for the line that
/// starts at `i`.
pub open spec fn line_origins(s: Seq<u8>, i: int, table: Seq<(Seq<char>, Seq<u8>)>) -> Seq<
    MaterialOriginView,
> {
    if is_library_line(s, i) {
        library_origins(table, requested_name(s, i))
    } else {
        Seq::empty()
    }
}

/// The origins of the materials that the parser is served for the lines from
/// `i` on, in their order.
pub open spec fn origins_from(s: Seq<u8>, i: int, table: Seq<(Seq<char>, Seq<u8>)>) -> Seq<
    MaterialOriginView,
>
    decreases s.len() - i,
{
    if i < 0 || i >= s.len() {
        Seq::empty()
    } else if line_end(s, i) >= s.len() {
        line_origins(s, i, table)
    } else {
        proof {
            lemma_line_end_bounds(s, i);
        }
        line_origins(s, i, table) + origins_from(s, line_end(s, i) + 1, table)
    }
}

/// The origin of each material that the parser is served for a document, in
/// the order in which the `mtllib` lines of the document name the libraries.
pub open spec fn origins_of(document: Seq<u8>, table: Seq<(Seq<char>, Seq<u8>)>) -> Seq<
    MaterialOriginView,
> {
    origins_from(plain_text(document), 0, table)
}

/// Appends the origins of the materials of the libraries of the names, as
/// `marks` says.
fn push_marks(out: &mut Vec<MaterialOrigin>, libraries: &Vec<MaterialLibrary>, names: &Vec<String>)
    ensures
        origins_view(final(out)@) == origins_view(old(out)@) + marks(
            library_table(libraries@),
            texts_view(names@),
        ),
{
    let ghost table = library_table(libraries@);
    let ghost all = texts_view(names@);
    let ghost before = origins_view(out@);
    let mut n: usize = 0;
    assert(all.take(0) =~= Seq::<Seq<char>>::empty());
    assert(origins_view(out@) =~= before + marks(table, all.take(0)));
    while n < names.len()
        invariant
            n <= names.len(),
            table == library_table(libraries@),
            all == texts_view(names@),
            before == origins_view(old(out)@),
            origins_view(out@) == before + marks(table, all.take(n as int)),
        decreases names.len() - n,
    {
        proof {
            assert(all.take(n + 1).drop_last() =~= all.take(n as int));
            assert(all.take(n + 1).last() == names@[n as int]@);
        }
        let ghost start = origins_view(out@);
        match find_library(libraries, &names[n]) {
            None => {
                assert(start + Seq::<MaterialOriginView>::empty() =~= start);
            },
            Some(k) => {
                assert(table[k as int].1 == libraries@[k as int].bytes@);
                let spaces = color_spaces(libraries[k].bytes.as_slice());
                let ghost part = marks_of(names@[n as int]@, spaces@);
                let mut m: usize = 0;
                assert(start + part.take(0) =~= start);
                while m < spaces.len()
                    invariant
                        m <= spaces.len(),
                        n < names.len(),
                        part == marks_of(names@[n as int]@, spaces@),
                        origins_view(out@) == start + part.take(m as int),
                    decreases spaces.len() - m,
                {
                    let ghost held = origins_view(out@);
                    let origin = MaterialOrigin { library: names[n].clone(), spaces: spaces[m] };
                    assert(origin@ == part[m as int]);
                    out.push(origin);
                    assert(origins_view(out@) =~= held.push(part[m as int]));
                    assert(start + part.take(m + 1) =~= (start + part.take(m as int)).push(
                        part[m as int],
                    ));
                    m = m + 1;
                }
                assert(part.take(m as int) =~= part);
            },
        }
        assert(origins_view(out@) =~= before + marks(table, all.take(n + 1)));
        n = n + 1;
    }
    assert(all.take(n as int) =~= all);
}

/// The origin of each material that the parser is served for a document, as
/// `origins_of` says.
pub fn material_origins(document: &[u8], libraries: &Vec<MaterialLibrary>) -> (r: Vec<
    MaterialOrigin,
>)
    ensures
        origins_view(r@) == origins_of(document@, library_table(libraries@)),
{
    let ghost table = library_table(libraries@);
    let text = read_text(document);
    let bytes = text.as_slice();
    let mut out: Vec<MaterialOrigin> = Vec::new();
    let mut i: usize = 0;
    assert(origins_view(out@) =~= Seq::<MaterialOriginView>::empty());
    while i < bytes.len()
        invariant
            i <= bytes.len(),
            table == library_table(libraries@),
            bytes@ == plain_text(document@),
            origins_from(bytes@, 0, table) == origins_view(out@) + origins_from(
                bytes@,
                i as int,
                table,
            ),
        decreases bytes.len() - i,
    {
        let a = skip_blanks_from(bytes, i);
        let ghost before = origins_view(out@);
        if !is_line_end(bytes, a) {
            let b = word_end_from(bytes, a);
            match classify(bytes, a, b) {
                Keyword::Library => {
                    let request = request_of_line(bytes, i);
                    match load_library(libraries, request) {
                        Err(_) => {},
                        Ok(_) => {
                            let mut names: Vec<String> = Vec::new();
                            push_names(&mut names, request);
                            assert(texts_view(names@) =~= names_from(request@, 0));
                            push_marks(&mut out, libraries, &names);
                        },
                    }
                },
                _ => {},
            }
        }
        assert(origins_view(out@) =~= before + line_origins(bytes@, i as int, table));
        let e = line_end_from(bytes, i);
        if e == bytes.len() {
            assert(origins_from(bytes@, i as int, table) =~= line_origins(bytes@, i as int, table));
            return out;
        }
        assert(origins_view(out@) + origins_from(bytes@, e + 1, table) =~= before + (line_origins(
            bytes@,
            i as int,
            table,
        ) + origins_from(bytes@, e + 1, table)));
        i = e + 1;
    }
    assert(origins_from(bytes@, i as int, table) =~= Seq::<MaterialOriginView>::empty());
    assert(origins_view(out@) + Seq::<MaterialOriginView>::empty() =~= origins_view(out@));
    out
}

/// The failure that stands for an error of the parser.
pub open spec fn failure_of(e: tobj::LoadError) -> LoadFailure {
    match e {
        tobj::LoadError::OpenFileFailed => LoadFailure::OpenFileFailed,
        tobj::LoadError::ReadError => LoadFailure::ReadError,
        tobj::LoadError::UnrecognizedCharacter => LoadFailure::UnrecognizedCharacter,
        tobj::LoadError::PositionParseError => LoadFailure::PositionParseError,
        tobj::LoadError::ScalingByZeroError => LoadFailure::ScalingByZeroError,
        tobj::LoadError::ColorParseError => LoadFailure::ColorParseError,
        tobj::LoadError::NormalParseError => LoadFailure::NormalParseError,
        tobj::LoadError::TexcoordParseError => LoadFailure::TexcoordParseError,
        tobj::LoadError::FaceParseError => LoadFailure::FaceParseError,
        tobj::LoadError::MaterialParseError => LoadFailure::MaterialParseError,
        tobj::LoadError::InvalidObjectName => LoadFailure::InvalidObjectName,
        tobj::LoadError::InvalidPolygon => LoadFailure::InvalidPolygon,
        tobj::LoadError::FaceVertexOutOfBounds => LoadFailure::FaceVertexOutOfBounds,
        tobj::LoadError::FaceTexCoordOutOfBounds => LoadFailure::FaceTexCoordOutOfBounds,
        tobj::LoadError::FaceNormalOutOfBounds => LoadFailure::FaceNormalOutOfBounds,
        tobj::LoadError::FaceColorOutOfBounds => LoadFailure::FaceColorOutOfBounds,
        tobj::LoadError::InvalidLoadOptionConfig => LoadFailure::InvalidLoadOptionConfig,
        tobj::LoadError::GenericFailure => LoadFailure::GenericFailure,
    }
}

/// Maps an error of the parser to the failure that stands for it.
pub fn load_failure(e: tobj::LoadError) -> (f: LoadFailure)
    ensures
        f == failure_of(e),
{
    match e {
        tobj::LoadError::OpenFileFailed => LoadFailure::OpenFileFailed,
        tobj::LoadError::ReadError => LoadFailure::ReadError,
        tobj::LoadError::UnrecognizedCharacter => LoadFailure::UnrecognizedCharacter,
        tobj::LoadError::PositionParseError => LoadFailure::PositionParseError,
        tobj::LoadError::ScalingByZeroError => LoadFailure::ScalingByZeroError,
        tobj::LoadError::ColorParseError => LoadFailure::ColorParseError,
        tobj::LoadError::NormalParseError => LoadFailure::NormalParseError,
        tobj::LoadError::TexcoordParseError => LoadFailure::TexcoordParseError,
        tobj::LoadError::FaceParseError => LoadFailure::FaceParseError,
        tobj::LoadError::MaterialParseError => LoadFailure::MaterialParseError,
        tobj::LoadError::InvalidObjectName => LoadFailure::InvalidObjectName,
        tobj::LoadError::InvalidPolygon => LoadFailure::InvalidPolygon,
        tobj::LoadError::FaceVertexOutOfBounds => LoadFailure::FaceVertexOutOfBounds,
        tobj::LoadError::FaceTexCoordOutOfBounds => LoadFailure::FaceTexCoordOutOfBounds,
        tobj::LoadError::FaceNormalOutOfBounds => LoadFailure::FaceNormalOutOfBounds,
        tobj::LoadError::FaceColorOutOfBounds => LoadFailure::FaceColorOutOfBounds,
        tobj::LoadError::InvalidLoadOptionConfig => LoadFailure::InvalidLoadOptionConfig,
        tobj::LoadError::GenericFailure => LoadFailure::GenericFailure,
    }
}

/// What the loaders make of the bytes of a document: `EncodingError` where
/// the document, or what is read of it, is no UTF-8 text, the verdict of
/// `text_verdict` on what is read of it where that is an error,
/// `InvalidFile` where the parser refuses it, else what the parser hands
/// back.
pub open spec fn document_result(
    bytes: Seq<u8>,
    options: LoadOptionsDef,
    libraries: Seq<(Seq<char>, Seq<u8>)>,
) -> Result<ParsedView, ObjError> {
    let text = plain_text(bytes);
    if !valid_utf8(bytes) || !valid_utf8(text) {
        Err(ObjError::EncodingError)
    } else {
        match text_verdict(text) {
            Err(e) => Err(e),
            Ok(()) => match parsed_document(text, options, libraries) {
                Err(e) => Err(ObjError::InvalidFile(failure_of(e))),
                Ok(p) => Ok(p),
            },
        }
    }
}

/// Takes out of a document what is not read of it, checks the rest and
/// hands it to the parser, as `document_result` says. The libraries are
/// those that the host has read for the document; the parser is served from
/// them by name.
pub fn load_obj_data(bytes: &[u8], options: &LoadOptionsDef, libraries: &Vec<MaterialLibrary>)
    -> (r: Result<Parsed, ObjError>)
    ensures
        match r {
            Ok(p) => document_result(bytes@, *options, library_table(libraries@)) == Ok::<
                ParsedView,
                ObjError,
            >(p@),
            Err(e) => document_result(bytes@, *options, library_table(libraries@)) == Err::<
                ParsedView,
                ObjError,
            >(e),
        },
{
    if !is_utf8(bytes) {
        return Err(ObjError::EncodingError);
    }
    let text = read_text(bytes);
    if !is_utf8(text.as_slice()) {
        return Err(ObjError::EncodingError);
    }
    match check_text(text.as_slice()) {
        Err(e) => {
            return Err(e);
        },
        Ok(()) => {},
    }
    match parse_document(text.as_slice(), options, libraries) {
        Err(e) => Err(ObjError::InvalidFile(load_failure(e))),
        Ok(p) => Ok(p),
    }
}

/// The models that the parser handed back, each as what it holds.
pub open spec fn models_contents(models: Seq<tobj::Model>) -> Seq<RawModelView> {
    models.map_values(|m: tobj::Model| model_contents(m))
}

/// The materials that the parser handed back, each as what it holds.
pub open spec fn materials_contents(materials: Seq<tobj::Material>) -> Seq<RawMaterialView> {
    materials.map_values(|m: tobj::Material| material_view(m))
}

/// What a sequence of models holds.
pub open spec fn models_view(models: Seq<RawModel>) -> Seq<RawModelView> {
    models.map_values(|m: RawModel| m@)
}

/// What a sequence of materials holds.
pub open spec fn materials_view(materials: Seq<RawMaterial>) -> Seq<RawMaterialView> {
    materials.map_values(|m: RawMaterial| m@)
}

/// Copies the models out of what the parser handed back.
pub fn raw_models(models: &Vec<tobj::Model>) -> (r: Vec<RawModel>)
    ensures
        models_view(r@) == models_contents(models@),
{
    let mut out: Vec<RawModel> = Vec::new();
    let mut k: usize = 0;
    while k < models.len()
        invariant
            k <= models.len(),
            out.len() == k,
            forall|j: int| 0 <= j < k ==> (#[trigger] out@[j])@ == model_contents(models@[j]),
        decreases models.len() - k,
    {
        out.push(raw_model(&models[k]));
        k = k + 1;
    }
    assert(models_view(out@) =~= models_contents(models@));
    out
}

/// Copies the materials out of what the parser handed back.
pub fn raw_materials(materials: &Vec<tobj::Material>) -> (r: Vec<RawMaterial>)
    ensures
        materials_view(r@) == materials_contents(materials@),
{
    let mut out: Vec<RawMaterial> = Vec::new();
    let mut k: usize = 0;
    while k < materials.len()
        invariant
            k <= materials.len(),
            out.len() == k,
            forall|j: int|
                0 <= j < k ==> (#[trigger] out@[j])@ == material_view(materials@[j]),
        decreases materials.len() - k,
    {
        out.push(raw_material(&materials[k]));
        k = k + 1;
    }
    assert(materials_view(out@) =~= materials_contents(materials@));
    out
}

} // verus!
