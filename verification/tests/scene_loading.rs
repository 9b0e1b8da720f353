use bevy_obj::{
    check_library, choose_material, color_spaces, home_of_library, library_requests,
    load_obj_as_scene,
    load_obj_data, load_obj_scene, material_origins, number_of, plan_scene, read_library,
    ColorSpaces, MaterialOrigin, resolve_texture, texture_extension, EntityPlan, ErrorKind, LoadFailure, LoadOptionsDef,
    MaterialLibrary, MeshFault, Normals, ObjError, ObjLoader, ObjSettings, RawMaterial, RawMesh,
    RawModel,
};

const TRIANGLE: &str = "v 0 0 0\nv 1 0 0\nv 1 1 0\nf 1 2 3\n";

fn library(name: &str, text: &str) -> MaterialLibrary {
    MaterialLibrary {
        name: name.to_string(),
        bytes: text.as_bytes().to_vec(),
    }
}

fn color(r: f32, g: f32, b: f32) -> Option<[u32; 3]> {
    Some([r.to_bits(), g.to_bits(), b.to_bits()])
}

#[test]
fn a_material_of_a_library_is_resolved_by_its_name() {
    let document = format!("mtllib red.mtl\nusemtl Red\n{}", TRIANGLE);
    let libraries = vec![library("red.mtl", "newmtl Red\nKd 1 0 0\n")];
    let scene = load_obj_scene(document.as_bytes(), "models/cube.obj", &libraries).unwrap();
    assert_eq!(scene.materials.len(), 1);
    assert_eq!(scene.materials[0].name, "Red");
    assert_eq!(scene.materials[0].label, "Material0");
    assert_eq!(scene.materials[0].base_color, color(1.0, 0.0, 0.0));
    assert_eq!(scene.materials[0].opacity, None);
    assert_eq!(scene.materials[0].base_color_texture, None);
    assert_eq!(scene.materials[0].normal_map_texture, None);
    assert!(!scene.materials[0].alpha_blend);
    assert_eq!(scene.meshes.len(), 1);
    assert_eq!(scene.meshes[0].label, "Mesh0");
    assert_eq!(scene.meshes[0].data.indices, vec![0, 1, 2]);
    assert_eq!(scene.meshes[0].data.normals, Normals::Smooth);
    assert_eq!(
        scene.entities,
        vec![EntityPlan {
            mesh: 0,
            material: Some(0)
        }]
    );
}

#[test]
fn a_material_that_no_library_holds_gives_the_default_material() {
    let document = format!("mtllib red.mtl\nusemtl Ghost\n{}", TRIANGLE);
    let libraries = vec![library("red.mtl", "newmtl Red\nKd 1 0 0\n")];
    let scene = load_obj_scene(document.as_bytes(), "cube.obj", &libraries).unwrap();
    assert_eq!(scene.materials.len(), 1);
    assert_eq!(scene.meshes.len(), 1);
    assert_eq!(scene.meshes[0].data.indices, vec![0, 1, 2]);
    assert_eq!(
        scene.entities,
        vec![EntityPlan {
            mesh: 0,
            material: None
        }]
    );
}

#[test]
fn a_library_that_was_not_read_is_a_material_load_error() {
    let document = format!("mtllib ghost.mtl\nusemtl Ghost\n{}", TRIANGLE);
    let error = load_obj_scene(document.as_bytes(), "models/cube.obj", &Vec::new()).unwrap_err();
    assert_eq!(
        error,
        ObjError::MaterialLoadError {
            document: "models/cube.obj".to_string(),
            library: Some("ghost.mtl".to_string()),
            cause: LoadFailure::OpenFileFailed
        }
    );
    assert_eq!(error.kind(), ErrorKind::MaterialLoad);
}

#[test]
fn a_colour_that_lacks_a_component_is_refused_before_the_parser_sees_it() {
    assert_eq!(
        check_library(b"newmtl A\nKd 1 0\n"),
        Err(ObjError::NumericParseError { line: 2 })
    );
    assert_eq!(
        check_library(b"newmtl A\n  Ke\n"),
        Err(ObjError::NumericParseError { line: 2 })
    );
    assert_eq!(check_library(b"newmtl A\nKd 1 0 0\nKs 0 0 0 1\nKz 1\n"), Ok(()));
    assert_eq!(check_library(b""), Ok(()));
    assert_eq!(
        check_library(b"newmtl A\nKd 1 0 0\nKs 1 zero 0\n"),
        Err(ObjError::NumericParseError { line: 3 })
    );
    assert_eq!(
        check_library(b"newmtl A\nNs 10\nNi 1.5\nd 0.5\nPr .5\nPm 1\nPc 1\nPcr 0\naniso 0\nanisor 0\n"),
        Ok(())
    );
    for line in ["Ns", "Ni ten", "d", "Pr rough", "Pm", "Pc x", "Pcr", "aniso -", "anisor 1e"] {
        let library = format!("newmtl A\n\n{}\n", line);
        assert_eq!(
            check_library(library.as_bytes()),
            Err(ObjError::NumericParseError { line: 3 })
        );
    }
    assert_eq!(check_library(b"anisotropy x\nPrr x\nN s\nds x\n"), Ok(()));

    let document = format!("mtllib a.mtl\nusemtl A\n{}", TRIANGLE);
    let libraries = vec![library("a.mtl", "newmtl A\nKd 1 0\n")];
    assert_eq!(
        load_obj_scene(document.as_bytes(), "cube.obj", &libraries),
        Err(ObjError::MaterialLoadError {
            document: "cube.obj".to_string(),
            library: None,
            cause: LoadFailure::MaterialParseError
        })
    );
}

#[test]
fn a_library_that_is_no_text_is_a_material_load_error() {
    let document = format!("mtllib bad.mtl\nusemtl A\n{}", TRIANGLE);
    let libraries = vec![MaterialLibrary {
        name: "bad.mtl".to_string(),
        bytes: vec![b'n', 0xFF, b'\n'],
    }];
    assert_eq!(
        load_obj_scene(document.as_bytes(), "cube.obj", &libraries),
        Err(ObjError::MaterialLoadError {
            document: "cube.obj".to_string(),
            library: None,
            cause: LoadFailure::ReadError
        })
    );
}

#[test]
fn a_document_without_libraries_has_no_materials() {
    let scene = load_obj_scene(TRIANGLE.as_bytes(), "cube.obj", &Vec::new()).unwrap();
    assert!(scene.materials.is_empty());
    assert_eq!(
        scene.entities,
        vec![EntityPlan {
            mesh: 0,
            material: None
        }]
    );
}

#[test]
fn each_model_becomes_a_mesh_and_an_entity() {
    let document = "mtllib two.mtl\no first\nusemtl B\nv 0 0 0\nv 1 0 0\nv 1 1 0\nf 1 2 3\no second\nusemtl A\nv 0 0 1\nv 1 0 1\nv 1 1 1\nf 4 5 6\n";
    let libraries = vec![library(
        "two.mtl",
        "newmtl A\nKd 0 1 0\nd 0.5\nmap_d alpha.png\nnewmtl B\nKd 0 0 1\nmap_Kd -bm 1.0 wood.png\nmap_Bump -bm 0.2 bumps in wood.png\n",
    )];
    let settings = ObjSettings::default();
    let scene =
        load_obj_as_scene(document.as_bytes(), "assets/house/house.obj", &libraries, &settings)
            .unwrap();
    assert_eq!(scene.materials.len(), 2);
    assert_eq!(scene.materials[0].name, "A");
    assert_eq!(scene.materials[0].base_color, color(0.0, 1.0, 0.0));
    assert_eq!(scene.materials[0].opacity, Some(0.5f32.to_bits()));
    assert!(scene.materials[0].alpha_blend);
    assert_eq!(scene.materials[1].name, "B");
    assert_eq!(scene.materials[1].label, "Material1");
    assert_eq!(
        scene.materials[1].base_color_texture,
        Some("assets/house/wood.png".to_string())
    );
    assert_eq!(
        scene.materials[1].normal_map_texture,
        Some("assets/house/bumps in wood.png".to_string())
    );
    assert!(!scene.materials[1].alpha_blend);

    assert_eq!(scene.meshes.len(), 2);
    assert_eq!(scene.meshes[0].label, "Mesh0");
    assert_eq!(scene.meshes[1].label, "Mesh1");
    assert_eq!(scene.meshes[0].data.indices, vec![0, 1, 2]);
    assert_eq!(scene.meshes[1].data.indices, vec![0, 1, 2]);
    assert_eq!(scene.meshes[1].data.positions[0], [0.0f32.to_bits(), 0.0f32.to_bits(), 1.0f32.to_bits()]);
    assert_eq!(scene.meshes[0].data.normals, Normals::Smooth);
    assert_eq!(
        scene.entities,
        vec![
            EntityPlan {
                mesh: 0,
                material: Some(1)
            },
            EntityPlan {
                mesh: 1,
                material: Some(0)
            }
        ]
    );
    assert_eq!(
        ObjLoader.load(document.as_bytes(), "assets/house/house.obj", &libraries, &settings),
        Ok(scene)
    );
    assert_eq!(ObjLoader.extensions(), vec!["obj", "OBJ"]);
}

#[test]
fn the_first_library_of_a_name_is_served() {
    let document = format!("mtllib m.mtl\nusemtl M\n{}", TRIANGLE);
    let libraries = vec![
        library("other.mtl", "newmtl M\nKd 0 0 1\n"),
        library("m.mtl", "newmtl M\nKd 1 0 0\n"),
        library("m.mtl", "newmtl M\nKd 0 1 0\n"),
    ];
    let scene = load_obj_scene(document.as_bytes(), "cube.obj", &libraries).unwrap();
    assert_eq!(scene.materials.len(), 1);
    assert_eq!(scene.materials[0].base_color, color(1.0, 0.0, 0.0));
}

#[test]
fn the_scene_is_parsed_for_a_realtime_renderer_whatever_the_options() {
    let document = "v 0 0 0\nv 1 0 0\nv 1 1 0\nv 0 1 0\nf 1 2 3 4\n";
    let settings = ObjSettings {
        force_compute_normals: false,
        prefer_flat_normals: true,
        load_options: LoadOptionsDef::default(),
    };
    let scene = load_obj_as_scene(document.as_bytes(), "quad.obj", &Vec::new(), &settings).unwrap();
    assert_eq!(scene.meshes[0].data.indices, vec![0, 1, 2, 0, 2, 3]);
    assert_eq!(scene.meshes[0].data.normals, Normals::Flat);
}

#[test]
fn the_errors_of_the_document_come_before_its_materials() {
    let libraries = vec![library("red.mtl", "newmtl Red\nKd 1 0 0\n")];
    assert_eq!(
        load_obj_scene(&[0xC0, 0x80], "cube.obj", &libraries),
        Err(ObjError::EncodingError)
    );
    assert_eq!(
        load_obj_scene(b"mtllib ghost.mtl\nv 0 0 0\nf 1 2 3\n", "cube.obj", &libraries),
        Err(ObjError::IndexOutOfRangeError { line: 3 })
    );
    assert_eq!(
        load_obj_scene(b"vn 0 0\n", "cube.obj", &libraries),
        Err(ObjError::NumericParseError { line: 1 })
    );
    assert_eq!(
        load_obj_scene(b"v 1 1 1\nusemtl\n", "cube.obj", &libraries),
        Err(ObjError::InvalidFile(LoadFailure::MaterialParseError))
    );
}

#[test]
fn the_parser_hands_back_models_and_materials() {
    let document = format!("mtllib red.mtl\no thing\nusemtl Red\n{}", TRIANGLE);
    let libraries = vec![library("red.mtl", "newmtl Red\nKd 1 0 0\n")];
    let parsed = load_obj_data(document.as_bytes(), &LoadOptionsDef::gpu(), &libraries).unwrap();
    assert_eq!(parsed.models.len(), 1);
    assert_eq!(parsed.models[0].name, "thing");
    assert_eq!(parsed.models[0].mesh.material_id, Some(0));
    assert_eq!(parsed.materials.as_ref().unwrap().len(), 1);
    assert!(load_obj_data(&[0xFF], &LoadOptionsDef::gpu(), &libraries).is_err());
}

#[test]
fn the_requests_of_a_document_are_its_library_lines() {
    assert_eq!(library_requests(b""), Vec::<String>::new());
    assert_eq!(library_requests(TRIANGLE.as_bytes()), Vec::<String>::new());
    // Every word after the keyword is the name of a library.
    assert_eq!(
        library_requests(b"mtllib a.mtl\nv 0 0 0\n  mtllib   two words.mtl  \r\nmtllib last.mtl"),
        vec![
            "a.mtl".to_string(),
            "two".to_string(),
            "words.mtl".to_string(),
            "last.mtl".to_string()
        ]
    );
    // Any white space parts the keyword from the names; a line without
    // names asks for nothing.
    assert_eq!(
        library_requests(b"mtllib\nmtllib\ttab.mtl\nmtllibs x.mtl\n mtllib\x0bv.mtl\x0c"),
        vec!["tab.mtl".to_string(), "v.mtl".to_string()]
    );
    assert_eq!(
        library_requests("mtllib caf\u{e9}.mtl\u{a0}\n".as_bytes()),
        vec!["caf\u{e9}.mtl".to_string()]
    );
}

#[test]
fn comments_are_no_part_of_names_and_numbers() {
    assert_eq!(
        library_requests(b"mtllib a.mtl # the main one\n# mtllib b.mtl\nmtllib c#d.mtl\n"),
        vec!["a.mtl".to_string(), "c".to_string()]
    );
    assert_eq!(check_library(b"newmtl A # first\nKd 1 0 0 # red\n# Kd 1\n"), Ok(()));
    assert_eq!(
        check_library(b"newmtl A\nKd 1 0 # 0\n"),
        Err(ObjError::NumericParseError { line: 2 })
    );
    let document = format!("mtllib red.mtl # beside\nusemtl Red # the only one\n{}", TRIANGLE);
    let libraries = vec![library(
        "red.mtl",
        "# made by hand\nnewmtl Red # as it says\nKd 1 0 0 # red\nmap_Kd wood.png # oak\n",
    )];
    let scene = load_obj_scene(document.as_bytes(), "cube.obj", &libraries).unwrap();
    assert_eq!(scene.materials[0].name, "Red");
    assert_eq!(scene.materials[0].base_color, color(1.0, 0.0, 0.0));
    assert_eq!(
        scene.materials[0].base_color_texture,
        Some("wood.png".to_string())
    );
    assert_eq!(scene.entities[0].material, Some(0));
}

#[test]
fn a_host_that_reads_what_is_requested_gets_its_materials() {
    let document = format!(
        "  mtllib\ta.mtl  b.mtl \r\n\tusemtl\u{a0}Blue\n{}mtllib\n",
        TRIANGLE
    );
    let requests = library_requests(document.as_bytes());
    assert_eq!(requests, vec!["a.mtl".to_string(), "b.mtl".to_string()]);
    let libraries = vec![
        library(&requests[1], "newmtl Blue\nKd 0 0 1\nmap_Kd sky.png"),
        library(&requests[0], "newmtl Red\nKd 1 0 0"),
    ];
    let scene = load_obj_scene(document.as_bytes(), "models/cube.obj", &libraries).unwrap();
    assert_eq!(scene.materials.len(), 2);
    assert_eq!(scene.materials[0].name, "Red");
    assert_eq!(scene.materials[0].base_color, color(1.0, 0.0, 0.0));
    assert_eq!(scene.materials[1].name, "Blue");
    assert_eq!(scene.materials[1].base_color, color(0.0, 0.0, 1.0));
    assert_eq!(
        scene.materials[1].base_color_texture,
        Some("models/sky.png".to_string())
    );
    assert_eq!(scene.entities[0].material, Some(1));

    // White space before a keyword is no part of a name.
    let document = format!(" mtllib a.mtl\n  usemtl Red \n{}", TRIANGLE);
    let scene = load_obj_scene(document.as_bytes(), "cube.obj", &libraries).unwrap();
    assert_eq!(scene.materials.len(), 1);
    assert_eq!(scene.entities[0].material, Some(0));
}

#[test]
fn a_line_of_libraries_is_served_whole_or_not_at_all() {
    let document = format!("mtllib a.mtl ghost.mtl\nmtllib b.mtl\nusemtl Blue\n{}", TRIANGLE);
    let libraries = vec![
        library("a.mtl", "newmtl Red\nKd 1 0 0\n"),
        library("b.mtl", "newmtl Blue\nKd 0 0 1\n"),
    ];
    let scene = load_obj_scene(document.as_bytes(), "cube.obj", &libraries).unwrap();
    assert_eq!(scene.materials.len(), 1);
    assert_eq!(scene.materials[0].name, "Blue");
    assert_eq!(scene.entities[0].material, Some(0));
    assert_eq!(
        material_origins(document.as_bytes(), &libraries),
        vec![origin("b.mtl", PLAIN)]
    );

    let document = format!("mtllib a.mtl ghost.mtl\nusemtl Red\n{}", TRIANGLE);
    assert_eq!(
        load_obj_scene(document.as_bytes(), "cube.obj", &libraries),
        Err(ObjError::MaterialLoadError {
            document: "cube.obj".to_string(),
            library: Some("ghost.mtl".to_string()),
            cause: LoadFailure::OpenFileFailed
        })
    );
}

#[test]
fn textures_lie_beside_the_document() {
    assert_eq!(
        resolve_texture("models/cube.obj", &Some("-bm 1.0 wood.png".to_string())),
        Some("models/wood.png".to_string())
    );
    assert_eq!(
        resolve_texture("cube.obj", &Some("wood.png".to_string())),
        Some("wood.png".to_string())
    );
    assert_eq!(
        resolve_texture("a/b/cube.obj", &Some("textures/wood.png".to_string())),
        Some("a/b/textures/wood.png".to_string())
    );
    assert_eq!(resolve_texture("models/cube.obj", &None), None);
    assert_eq!(
        resolve_texture("models/cube.obj", &Some("-clamp on".to_string())),
        None
    );
    assert_eq!(resolve_texture("models/cube.obj", &Some("".to_string())), None);
}

fn model(name: &str, material_id: Option<usize>, indices: &[u32]) -> RawModel {
    RawModel {
        name: name.to_string(),
        mesh: RawMesh {
            positions: vec![0; 9],
            normals: Vec::new(),
            texcoords: Vec::new(),
            indices: indices.to_vec(),
            face_arities: Vec::new(),
            normal_indices: Vec::new(),
            texcoord_indices: Vec::new(),
            material_id,
        },
    }
}

fn material(name: &str) -> RawMaterial {
    RawMaterial {
        name: name.to_string(),
        diffuse: None,
        specular: None,
        emissive: None,
        dissolve: None,
        diffuse_texture: None,
        normal_texture: None,
        dissolve_texture: None,
        roughness: None,
        metallic: Some("1".to_string()),
        clearcoat: None,
        clearcoat_roughness: None,
        anisotropy: None,
        anisotropy_rotation: None,
    }
}

#[test]
fn a_plan_addresses_its_parts_by_position() {
    let models = vec![
        model("a", Some(1), &[0, 1, 2]),
        model("b", None, &[2, 1, 0]),
        model("c", Some(2), &[0, 0, 0]),
    ];
    let materials = vec![material("x"), material("y")];
    let scene = plan_scene(models, materials, &Vec::new(), "doc.obj", &ObjSettings::default()).unwrap();
    assert_eq!(scene.materials.len(), 2);
    assert_eq!(scene.materials[1].label, "Material1");
    assert_eq!(scene.materials[1].name, "y");
    assert_eq!(scene.materials[1].metallic, Some("1".to_string()));
    assert_eq!(scene.materials[1].roughness, None);
    assert_eq!(scene.meshes.len(), 3);
    assert_eq!(scene.meshes[2].label, "Mesh2");
    assert_eq!(scene.meshes[1].data.indices, vec![2, 1, 0]);
    assert_eq!(
        scene.entities,
        vec![
            EntityPlan {
                mesh: 0,
                material: Some(1)
            },
            EntityPlan {
                mesh: 1,
                material: None
            },
            EntityPlan {
                mesh: 2,
                material: None
            }
        ]
    );
}

#[test]
fn the_first_model_that_makes_no_mesh_gives_the_error_of_the_plan() {
    let models = vec![
        model("a", None, &[0, 1, 2]),
        model("b", None, &[0, 1]),
        model("c", None, &[0, 1, 3]),
    ];
    assert_eq!(
        plan_scene(models, Vec::new(), &Vec::new(), "doc.obj", &ObjSettings::default()),
        Err(ObjError::InvalidMesh(MeshFault::NotTriangles))
    );
    let models = vec![model("c", None, &[0, 1, 3]), model("b", None, &[0, 1])];
    assert_eq!(
        plan_scene(models, Vec::new(), &Vec::new(), "doc.obj", &ObjSettings::default()),
        Err(ObjError::InvalidMesh(MeshFault::IndexOutOfRange))
    );
    let scene = plan_scene(Vec::new(), Vec::new(), &Vec::new(), "doc.obj", &ObjSettings::default()).unwrap();
    assert!(scene.meshes.is_empty());
    assert!(scene.entities.is_empty());
    assert!(scene.materials.is_empty());
}

#[test]
fn scalar_parameters_are_kept_as_the_library_writes_them() {
    let document = format!("mtllib pbr.mtl\nusemtl Gold\n{}", TRIANGLE);
    let libraries = vec![library(
        "pbr.mtl",
        "newmtl Gold\nKd 1 0.8 0\nPr 0.25 and more\nPm  1.0  \nPc 0.5\nPcr 0.1\naniso 0.3\nanisor 0.7\nnewmtl Plain\nKd 1 1 1\n",
    )];
    let scene = load_obj_scene(document.as_bytes(), "gold.obj", &libraries).unwrap();
    assert_eq!(scene.materials.len(), 2);
    let gold = &scene.materials[0];
    assert_eq!(gold.roughness, Some("0.25".to_string()));
    assert_eq!(gold.metallic, Some("1.0".to_string()));
    assert_eq!(gold.clearcoat, Some("0.5".to_string()));
    assert_eq!(gold.clearcoat_roughness, Some("0.1".to_string()));
    assert_eq!(gold.anisotropy, Some("0.3".to_string()));
    assert_eq!(gold.anisotropy_rotation, Some("0.7".to_string()));
    let plain = &scene.materials[1];
    assert_eq!(plain.roughness, None);
    assert_eq!(plain.metallic, None);
    assert_eq!(plain.clearcoat, None);
    assert_eq!(plain.clearcoat_roughness, None);
    assert_eq!(plain.anisotropy, None);
    assert_eq!(plain.anisotropy_rotation, None);
}

#[test]
fn the_kind_of_an_image_is_the_extension_of_its_file() {
    assert_eq!(texture_extension("models/wood.png"), Ok("png".to_string()));
    assert_eq!(texture_extension("wood.old.JPG"), Ok("JPG".to_string()));
    let error = texture_extension("models.d/wood").unwrap_err();
    assert_eq!(
        error,
        ObjError::TextureResolutionError {
            path: "models.d/wood".to_string()
        }
    );
    assert_eq!(error.kind(), ErrorKind::TextureResolution);
    assert_eq!(
        texture_extension("wood."),
        Err(ObjError::TextureResolutionError {
            path: "wood.".to_string()
        })
    );
    assert_eq!(
        texture_extension(""),
        Err(ObjError::TextureResolutionError {
            path: "".to_string()
        })
    );
}

#[test]
fn the_number_of_a_statement_is_its_first_word() {
    assert_eq!(number_of(&Some("0.5".to_string())), Some("0.5".to_string()));
    assert_eq!(
        number_of(&Some("  1e-3 and more".to_string())),
        Some("1e-3".to_string())
    );
    assert_eq!(number_of(&Some("rough 0.5".to_string())), None);
    assert_eq!(number_of(&Some("".to_string())), None);
    assert_eq!(number_of(&None), None);
}

#[test]
fn a_scalar_that_is_no_number_makes_the_library_fail() {
    let document = format!("mtllib pbr.mtl\nusemtl Gold\n{}", TRIANGLE);
    let libraries = vec![library("pbr.mtl", "newmtl Gold\nPr rough\n")];
    assert_eq!(
        load_obj_scene(document.as_bytes(), "gold.obj", &libraries),
        Err(ObjError::MaterialLoadError {
            document: "gold.obj".to_string(),
            library: None,
            cause: LoadFailure::MaterialParseError
        })
    );
}

#[test]
fn the_error_names_the_first_library_that_was_not_read() {
    let document = format!("mtllib a.mtl\nmtllib b.mtl\nmtllib c.mtl\nusemtl X\n{}", TRIANGLE);
    let libraries = vec![library("a.mtl", "# nothing\n")];
    assert_eq!(
        load_obj_scene(document.as_bytes(), "cube.obj", &libraries),
        Err(ObjError::MaterialLoadError {
            document: "cube.obj".to_string(),
            library: Some("b.mtl".to_string()),
            cause: LoadFailure::OpenFileFailed
        })
    );
    // One library with a material is enough for the scene.
    let libraries = vec![library("c.mtl", "newmtl X\nKd 0 0 0\n")];
    let scene = load_obj_scene(document.as_bytes(), "cube.obj", &libraries).unwrap();
    assert_eq!(scene.entities[0].material, Some(0));
}

#[test]
fn textures_lie_beside_the_library_that_names_them() {
    let document = format!(
        "mtllib shared/wood.mtl\nmtllib missing.mtl\nmtllib metal.mtl\nusemtl Steel\n{}",
        TRIANGLE
    );
    let libraries = vec![
        library("metal.mtl", "newmtl Steel\nmap_Kd steel.png\n"),
        library(
            "shared/wood.mtl",
            "newmtl Oak\nmap_Kd oak.png\nnewmtl Pine\nmap_Bump -bm 2 bark/pine.png\n",
        ),
    ];
    let scene = load_obj_scene(document.as_bytes(), "models/house/house.obj", &libraries).unwrap();
    assert_eq!(scene.materials.len(), 3);
    assert_eq!(scene.materials[0].name, "Oak");
    assert_eq!(
        scene.materials[0].base_color_texture,
        Some("models/house/shared/oak.png".to_string())
    );
    assert_eq!(scene.materials[1].name, "Pine");
    assert_eq!(
        scene.materials[1].normal_map_texture,
        Some("models/house/shared/bark/pine.png".to_string())
    );
    assert_eq!(scene.materials[2].name, "Steel");
    assert_eq!(
        scene.materials[2].base_color_texture,
        Some("models/house/steel.png".to_string())
    );
    assert_eq!(scene.entities[0].material, Some(2));
}

const PLAIN: ColorSpaces = ColorSpaces {
    diffuse_xyz: false,
    specular_xyz: false,
    emissive_xyz: false,
};

fn origin(library: &str, spaces: ColorSpaces) -> MaterialOrigin {
    MaterialOrigin {
        library: library.to_string(),
        spaces,
    }
}

#[test]
fn the_home_of_a_material_is_the_path_of_its_library() {
    assert_eq!(home_of_library("a/b.obj", "x.mtl"), "a/x.mtl");
    assert_eq!(home_of_library("a/b.obj", "c/y.mtl"), "a/c/y.mtl");
    assert_eq!(home_of_library("a/b.obj", ""), "a/");
    assert_eq!(home_of_library("b.obj", "x.mtl"), "x.mtl");

    let mut with_texture = material("z");
    with_texture.diffuse_texture = Some("t.png".to_string());
    let origins = vec![
        origin("lib/one.mtl", PLAIN),
        origin("two.mtl", PLAIN),
        origin(
            "deep/er/three.mtl",
            ColorSpaces {
                diffuse_xyz: true,
                ..PLAIN
            },
        ),
    ];
    let scene = plan_scene(
        Vec::new(),
        vec![material("x"), material("y"), with_texture.clone()],
        &origins,
        "doc.obj",
        &ObjSettings::default(),
    )
    .unwrap();
    assert_eq!(
        scene.materials[2].base_color_texture,
        Some("deep/er/t.png".to_string())
    );
    assert!(scene.materials[2].base_color_xyz);
    assert!(!scene.materials[1].base_color_xyz);
    // Origins that do not fit the materials count for nothing.
    let scene = plan_scene(
        Vec::new(),
        vec![with_texture],
        &origins,
        "models/doc.obj",
        &ObjSettings::default(),
    )
    .unwrap();
    assert_eq!(
        scene.materials[0].base_color_texture,
        Some("models/t.png".to_string())
    );
    assert!(!scene.materials[0].base_color_xyz);
}

#[test]
fn every_material_has_the_origin_of_its_library() {
    let libraries = vec![
        library("a.mtl", "newmtl One\nKd xyz 1 1 1\nnewmtl Two\nKe xyz 0 0 0\n"),
        library("bad.mtl", "newmtl Three\nKd 1\n"),
        library("c.mtl", "newmtl Four\n"),
    ];
    let document = b"mtllib c.mtl\nmtllib bad.mtl\nmtllib missing.mtl\nv 0 0 0\nmtllib a.mtl\nmtllib c.mtl\n";
    assert_eq!(
        material_origins(document, &libraries),
        vec![
            origin("c.mtl", PLAIN),
            origin(
                "a.mtl",
                ColorSpaces {
                    diffuse_xyz: true,
                    ..PLAIN
                }
            ),
            origin(
                "a.mtl",
                ColorSpaces {
                    emissive_xyz: true,
                    ..PLAIN
                }
            ),
            origin("c.mtl", PLAIN),
        ]
    );
    assert_eq!(material_origins(b"", &libraries), Vec::new());
    assert_eq!(material_origins(b"mtllib\n", &libraries), Vec::new());
    // The libraries of one line follow each other.
    assert_eq!(
        material_origins(b"mtllib c.mtl a.mtl", &libraries),
        vec![
            origin("c.mtl", PLAIN),
            origin(
                "a.mtl",
                ColorSpaces {
                    diffuse_xyz: true,
                    ..PLAIN
                }
            ),
            origin(
                "a.mtl",
                ColorSpaces {
                    emissive_xyz: true,
                    ..PLAIN
                }
            ),
        ]
    );
    assert_eq!(material_origins(b"mtllib c.mtl bad.mtl", &libraries), Vec::new());
}

#[test]
fn a_colour_of_cie_xyz_is_noted_and_read() {
    let text = "newmtl A # one\nKd  xyz 0.25 0.5 0.75\nKs xyz 1 1 1\nKs 1 1 1\n\nnewmtl B\nKd 1 0 0\nKa xyz 0 0 0\nKe\txyz\t1 2 3\nxyz\nKd xyzzy 1 2 3";
    assert_eq!(
        read_library(text.as_bytes()),
        "newmtl A      \nKd      0.25 0.5 0.75\nKs     1 1 1\nKs 1 1 1\n\nnewmtl B\nKd 1 0 0\nKa     0 0 0\nKe\t   \t1 2 3\nxyz\nKd xyzzy 1 2 3"
            .as_bytes()
    );
    assert_eq!(
        color_spaces(text.as_bytes()),
        vec![
            ColorSpaces {
                diffuse_xyz: true,
                specular_xyz: false,
                emissive_xyz: false
            },
            ColorSpaces {
                diffuse_xyz: false,
                specular_xyz: false,
                emissive_xyz: true
            }
        ]
    );
    assert_eq!(
        check_library(text.as_bytes()),
        Err(ObjError::NumericParseError { line: 11 })
    );
    assert_eq!(check_library(b"newmtl A\nKd xyz 1 2 3\n"), Ok(()));
    assert_eq!(
        check_library(b"newmtl A\nKd xyz 1 2\n"),
        Err(ObjError::NumericParseError { line: 2 })
    );
    assert_eq!(
        check_library(b"newmtl A\nKd xyz xyz 1 2 3\n"),
        Err(ObjError::NumericParseError { line: 2 })
    );
    assert_eq!(
        check_library(b"newmtl A\nNs xyz 1\n"),
        Err(ObjError::NumericParseError { line: 2 })
    );
    assert_eq!(color_spaces(b"Kd xyz 1 1 1\n"), Vec::new());
    assert_eq!(color_spaces(b"newmtl A\n# Kd xyz 1 1 1\nnewmtl B"), vec![PLAIN, PLAIN]);

    let document = format!("mtllib two.mtl\nusemtl B\n{}", TRIANGLE);
    let libraries = vec![library(
        "two.mtl",
        "newmtl A\nKd xyz 0.25 0.5 0.75\nnewmtl B\nKd 1 0 0\n",
    )];
    let scene = load_obj_scene(document.as_bytes(), "doc.obj", &libraries).unwrap();
    assert_eq!(scene.materials[0].base_color, color(0.25, 0.5, 0.75));
    assert!(scene.materials[0].base_color_xyz);
    assert_eq!(scene.materials[1].base_color, color(1.0, 0.0, 0.0));
    assert!(!scene.materials[1].base_color_xyz);
    assert_eq!(scene.entities[0].material, Some(1));
}

#[test]
fn the_first_library_that_holds_a_name_wins() {
    let libraries = vec![
        library("a.mtl", "newmtl X\nKd 1 0 0\nnewmtl Y\nKd 0 1 0\nnewmtl X\nKd 1 1 0\n"),
        library("b.mtl", "newmtl X\nKd 0 0 1\nnewmtl Z\nKd 0 1 1\n"),
    ];
    // Of the two libraries the first wins, and in it the last of the name.
    for lines in ["mtllib a.mtl\nmtllib b.mtl\n", "mtllib a.mtl b.mtl\n"] {
        let document = format!("{}usemtl X\n{}", lines, TRIANGLE);
        let scene = load_obj_scene(document.as_bytes(), "cube.obj", &libraries).unwrap();
        assert_eq!(scene.materials.len(), 5);
        assert_eq!(scene.entities[0].material, Some(2));
        assert_eq!(scene.materials[2].base_color, color(1.0, 1.0, 0.0));
    }
    let document = format!("mtllib b.mtl a.mtl\nusemtl X\n{}", TRIANGLE);
    let scene = load_obj_scene(document.as_bytes(), "cube.obj", &libraries).unwrap();
    assert_eq!(scene.entities[0].material, Some(0));
    assert_eq!(scene.materials[0].base_color, color(0.0, 0.0, 1.0));
    // A name that one library holds is found there.
    let document = format!("mtllib a.mtl b.mtl\nusemtl Z\n{}", TRIANGLE);
    let scene = load_obj_scene(document.as_bytes(), "cube.obj", &libraries).unwrap();
    assert_eq!(scene.entities[0].material, Some(4));
}

#[test]
fn the_material_of_a_name_is_chosen_by_its_library() {
    let materials = vec![
        material("X"),
        material("Y"),
        material("X"),
        material("X"),
        material("Y"),
    ];
    let origins = vec![
        origin("a.mtl", PLAIN),
        origin("a.mtl", PLAIN),
        origin("a.mtl", PLAIN),
        origin("b.mtl", PLAIN),
        origin("b.mtl", PLAIN),
    ];
    assert_eq!(choose_material(&materials, &origins, 0), 2);
    assert_eq!(choose_material(&materials, &origins, 1), 1);
    assert_eq!(choose_material(&materials, &origins, 2), 2);
    assert_eq!(choose_material(&materials, &origins, 3), 2);
    assert_eq!(choose_material(&materials, &origins, 4), 1);
    // Without the library of each material, and beyond the materials, the
    // index stays.
    assert_eq!(choose_material(&materials, &origins[..4].to_vec(), 3), 3);
    assert_eq!(choose_material(&materials, &origins, 9), 9);
}
