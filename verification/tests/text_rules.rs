use bevy_obj::{
    convert_uv, convert_vec3, extensions, file_extension, first_number, material_label,
    mesh_label, read_text, sibling_path, strip_comments, texture_file_name, word_is_float, ErrorKind, LoadFailure, LoadOptionsDef, MeshObjLoader,
    ObjError, ObjLoader, ObjPlugin, ObjSettings,
};

fn name_of(map: &str) -> String {
    String::from_utf8(texture_file_name(map.as_bytes())).unwrap()
}

#[test]
fn options_before_a_file_name_are_left_out() {
    assert_eq!(name_of("-bm 1.0 wood.png"), "wood.png");
    assert_eq!(name_of("wood.png"), "wood.png");
    assert_eq!(name_of("  wood.png  "), "wood.png");
    assert_eq!(name_of("-clamp on -bm 0.5 -imfchan r wood.png"), "wood.png");
    assert_eq!(name_of("-o 1 2 3 -s .5 2. -1 -mm 0 1 wood.png"), "wood.png");
    assert_eq!(name_of("-blendu off -texres 512 my wood.png"), "my wood.png");
}

#[test]
fn a_file_name_keeps_its_words_with_one_space_between() {
    assert_eq!(name_of("dark   old\twood.png"), "dark old wood.png");
    assert_eq!(name_of("-bm 1 dark wood -bm.png"), "dark wood -bm.png");
    assert_eq!(name_of("wood.png -bm 1"), "wood.png -bm 1");
}

#[test]
fn a_map_of_options_only_names_no_file() {
    assert_eq!(name_of(""), "");
    assert_eq!(name_of("   "), "");
    assert_eq!(name_of("-bm 1.0"), "");
    assert_eq!(name_of("-clamp"), "");
    // A single character after an option is its value.
    assert_eq!(name_of("-imfchan r"), "");
    assert_eq!(name_of("-imfchan \u{e9}"), "");
    assert_eq!(name_of("-type sphere"), "sphere");
}

#[test]
fn what_counts_as_a_number_among_the_values() {
    assert_eq!(name_of("-bm 1e5 wood.png"), "wood.png");
    assert_eq!(name_of("-bm 1e wood.png"), "1e wood.png");
    assert_eq!(name_of("-bm inf wood.png"), "wood.png");
    assert_eq!(name_of("-bm 1.2.3 wood.png"), "1.2.3 wood.png");
    assert_eq!(name_of("-bm +7 wood.png"), "wood.png");
    assert_eq!(name_of("-bm .. wood.png"), ".. wood.png");
    assert_eq!(name_of("-bm 12 34 wood.png"), "wood.png");
    assert_eq!(name_of("-bm ON wood.png"), "ON wood.png");
}

#[test]
fn only_the_first_line_of_a_map_is_read() {
    assert_eq!(name_of("-bm 1.0 wood.png\nstone.png"), "wood.png");
}

#[test]
fn a_sibling_takes_the_directory_of_the_document() {
    assert_eq!(sibling_path(b"models/cube.obj", b"wood.png"), b"models/wood.png");
    assert_eq!(sibling_path(b"cube.obj", b"wood.png"), b"wood.png");
    assert_eq!(sibling_path(b"/cube.obj", b"wood.png"), b"/wood.png");
    assert_eq!(sibling_path(b"a/b/", b"wood.png"), b"a/b/wood.png");
    assert_eq!(sibling_path(b"", b"wood.png"), b"wood.png");
    assert_eq!(sibling_path(b"a/b/c.obj", b""), b"a/b/");
}

#[test]
fn the_extension_follows_the_last_point_of_the_file_name() {
    assert_eq!(file_extension(b"wood.png"), Some(b"png".to_vec()));
    assert_eq!(file_extension(b"a.b/wood.tar.gz"), Some(b"gz".to_vec()));
    assert_eq!(file_extension(b"a.b/wood"), None);
    assert_eq!(file_extension(b"a/.hidden"), None);
    assert_eq!(file_extension(b".hidden.png"), Some(b"png".to_vec()));
    assert_eq!(file_extension(b"wood."), Some(Vec::new()));
    assert_eq!(file_extension(b""), None);
    assert_eq!(file_extension(b"dir/"), None);
}

#[test]
fn labels_are_a_word_and_a_decimal_index() {
    assert_eq!(material_label(0), "Material0");
    assert_eq!(material_label(7), "Material7");
    assert_eq!(material_label(10), "Material10");
    assert_eq!(material_label(1234567890), "Material1234567890");
    assert_eq!(mesh_label(0), "Mesh0");
    assert_eq!(mesh_label(42), "Mesh42");
    assert_eq!(mesh_label(usize::MAX), format!("Mesh{}", usize::MAX));
}

#[test]
fn flat_arrays_are_cut_into_rows() {
    assert_eq!(convert_vec3(&vec![1, 2, 3, 4, 5, 6]), vec![[1, 2, 3], [4, 5, 6]]);
    assert_eq!(convert_vec3(&vec![1, 2, 3, 4, 5]), vec![[1, 2, 3]]);
    assert_eq!(convert_vec3(&vec![1, 2]), Vec::<[u32; 3]>::new());
    assert_eq!(convert_uv(&vec![1, 2, 3, 4]), vec![[1, 2], [3, 4]]);
    assert_eq!(convert_uv(&vec![1, 2, 3]), vec![[1, 2]]);
    assert_eq!(convert_uv(&Vec::new()), Vec::<[u32; 2]>::new());
}

#[test]
fn texture_coordinates_keep_the_vertical_axis_of_the_document() {
    let v = 0.25f32;
    let rows = convert_uv(&vec![0.5f32.to_bits(), v.to_bits()]);
    assert_eq!(f32::from_bits(rows[0][1]), v);
    // What a renderer does with it, and undoes.
    let flipped = 1.0 - f32::from_bits(rows[0][1]);
    assert_eq!(flipped, 0.75);
    assert!((1.0 - flipped - v).abs() <= f32::EPSILON);
}

#[test]
fn the_presets_of_the_options() {
    assert_eq!(
        LoadOptionsDef::gpu(),
        LoadOptionsDef {
            single_index: true,
            triangulate: true,
            ignore_points: true,
            ignore_lines: true
        }
    );
    assert_eq!(
        LoadOptionsDef::offline_rendering(),
        LoadOptionsDef {
            single_index: false,
            triangulate: false,
            ignore_points: true,
            ignore_lines: true
        }
    );
    assert_eq!(
        LoadOptionsDef::default(),
        LoadOptionsDef {
            single_index: false,
            triangulate: false,
            ignore_points: false,
            ignore_lines: false
        }
    );
    assert_eq!(
        ObjSettings::default(),
        ObjSettings {
            force_compute_normals: false,
            prefer_flat_normals: false,
            load_options: LoadOptionsDef::gpu()
        }
    );
    assert_eq!(ObjPlugin::default(), ObjPlugin);
    assert_eq!(MeshObjLoader::default(), MeshObjLoader);
    assert_eq!(ObjLoader::default(), ObjLoader);
}

#[test]
fn the_options_go_to_the_parser_and_back() {
    let options = LoadOptionsDef {
        single_index: true,
        triangulate: false,
        ignore_points: true,
        ignore_lines: false,
    };
    let outside = tobj::LoadOptions::from(options);
    assert!(outside.single_index);
    assert!(!outside.triangulate);
    assert!(outside.ignore_points);
    assert!(!outside.ignore_lines);
    assert_eq!(LoadOptionsDef::from(outside), options);
    assert_eq!(
        LoadOptionsDef::from(tobj::GPU_LOAD_OPTIONS),
        LoadOptionsDef::gpu()
    );
    assert_eq!(
        LoadOptionsDef::from(tobj::OFFLINE_RENDERING_LOAD_OPTIONS),
        LoadOptionsDef::offline_rendering()
    );
}

#[test]
fn the_loaders_take_two_extensions() {
    assert_eq!(extensions(), vec!["obj", "OBJ"]);
}

#[test]
fn every_error_has_its_kind() {
    assert_eq!(ObjError::EncodingError.kind(), ErrorKind::Encoding);
    assert_eq!(
        ObjError::NumericParseError { line: 1 }.kind(),
        ErrorKind::NumericParse
    );
    assert_eq!(
        ObjError::MalformedFaceError { line: 1 }.kind(),
        ErrorKind::MalformedFace
    );
    assert_eq!(
        ObjError::IndexOutOfRangeError { line: 1 }.kind(),
        ErrorKind::IndexOutOfRange
    );
    assert_eq!(
        ObjError::InvalidFile(LoadFailure::OpenFileFailed).kind(),
        ErrorKind::Io
    );
    assert_eq!(
        ObjError::InvalidFile(LoadFailure::ReadError).kind(),
        ErrorKind::Io
    );
    assert_eq!(
        ObjError::InvalidFile(LoadFailure::TexcoordParseError).kind(),
        ErrorKind::NumericParse
    );
    assert_eq!(
        ObjError::InvalidFile(LoadFailure::InvalidPolygon).kind(),
        ErrorKind::MalformedFace
    );
    assert_eq!(
        ObjError::InvalidFile(LoadFailure::FaceNormalOutOfBounds).kind(),
        ErrorKind::IndexOutOfRange
    );
    assert_eq!(
        ObjError::InvalidFile(LoadFailure::InvalidObjectName).kind(),
        ErrorKind::MaterialLoad
    );
    assert_eq!(
        ObjError::InvalidFile(LoadFailure::GenericFailure).kind(),
        ErrorKind::InvalidFile
    );
    assert_eq!(
        ObjError::MaterialLoadError {
            document: "a.obj".to_string(),
            library: None,
            cause: LoadFailure::OpenFileFailed
        }
        .kind(),
        ErrorKind::MaterialLoad
    );
    assert_eq!(
        ObjError::TextureResolutionError {
            path: "wood".to_string()
        }
        .kind(),
        ErrorKind::TextureResolution
    );
}

#[test]
fn a_word_writes_a_number_where_it_can_be_read_as_one() {
    let words = [
        "0", "1", "-1", "+1", "007", "3.14", "-3.14", "5.", ".5", "+.5", "-.5", "0.5", "1e5",
        "1E5", "1e+5", "1e-5", "2.5E10", "2.5e-10", "1.e2", ".5e2", "inf", "-inf", "+inf", "INF",
        "Inf", "infinity", "-Infinity", "+INFINITY", "nan", "NaN", "-nan", "+NAN", "1e999",
        "1e-999", "00000000000000000000000000000000000000000000001",
        "123456789012345678901234567890.123456789012345678901234567890e-10",
        "", "+", "-", ".", "+.", "-.", "e", "e5", "1e", "1e+", "1e-", ".e5", "1.2.3", "1..2",
        "--1", "+-1", "1-", "1+1", "1e5e5", "1e5.5", "1e 5", " 1", "1 ", "0x10", "1_000", "1,5",
        "in", "infi", "infinit", "infinityy", "na", "nann", "n", "i", "1f", "1.0f", "abc",
        "\u{663}", "1\u{a0}", "\u{ff11}", "١", "-e", "e-1", "E1", "1E", "1.E", ".E1",
    ];
    for word in words {
        assert_eq!(
            word_is_float(word.as_bytes()),
            word.parse::<f32>().is_ok(),
            "{:?}",
            word
        );
    }
}

#[test]
fn the_first_number_of_a_line_is_its_first_word() {
    assert_eq!(first_number(b"0.5"), Some(&b"0.5"[..]));
    assert_eq!(first_number(b"  -1e3\t2"), Some(&b"-1e3"[..]));
    assert_eq!(first_number(b"x 1"), None);
    assert_eq!(first_number(b""), None);
    assert_eq!(first_number(b"\n1"), None);
}

#[test]
fn white_space_is_what_the_standard_library_calls_so() {
    // Every character up to the last white space, and a sample of the rest.
    let codes = (0u32..0x3100).chain((0x3100u32..=0x10FFFF).step_by(61));
    for code in codes {
        let Some(c) = char::from_u32(code) else {
            continue;
        };
        let map = format!("left{}right", c);
        let expected = if c == '\n' {
            "left".to_string()
        } else if c.is_whitespace() {
            "left right".to_string()
        } else {
            map.clone()
        };
        assert_eq!(name_of(&map), expected, "U+{:04X}", code);
    }
}

#[test]
fn white_space_at_the_end_of_the_text_is_no_part_of_a_word() {
    for code in [0x85u32, 0xA0, 0x1680, 0x2000, 0x200A, 0x2028, 0x2029, 0x202F, 0x205F, 0x3000] {
        let c = char::from_u32(code).unwrap();
        assert_eq!(name_of(&format!("{}wood{}", c, c)), "wood");
        let mut cut = format!("wood{}", c).into_bytes();
        cut.pop();
        // The last character is cut short: what is left of it is no white space.
        assert_eq!(texture_file_name(&cut), cut);
    }
}

#[test]
fn a_space_stands_for_every_byte_of_a_comment() {
    assert_eq!(strip_comments(b""), b"");
    assert_eq!(strip_comments(b"v 1 2 3"), b"v 1 2 3");
    assert_eq!(strip_comments(b"#"), b" ");
    assert_eq!(strip_comments(b"# a\n#b"), b"   \n  ");
    assert_eq!(
        strip_comments(b"v 1 # x # y\r\nf # z\n\n#"),
        b"v 1         \nf    \n\n "
    );
    assert_eq!(
        strip_comments("caf\u{e9} # caf\u{e9}\nth\u{e9}".as_bytes()),
        "caf\u{e9}        \nth\u{e9}".as_bytes()
    );
}

#[test]
fn what_is_read_of_a_document_keeps_every_line_in_its_place() {
    assert_eq!(
        read_text(b"v 1 2 3 # a\nl 1 2\n  l 3 # b\nlf\nf 1 # l\nl"),
        b"v 1 2 3    \n     \n         \nlf\nf 1    \n "
    );
    assert_eq!(read_text(b""), b"");
    assert_eq!(read_text(b"\n\n"), b"\n\n");
    // The weight of a position goes, what is no weight stays.
    assert_eq!(
        read_text(b"v 1 2 3 0.5\n v  1 2 3  4 \nv 1 2 3 x\nv 1 2 3 4 5 6\nvn 1 2 3 4\nv 1 2 3 4 # 5 6"),
        b"v 1 2 3    \n v  1 2 3    \nv 1 2 3 x\nv 1 2 3 4 5 6\nvn 1 2 3 4\nv 1 2 3        "
    );
}
