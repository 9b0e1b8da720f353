use bevy_obj::{
    corners_of_triangles, index_vertices, prepare, MeshConverter, MeshFault, Normals, ObjError,
    ObjSettings, RawMesh, VertexKey,
};

fn key(position: u32, normal: Option<u32>, texcoord: Option<u32>) -> VertexKey {
    VertexKey {
        position,
        normal,
        texcoord,
    }
}

fn mesh(
    positions: Vec<u32>,
    normals: Vec<u32>,
    texcoords: Vec<u32>,
    indices: Vec<u32>,
    face_arities: Vec<u32>,
    normal_indices: Vec<u32>,
    texcoord_indices: Vec<u32>,
) -> RawMesh {
    RawMesh {
        positions,
        normals,
        texcoords,
        indices,
        face_arities,
        normal_indices,
        texcoord_indices,
        material_id: Some(3),
    }
}

#[test]
fn a_face_becomes_a_fan_round_its_first_corner() {
    assert_eq!(corners_of_triangles(&vec![3], 3), Some(vec![0, 1, 2]));
    assert_eq!(corners_of_triangles(&vec![4], 4), Some(vec![0, 1, 2, 0, 2, 3]));
    assert_eq!(
        corners_of_triangles(&vec![5], 5),
        Some(vec![0, 1, 2, 0, 2, 3, 0, 3, 4])
    );
    assert_eq!(
        corners_of_triangles(&vec![3, 4, 3], 10),
        Some(vec![0, 1, 2, 3, 4, 5, 3, 5, 6, 7, 8, 9])
    );
}

#[test]
fn a_face_of_n_corners_becomes_n_less_two_triangles() {
    for n in 3u32..40 {
        let corners = corners_of_triangles(&vec![n], n as usize).unwrap();
        assert_eq!(corners.len(), 3 * (n as usize - 2));
        for i in 0..(n as usize - 2) {
            assert_eq!(corners[3 * i], 0);
            assert_eq!(corners[3 * i + 1], i + 1);
            assert_eq!(corners[3 * i + 2], i + 2);
        }
    }
}

#[test]
fn no_arities_stand_for_triangles() {
    assert_eq!(corners_of_triangles(&Vec::new(), 0), Some(Vec::new()));
    assert_eq!(
        corners_of_triangles(&Vec::new(), 6),
        Some(vec![0, 1, 2, 3, 4, 5])
    );
    assert_eq!(corners_of_triangles(&Vec::new(), 4), None);
}

#[test]
fn arities_that_do_not_fit_the_corners_are_refused() {
    assert_eq!(corners_of_triangles(&vec![2], 2), None);
    assert_eq!(corners_of_triangles(&vec![3, 1], 4), None);
    assert_eq!(corners_of_triangles(&vec![0], 0), None);
    assert_eq!(corners_of_triangles(&vec![3], 4), None);
    assert_eq!(corners_of_triangles(&vec![4], 3), None);
    assert_eq!(corners_of_triangles(&vec![3, 3], 3), None);
    assert_eq!(corners_of_triangles(&vec![u32::MAX, u32::MAX, u32::MAX], 9), None);
}

#[test]
fn vertices_are_numbered_in_the_order_of_their_first_corner() {
    let a = key(7, None, None);
    let b = key(7, Some(0), None);
    let c = key(7, None, Some(0));
    let d = key(2, Some(1), Some(1));
    let (indices, unique) = index_vertices(&vec![a, b, a, c, d, b, d, a]).unwrap();
    assert_eq!(indices, vec![0, 1, 0, 2, 3, 1, 3, 0]);
    assert_eq!(unique, vec![a, b, c, d]);
    assert_eq!(index_vertices(&Vec::new()), Some((Vec::new(), Vec::new())));
}

#[test]
fn keys_that_differ_in_one_part_are_different_vertices() {
    let keys = vec![
        key(0, None, None),
        key(0, Some(0), None),
        key(0, None, Some(0)),
        key(0, Some(0), Some(0)),
        key(1, Some(0), Some(0)),
        key(0, Some(1), Some(0)),
        key(0, Some(0), Some(1)),
        key(u32::MAX, Some(u32::MAX), Some(u32::MAX)),
        key(u32::MAX, Some(u32::MAX - 1), Some(u32::MAX)),
        key(u32::MAX, None, Some(u32::MAX)),
        key(0, Some(u32::MAX), None),
        key(u32::MAX, None, None),
    ];
    let (indices, unique) = index_vertices(&keys).unwrap();
    assert_eq!(indices, (0..keys.len() as u32).collect::<Vec<u32>>());
    assert_eq!(unique, keys);
}

#[test]
fn numbering_again_changes_nothing() {
    let keys = vec![
        key(5, Some(1), None),
        key(3, Some(1), None),
        key(5, Some(1), None),
        key(5, Some(2), None),
        key(3, Some(1), None),
        key(9, Some(0), None),
    ];
    let (indices, _) = index_vertices(&keys).unwrap();
    assert_eq!(indices, vec![0, 1, 0, 2, 1, 3]);
    let again: Vec<VertexKey> = indices.iter().map(|i| key(*i, Some(*i), None)).collect();
    let (twice, unique) = index_vertices(&again).unwrap();
    assert_eq!(twice, indices);
    assert_eq!(unique.len(), 4);
}

#[test]
fn a_mesh_with_a_single_index_keeps_its_vertices() {
    let raw = mesh(
        vec![10, 11, 12, 20, 21, 22, 30, 31, 32, 40, 41, 42],
        vec![1, 1, 1, 2, 2, 2, 3, 3, 3, 4, 4, 4],
        Vec::new(),
        vec![3, 2, 1, 0],
        vec![4],
        Vec::new(),
        Vec::new(),
    );
    let plain = prepare(&raw).unwrap();
    assert_eq!(plain.positions, raw.positions);
    assert_eq!(plain.normals, raw.normals);
    assert_eq!(plain.indices, vec![3, 2, 1, 3, 1, 0]);
    assert!(plain.face_arities.is_empty());
    assert_eq!(plain.material_id, Some(3));
}

#[test]
fn a_mesh_with_more_indices_is_laid_out_by_vertex() {
    let raw = mesh(
        vec![10, 11, 12, 20, 21, 22, 30, 31, 32],
        vec![1, 1, 1, 2, 2, 2],
        vec![5, 6, 7, 8],
        vec![2, 1, 0, 2, 0, 1],
        Vec::new(),
        vec![0, 0, 0, 0, 1, 0],
        vec![1, 1, 0, 1, 0, 1],
    );
    let plain = prepare(&raw).unwrap();
    // Keys: (2,0,1) (1,0,1) (0,0,0) (2,0,1) (0,1,0) (1,0,1).
    assert_eq!(plain.indices, vec![0, 1, 2, 0, 3, 1]);
    assert_eq!(
        plain.positions,
        vec![30, 31, 32, 20, 21, 22, 10, 11, 12, 10, 11, 12]
    );
    assert_eq!(plain.normals, vec![1, 1, 1, 1, 1, 1, 1, 1, 1, 2, 2, 2]);
    assert_eq!(plain.texcoords, vec![7, 8, 7, 8, 5, 6, 5, 6]);
    assert!(plain.normal_indices.is_empty());
    assert!(plain.texcoord_indices.is_empty());
    assert_eq!(plain.material_id, Some(3));

    let mesh = MeshConverter::new(vec![raw])
        .convert(&ObjSettings::default())
        .unwrap();
    assert_eq!(mesh.indices, vec![0, 1, 2, 0, 3, 1]);
    assert_eq!(mesh.positions.len(), 4);
    assert_eq!(
        mesh.normals,
        Normals::Source(vec![[1, 1, 1], [1, 1, 1], [1, 1, 1], [2, 2, 2]])
    );
    assert_eq!(mesh.uvs, Some(vec![[7, 8], [7, 8], [5, 6], [5, 6]]));
}

#[test]
fn a_mesh_that_cannot_be_prepared_tells_why() {
    let positions = vec![0; 9];
    let not_triangles = mesh(
        positions.clone(),
        Vec::new(),
        Vec::new(),
        vec![0, 1, 2, 0],
        Vec::new(),
        Vec::new(),
        Vec::new(),
    );
    assert_eq!(prepare(&not_triangles), Err(MeshFault::NotTriangles));
    let short_face = mesh(
        positions.clone(),
        Vec::new(),
        Vec::new(),
        vec![0, 1, 2, 0, 1],
        vec![3, 2],
        Vec::new(),
        Vec::new(),
    );
    assert_eq!(prepare(&short_face), Err(MeshFault::NotTriangles));
    let few_normal_indices = mesh(
        positions.clone(),
        vec![0; 3],
        Vec::new(),
        vec![0, 1, 2],
        Vec::new(),
        vec![0, 0],
        Vec::new(),
    );
    assert_eq!(prepare(&few_normal_indices), Err(MeshFault::AttributeCount));
    let few_texcoord_indices = mesh(
        positions.clone(),
        Vec::new(),
        vec![0; 2],
        vec![0, 1, 2],
        Vec::new(),
        Vec::new(),
        vec![0, 0, 0, 0],
    );
    assert_eq!(prepare(&few_texcoord_indices), Err(MeshFault::AttributeCount));
    let no_such_normal = mesh(
        positions.clone(),
        vec![0; 3],
        Vec::new(),
        vec![0, 1, 2],
        Vec::new(),
        vec![0, 1, 0],
        Vec::new(),
    );
    assert_eq!(prepare(&no_such_normal), Err(MeshFault::IndexOutOfRange));
    let no_such_position = mesh(
        positions.clone(),
        vec![0; 3],
        Vec::new(),
        vec![0, 3, 2],
        Vec::new(),
        vec![0, 0, 0],
        Vec::new(),
    );
    assert_eq!(prepare(&no_such_position), Err(MeshFault::IndexOutOfRange));
    let no_such_texcoord = mesh(
        positions,
        Vec::new(),
        vec![0; 3],
        vec![0, 1, 2],
        Vec::new(),
        Vec::new(),
        vec![0, 1, 0],
    );
    assert_eq!(prepare(&no_such_texcoord), Err(MeshFault::IndexOutOfRange));
    assert_eq!(
        MeshConverter::new(vec![no_such_normal, not_triangles]).convert(&ObjSettings::default()),
        Err(ObjError::InvalidMesh(MeshFault::IndexOutOfRange))
    );
}
