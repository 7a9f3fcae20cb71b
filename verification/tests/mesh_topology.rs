use shiloh::mesh_topology::{icosahedron_faces, subdivide_faces};

#[test]
fn icosphere_subdivision_counts() {
    let faces = icosahedron_faces();
    assert_eq!(faces.len(), 20);
    assert_eq!(faces[0], [0, 11, 5]);
    let (f1, mids1) = subdivide_faces(&faces, 12);
    assert_eq!(f1.len(), 80);
    assert_eq!(mids1.len(), 30);
    assert!(f1.iter().flatten().all(|&v| v < 42));
    assert_eq!(f1[0], [0, 12, 14]);
    assert_eq!(mids1[0], (0, 11));
    assert_eq!(mids1[1], (5, 11));
    assert_eq!(mids1[2], (0, 5));
    let (f2, mids2) = subdivide_faces(&f1, 42);
    assert_eq!(f2.len(), 320);
    assert_eq!(mids2.len(), 120);
}

#[test]
fn shared_edge_gets_one_midpoint() {
    let faces = vec![[0, 1, 2], [2, 1, 3]];
    let (f, mids) = subdivide_faces(&faces, 4);
    assert_eq!(mids, vec![(0, 1), (1, 2), (0, 2), (1, 3), (2, 3)]);
    assert_eq!(f[0], [0, 4, 6]);
    assert_eq!(f[3], [4, 5, 6]);
    assert_eq!(f[4], [2, 5, 8]);
    assert_eq!(f[7], [5, 7, 8]);
}

#[test]
fn quads_split_into_two_triangles() {
    let idx = shiloh::mesh_topology::quad_face_indices(2);
    assert_eq!(idx, vec![0, 1, 2, 0, 2, 3, 4, 5, 6, 4, 6, 7]);
    assert_eq!(shiloh::mesh_topology::quad_face_indices(6).len(), 36);
    assert!(shiloh::mesh_topology::quad_face_indices(0).is_empty());
}
