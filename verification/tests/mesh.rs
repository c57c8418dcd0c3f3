use cadrum::mesh::MeshTopology;

fn tri(vertex_count: usize, indices: Vec<usize>, face_ids: Vec<u64>) -> MeshTopology {
    MeshTopology { vertex_count, indices, face_ids }
}

#[test]
fn from_raw_counts_vertices_and_widens_indices() {
    let m = MeshTopology::from_raw(12, &[0, 1, 2, 2, 3, 0], vec![5, 5]);
    assert_eq!(m.vertex_count, 4);
    assert_eq!(m.indices, vec![0, 1, 2, 2, 3, 0]);
    assert_eq!(m.face_ids, vec![5, 5]);
}

#[test]
fn append_shifts_indices_by_vertex_count() {
    let mut a = tri(3, vec![0, 1, 2], vec![10]);
    let b = tri(4, vec![0, 1, 2, 1, 2, 3], vec![20, 21]);
    a.append(&b);
    assert_eq!(a.vertex_count, 7);
    assert_eq!(a.indices, vec![0, 1, 2, 3, 4, 5, 4, 5, 6]);
    assert_eq!(a.face_ids, vec![10, 20, 21]);
}

#[test]
fn combine_lays_meshes_end_to_end() {
    let meshes = vec![
        tri(3, vec![0, 1, 2], vec![1]),
        tri(0, vec![], vec![]),
        tri(3, vec![2, 1, 0], vec![2]),
        tri(4, vec![0, 1, 3], vec![3]),
    ];
    let all = MeshTopology::combine(&meshes);
    assert_eq!(all.vertex_count, 10);
    assert_eq!(all.indices, vec![0, 1, 2, 5, 4, 3, 6, 7, 9]);
    assert_eq!(all.face_ids, vec![1, 2, 3]);
    assert!(all.indices.iter().all(|&i| i < all.vertex_count));
    assert_eq!(all.face_ids.len(), all.indices.len() / 3);
}

#[test]
fn combine_of_nothing_is_empty() {
    let all = MeshTopology::combine(&[]);
    assert_eq!(all.vertex_count, 0);
    assert!(all.indices.is_empty());
    assert!(all.face_ids.is_empty());
}

#[test]
fn from_raw_checked_accepts_well_formed_data() {
    let m = MeshTopology::from_raw_checked(12, &[0, 1, 2, 2, 3, 0], vec![5, 6]).unwrap();
    assert_eq!(m.vertex_count, 4);
    assert_eq!(m.indices, vec![0, 1, 2, 2, 3, 0]);
    assert_eq!(m.face_ids, vec![5, 6]);
}

#[test]
fn from_raw_checked_rejects_out_of_range_corner() {
    assert!(MeshTopology::from_raw_checked(3, &[5, 0, 0], vec![1]).is_none());
    assert!(MeshTopology::from_raw_checked(12, &[0, 1, 4], vec![1]).is_none());
}

#[test]
fn from_raw_checked_rejects_partial_triangle() {
    assert!(MeshTopology::from_raw_checked(12, &[0, 1], vec![]).is_none());
    assert!(MeshTopology::from_raw_checked(12, &[0, 1, 2, 3], vec![1]).is_none());
}

#[test]
fn from_raw_checked_rejects_face_id_count_mismatch() {
    assert!(MeshTopology::from_raw_checked(12, &[0, 1, 2], vec![]).is_none());
    assert!(MeshTopology::from_raw_checked(12, &[0, 1, 2], vec![1, 2]).is_none());
    assert!(MeshTopology::from_raw_checked(0, &[], vec![]).is_some());
}
