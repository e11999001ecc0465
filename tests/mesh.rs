use raytracer::mesh::{quad_faces, triangle_faces};

#[test]
fn triangle_faces_groups_by_three() {
    let idx = vec![0, 1, 2, 2, 1, 3];
    assert_eq!(triangle_faces(&idx, 4), Some(vec![[0, 1, 2], [2, 1, 3]]));
}

#[test]
fn triangle_faces_ignores_trailing_indices() {
    let idx = vec![0, 1, 2, 9, 9];
    assert_eq!(triangle_faces(&idx, 3), Some(vec![[0, 1, 2]]));
}

#[test]
fn triangle_faces_rejects_index_out_of_range() {
    let idx = vec![0, 1, 2, 2, 1, 4];
    assert_eq!(triangle_faces(&idx, 4), None);
}

#[test]
fn triangle_faces_of_empty_mesh() {
    assert_eq!(triangle_faces(&Vec::new(), 0), Some(Vec::new()));
}

#[test]
fn quad_faces_splits_along_diagonal() {
    let idx = vec![0, 1, 2, 3, 4, 5, 6, 7];
    assert_eq!(
        quad_faces(&idx, 8),
        Some(vec![[0, 1, 2], [0, 2, 3], [4, 5, 6], [4, 6, 7]])
    );
}

#[test]
fn quad_faces_rejects_index_out_of_range() {
    let idx = vec![0, 1, 2, 3, 4, 5, 6, 8];
    assert_eq!(quad_faces(&idx, 8), None);
}

#[test]
fn quad_faces_ignores_trailing_indices() {
    let idx = vec![3, 2, 1, 0, 7];
    assert_eq!(quad_faces(&idx, 4), Some(vec![[3, 2, 1], [3, 1, 0]]));
}
