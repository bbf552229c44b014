use softrender::fx::FX_ONE;
use softrender::mesh::{Mesh, MeshError};

#[test]
fn round_trip_single_triangle() {
    let src = "v 0 0 0\nv 1 0 0\nv 0 1 0\nf 1 2 3";
    let mesh = Mesh::from_str(src).unwrap();
    assert_eq!(mesh.len(), 1);
    let t = &mesh.triangles()[0];
    assert_eq!(
        [t.points[0].x.raw(), t.points[0].y.raw(), t.points[0].z.raw()],
        [0, 0, 0]
    );
    assert_eq!(
        [t.points[1].x.raw(), t.points[1].y.raw(), t.points[1].z.raw()],
        [FX_ONE, 0, 0]
    );
    assert_eq!(
        [t.points[2].x.raw(), t.points[2].y.raw(), t.points[2].z.raw()],
        [0, FX_ONE, 0]
    );
}

#[test]
fn decimal_and_signed_vertices() {
    let src = "v 0.5 -0.25 1.5\nv +2 3. .5\nf 1 2 2";
    let mesh = Mesh::from_str(src).unwrap();
    assert_eq!(mesh.len(), 1);
    let t = &mesh.triangles()[0];
    assert_eq!(t.points[0].x.raw(), FX_ONE / 2);
    assert_eq!(t.points[0].y.raw(), -FX_ONE / 4);
    assert_eq!(t.points[0].z.raw(), FX_ONE + FX_ONE / 2);
    assert_eq!(t.points[1].x.raw(), 2 * FX_ONE);
    assert_eq!(t.points[1].y.raw(), 3 * FX_ONE);
    assert_eq!(t.points[1].z.raw(), FX_ONE / 2);
}

#[test]
fn other_leading_tokens_are_ignored() {
    let src = "# teapot\nvt 0 1\nvn 0 0 1\ng top\n\nv 0 0 0\nv 1 1 1\nv 2 2 2\nf 1 2 3\n";
    let mesh = Mesh::from_str(src).unwrap();
    assert_eq!(mesh.len(), 1);
}

#[test]
fn faces_copy_vertices_by_value() {
    let src = "v 1 2 3\nv 4 5 6\nv 7 8 9\nf 1 2 3\nf 3 2 1";
    let mesh = Mesh::from_str(src).unwrap();
    assert_eq!(mesh.len(), 2);
    let a = &mesh.triangles()[0];
    let b = &mesh.triangles()[1];
    assert_eq!(a.points[0].x.raw(), FX_ONE);
    assert_eq!(b.points[0].x.raw(), 7 * FX_ONE);
    assert_eq!(b.points[2].x.raw(), FX_ONE);
}

#[test]
fn malformed_number_is_an_error() {
    assert!(matches!(Mesh::from_str("v a b c"), Err(MeshError::MalformedNumber)));
    assert!(matches!(Mesh::from_str("v 1 2"), Err(MeshError::MalformedNumber)));
    assert!(matches!(Mesh::from_str("v 1 2 3.4.5"), Err(MeshError::MalformedNumber)));
    assert!(matches!(Mesh::from_str("v"), Err(MeshError::MalformedNumber)));
    assert!(matches!(Mesh::from_str("v 1 2 3\nf 1 x 1"), Err(MeshError::MalformedNumber)));
    assert!(matches!(Mesh::from_str("v 1 2 3\nf -1 1 1"), Err(MeshError::MalformedNumber)));
}

#[test]
fn vertex_reference_out_of_range_is_an_error() {
    assert!(matches!(Mesh::from_str("v 0 0 0\nf 1 2 1"), Err(MeshError::IndexOutOfRange)));
    assert!(matches!(Mesh::from_str("v 0 0 0\nf 0 1 1"), Err(MeshError::IndexOutOfRange)));
    assert!(matches!(Mesh::from_str("f 1 1 1"), Err(MeshError::IndexOutOfRange)));
}

#[test]
fn faces_only_see_vertices_read_before_them() {
    let src = "v 0 0 0\nf 1 1 2\nv 1 1 1";
    assert!(matches!(Mesh::from_str(src), Err(MeshError::IndexOutOfRange)));
}

#[test]
fn empty_source_gives_empty_mesh() {
    let mesh = Mesh::from_str("").unwrap();
    assert_eq!(mesh.len(), 0);
    let mesh2 = Mesh::from_str("\n\n").unwrap();
    assert_eq!(mesh2.len(), 0);
}

#[test]
fn mesh_new_keeps_triangles() {
    let src = "v 0 0 0\nv 1 0 0\nv 0 1 0\nf 1 2 3";
    let loaded = Mesh::from_str(src).unwrap();
    let rebuilt = Mesh::new(loaded.triangles().clone());
    assert_eq!(rebuilt.len(), 1);
}
