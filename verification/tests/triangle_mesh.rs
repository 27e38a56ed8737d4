use imlet::types::geometry::traits::Bounded;
use imlet::types::geometry::{BoundingBox, GeometryCollection, Mesh, Octree, Transform, Triangle, TriangleFeature, Vec3};

fn unit_triangle() -> Triangle<f64> {
    Triangle::new(Vec3::new(0.0, 0.0, 0.0), Vec3::new(5.0, 0.0, 0.0), Vec3::new(0.0, 5.0, 0.0))
}

#[test]
fn test_closest_point_on_face() {
    let tri = unit_triangle();
    let test_point = Vec3::new(1.0, 1.0, 1.0);
    let (feature, closest_point) = tri.closest_point(&test_point);
    assert!(matches!(feature, TriangleFeature::FACE));
    assert!(closest_point.distance_to_coord(1.0, 1.0, 0.0).abs() < f64::EPSILON);
}

#[test]
fn test_closest_point_on_edge_1() {
    let tri = unit_triangle();
    let test_point = Vec3::new(-2.5, 2.5, 1.0);
    let (feature, closest_point) = tri.closest_point(&test_point);
    assert!(matches!(feature, TriangleFeature::EDGE(_)));
    assert!(closest_point.distance_to_coord(0.0, 2.5, 0.0).abs() < f64::EPSILON);
}

#[test]
fn test_closest_point_on_edge_2() {
    let tri = unit_triangle();
    let test_point = Vec3::new(2.5, -2.5, 1.0);
    let (feature, closest_point) = tri.closest_point(&test_point);
    assert!(matches!(feature, TriangleFeature::EDGE(_)));
    assert!(closest_point.distance_to_coord(2.5, 0.0, 0.0).abs() < f64::EPSILON);
}

#[test]
fn test_closest_point_on_edge_3() {
    let tri = unit_triangle();
    let test_point = Vec3::new(5.0, 5.0, 1.0);
    let (feature, closest_point) = tri.closest_point(&test_point);
    assert!(matches!(feature, TriangleFeature::EDGE(_)));
    assert!(closest_point.distance_to_coord(2.5, 2.5, 0.0).abs() < f64::EPSILON);
}

#[test]
fn test_closest_point_on_v_1() {
    let v1 = Vec3::new(0.0, 0.0, 0.0);
    let tri = unit_triangle();
    let test_point = Vec3::new(-1.0, -1.0, 1.0);
    let (feature, closest_point) = tri.closest_point(&test_point);
    assert!(matches!(feature, TriangleFeature::VERTEX(_)));
    assert!(closest_point.distance_to_vec3(&v1).abs() < f64::EPSILON);
}

#[test]
fn test_closest_point_on_v_2() {
    let v2 = Vec3::new(5.0, 0.0, 0.0);
    let tri = unit_triangle();
    let test_point = Vec3::new(6.0, 0.0, 1.0);
    let (feature, closest_point) = tri.closest_point(&test_point);
    assert!(matches!(feature, TriangleFeature::VERTEX(_)));
    assert!(closest_point.distance_to_vec3(&v2).abs() < f64::EPSILON);
}

#[test]
fn test_closest_point_on_v_3() {
    let v3 = Vec3::new(0.0, 5.0, 0.0);
    let tri = unit_triangle();
    let test_point = Vec3::new(0.0, 6.0, 1.0);
    let (feature, closest_point) = tri.closest_point(&test_point);
    assert!(matches!(feature, TriangleFeature::VERTEX(_)));
    assert!(closest_point.distance_to_vec3(&v3).abs() < f64::EPSILON);
}

#[test]
fn test_barycentric_coord() {
    let tri = unit_triangle();

    let coord_1 = tri.barycentric_coord(&Vec3::new(0.0, 0.0, 0.0));
    let coord_2 = tri.barycentric_coord(&Vec3::new(5.0, 0.0, 0.0));
    let coord_3 = tri.barycentric_coord(&Vec3::new(0.0, 5.0, 0.0));

    assert!(coord_1.distance_to_coord(1., 0., 0.) < f64::EPSILON);
    assert!(coord_2.distance_to_coord(0., 1., 0.) < f64::EPSILON);
    assert!(coord_3.distance_to_coord(0., 0., 1.) < f64::EPSILON);

    let coord_4 = tri.barycentric_coord(&Vec3::new(2.5, 0.0, 0.0));
    let coord_5 = tri.barycentric_coord(&Vec3::new(0.0, 2.5, 0.0));
    let coord_6 = tri.barycentric_coord(&Vec3::new(2.5, 2.5, 0.0));

    assert!(coord_4.distance_to_coord(0.5, 0.5, 0.) < f64::EPSILON);
    assert!(coord_5.distance_to_coord(0.5, 0., 0.5) < f64::EPSILON);
    assert!(coord_6.distance_to_coord(0., 0.5, 0.5) < f64::EPSILON);

    let coord_7 = tri.barycentric_coord(&Vec3::new(1.67, 1.67, 0.0));
    assert!(coord_7.distance_to_coord(0.33, 0.33, 0.33) < 0.1);
}

#[test]
fn test_intersects_triangle() {
    let triangle = Triangle::new(Vec3::new(0.0, 0.0, 0.0), Vec3::new(1.0, 1.0, 0.0), Vec3::new(0.0, 0.0, 1.0));
    let bounds = BoundingBox::new(Vec3::new(0.0, 0.0, 0.0), Vec3::new(1.0, 1.0, 1.0));
    assert!(bounds.intersects(&triangle.bounds()));
}

#[test]
fn triangle_area_and_normal() {
    let tri = unit_triangle();
    assert!((tri.compute_area() - 12.5).abs() < 1e-9);
    let n = tri.face_normal();
    assert!(n.distance_to_coord(0.0, 0.0, 1.0) < 1e-12);
    let normals = tri.vertex_normals();
    assert!(normals.iter().all(|m| m.distance_to_coord(0.0, 0.0, 1.0) < 1e-12));
}

/// A box from (0, 0, 0) to (size, size, size), faces wound with outward normals.
fn box_mesh(size: f64) -> Mesh<f64> {
    let s = size;
    let mut mesh = Mesh::new();
    mesh.add_vertices(&[
        Vec3::new(0.0, 0.0, 0.0),
        Vec3::new(s, 0.0, 0.0),
        Vec3::new(s, s, 0.0),
        Vec3::new(0.0, s, 0.0),
        Vec3::new(0.0, 0.0, s),
        Vec3::new(s, 0.0, s),
        Vec3::new(s, s, s),
        Vec3::new(0.0, s, s),
    ]);
    mesh.add_faces(&[
        [0, 2, 1],
        [0, 3, 2],
        [4, 5, 6],
        [4, 6, 7],
        [0, 1, 5],
        [0, 5, 4],
        [1, 2, 6],
        [1, 6, 5],
        [2, 3, 7],
        [2, 7, 6],
        [3, 0, 4],
        [3, 4, 7],
    ]);
    mesh
}

#[test]
fn mesh_counts_and_triangles() {
    let mesh = box_mesh(20.0);
    assert_eq!(mesh.num_vertices(), 8);
    assert_eq!(mesh.num_faces(), 12);
    assert!(mesh.normals().is_none());
    let triangles = mesh.as_triangles();
    assert_eq!(triangles.len(), 12);
    assert!(triangles[2].p1().distance_to_coord(0.0, 0.0, 20.0) < 1e-12);
    assert!(triangles[2].p3().distance_to_coord(20.0, 20.0, 20.0) < 1e-12);
    assert!(triangles.iter().all(|t| t.n.is_none()));
}

#[test]
fn mesh_bounds_and_centroid() {
    let mesh = box_mesh(20.0);
    let bounds = mesh.bounds();
    assert!(bounds.min.distance_to_coord(0.0, 0.0, 0.0) < 1e-12);
    assert!(bounds.max.distance_to_coord(20.0, 20.0, 20.0) < 1e-12);
    assert!(mesh.centroid().distance_to_coord(10.0, 10.0, 10.0) < 1e-12);
    let union = BoundingBox::from_objects(&mesh.as_triangles());
    assert!(bounds.min.distance_to_vec3(&union.min) < f64::EPSILON);
    assert!(bounds.max.distance_to_vec3(&union.max) < f64::EPSILON);
}

#[test]
fn mesh_edges_are_unique_undirected_edges() {
    let mut mesh: Mesh<f64> = Mesh::new();
    mesh.add_vertices(&[
        Vec3::new(0.0, 0.0, 0.0),
        Vec3::new(1.0, 0.0, 0.0),
        Vec3::new(1.0, 1.0, 0.0),
        Vec3::new(0.0, 1.0, 0.0),
    ]);
    mesh.add_faces(&[[0, 1, 2], [0, 2, 3], [0, 1, 2]]);
    let edges = mesh.edges();
    assert_eq!(edges.len(), 5);
    for line in edges.iter() {
        let reversed = edges.iter().filter(|other| other.start.x == line.end.x && other.start.y == line.end.y
            && other.end.x == line.start.x && other.end.y == line.start.y).count();
        assert_eq!(reversed, 0);
    }
    assert_eq!(box_mesh(1.0).edges().len(), 18);
}

#[test]
fn mesh_vertex_normals_of_flat_square() {
    let mut mesh: Mesh<f64> = Mesh::new();
    mesh.add_vertices(&[
        Vec3::new(0.0, 0.0, 0.0),
        Vec3::new(1.0, 0.0, 0.0),
        Vec3::new(1.0, 1.0, 0.0),
        Vec3::new(0.0, 1.0, 0.0),
    ]);
    mesh.add_faces(&[[0, 1, 2], [0, 2, 3]]);
    mesh.compute_vertex_normals();
    let normals = mesh.normals().unwrap();
    assert_eq!(normals.len(), 4);
    assert!(normals.iter().all(|n| n.distance_to_coord(0.0, 0.0, 1.0) < 1e-12));

    let mut par = mesh.clone();
    par.compute_vertex_normals_par();
    let par_normals = par.normals().unwrap();
    for (a, b) in normals.iter().zip(par_normals.iter()) {
        assert!(a.distance_to_vec3(b) < 1e-12);
    }

    let triangles = mesh.as_triangles();
    assert!(triangles.iter().all(|t| t.n.is_some()));
}

#[test]
fn mesh_convert_and_transform() {
    let mesh = box_mesh(2.0);
    let converted: Mesh<f32> = mesh.convert::<f32>().unwrap();
    assert_eq!(converted.num_vertices(), 8);
    assert_eq!(converted.faces(), mesh.faces());
    assert!(converted.normals().is_none());

    let mut moved = box_mesh(2.0);
    moved.transform_self_par(Transform::translation(Vec3::new(1.0, 2.0, 3.0)));
    assert!(moved.bounds().min.distance_to_coord(1.0, 2.0, 3.0) < 1e-12);
    assert_eq!(moved.num_faces(), 12);
}

#[test]
fn mesh_octree_signed_distance_box() {
    let m = box_mesh(20.0);
    let octree = m.compute_octree(10, 9);

    let signed_distance = octree.signed_distance(&m.centroid());
    assert!((signed_distance + 10.0).abs() < 0.001);

    let signed_distance = octree.signed_distance(&Vec3::new(30.0, 10.0, 10.0));
    assert!((signed_distance - 10.0).abs() < 0.001);

    let signed_distance = octree.signed_distance(&Vec3::new(20.0, 20.0, 20.0));
    assert!(signed_distance.abs() < 0.001);

    let collection = GeometryCollection::from_mesh(&m);
    let (closest, _) = collection.closest_point(&Vec3::new(10.0, 10.0, 25.0));
    assert!(closest.distance_to_coord(10.0, 10.0, 20.0) < 1e-9);
}

use imlet::utils::obj::{parse_obj, ObjError};

#[test]
fn obj_text_reads_vertices_faces_and_normals() {
    let text = "# a square\nv 0 0 0\nv 1 0 0\r\nv 1 1 0\nv 0 1 0\n\nf 1 2 3\nf 1/4/1 3//2 +4\nvt 0 0\n";
    let mesh: Mesh<f64> = parse_obj(text.as_bytes(), false, false).unwrap();
    assert_eq!(mesh.num_vertices(), 4);
    assert_eq!(mesh.faces(), &[[0, 1, 2], [0, 2, 3]]);
    let normals = mesh.normals().unwrap();
    assert_eq!(normals.len(), 4);
    assert!(normals.iter().all(|n| n.distance_to_coord(0.0, 0.0, 1.0) < 1e-12));
    assert!(mesh.vertices()[2].distance_to_coord(1.0, 1.0, 0.0) < 1e-12);
}

#[test]
fn obj_text_flips_y_and_z() {
    let mesh: Mesh<f32> = parse_obj(b"v 1 2 3\nv 0 0 0\nv 1 0 0\nf 1 2 3", true, false).unwrap();
    assert!(mesh.vertices()[0].distance_to_coord(1.0, -3.0, 2.0) < 1e-6);
    assert_eq!(mesh.num_faces(), 1);
}

#[test]
fn obj_text_reads_normals_when_asked() {
    let text = b"v 0 0 0\nv 1 0 0\nv 0 1 0\nn 0 0 1\nn 0 0 1\nn 0 0 1\nf 1 2 3\n";
    let mesh: Mesh<f64> = parse_obj(text, false, true).unwrap();
    assert_eq!(mesh.normals().unwrap().len(), 3);
    let short = b"v 0 0 0\nv 1 0 0\nv 0 1 0\nn 0 0 1\nf 1 2 3\n";
    let mesh: Mesh<f64> = parse_obj(short, false, true).unwrap();
    assert!(mesh.normals().is_none());
}

#[test]
fn obj_text_errors() {
    assert_eq!(parse_obj::<f64>(b"v 1 2\n", false, false).err(), Some(ObjError::InvalidVertex));
    assert_eq!(parse_obj::<f64>(b"v 1 2 3\nf 1 1\n", false, false).err(), Some(ObjError::InvalidFace));
    assert_eq!(parse_obj::<f64>(b"v 1 x 3\n", false, false).err(), Some(ObjError::InvalidNumber));
    assert_eq!(parse_obj::<f64>(b"v 1 2 3\nf 0 1 1\n", false, false).err(), Some(ObjError::InvalidIndex));
    assert_eq!(parse_obj::<f64>(b"v 1 2 3\nf a 1 1\n", false, false).err(), Some(ObjError::InvalidIndex));
    assert_eq!(parse_obj::<f64>(b"v 1 2 3\nf 1 1 2\n", false, false).err(), Some(ObjError::IndexOutOfRange));
    assert_eq!(parse_obj::<f64>(b"f 1 2\nv 1 2\n", false, false).err(), Some(ObjError::InvalidFace));
    assert_eq!(parse_obj::<f64>(b"n 1 2\n", false, true).err(), Some(ObjError::InvalidVertex));
    assert!(parse_obj::<f64>(b"n 1 2\n", false, false).is_ok());
    assert_eq!(ObjError::InvalidFace.message(), "Invalid face format");
}

#[test]
fn bounding_box_as_triangles_cover_the_box() {
    let bounds = BoundingBox::new(Vec3::new(1.0, 2.0, 3.0), Vec3::new(4.0, 6.0, 8.0));
    let triangles = bounds.as_triangles();
    assert_eq!(triangles.len(), 12);
    assert!(triangles[0].p1().distance_to_vec3(&bounds.min) < 1e-12);
    assert!(triangles[4].p2().distance_to_vec3(&bounds.max) < 1e-12);
    let union = BoundingBox::from_objects(&triangles);
    assert!(union.min.distance_to_vec3(&bounds.min) < 1e-12);
    assert!(union.max.distance_to_vec3(&bounds.max) < 1e-12);
    assert!(triangles.iter().all(|t| t.n.is_none() && t.compute_area() > 0.0));
}

#[test]
fn test_octree_all_bounds_lists_the_leaves() {
    let empty: Octree<Triangle<f64>, f64> = Octree::new();
    assert!(empty.all_bounds().is_empty());
    let tri = unit_triangle();
    let tree = Octree::new().with_objects(&[tri]).build();
    let all = tree.all_bounds();
    assert_eq!(all.len(), 1);
    let b = tree.bounds().unwrap();
    assert_eq!((all[0].min.x, all[0].min.y, all[0].min.z), (b.min.x, b.min.y, b.min.z));
    assert_eq!((all[0].max.x, all[0].max.y, all[0].max.z), (b.max.x, b.max.y, b.max.z));
}

#[test]
fn obj_text_without_geometry_gives_an_empty_mesh() {
    let mesh: Mesh<f64> = parse_obj(b"# nothing here\nvt 0 0\n\n", false, false).unwrap();
    assert_eq!(mesh.num_vertices(), 0);
    assert_eq!(mesh.num_faces(), 0);
    let empty: Mesh<f64> = parse_obj(b"", false, true).unwrap();
    assert_eq!(empty.num_vertices(), 0);
    assert_eq!(parse_obj::<f64>(b"v 1 x 3\nf 1\n", false, false).err(), Some(ObjError::InvalidNumber));
}

#[test]
fn empty_mesh_converts() {
    let mesh: Mesh<f64> = Mesh::new();
    let converted: Option<Mesh<f32>> = mesh.convert();
    assert!(converted.is_some());
    assert_eq!(converted.unwrap().num_vertices(), 0);
}

#[test]
fn closest_point_object_is_one_of_the_collection() {
    let triangles = vec![
        unit_triangle(),
        Triangle::new(Vec3::new(0.0, 0.0, 10.0), Vec3::new(5.0, 0.0, 10.0), Vec3::new(0.0, 5.0, 10.0)),
    ];
    let collection = GeometryCollection::build(triangles.clone());
    let (point, object) = collection.closest_point(&Vec3::new(1.0, 1.0, 9.0));
    assert!(point.distance_to_coord(1.0, 1.0, 10.0) < 1e-12);
    assert!(object.p1().distance_to_coord(0.0, 0.0, 10.0) < 1e-12);
    let tree = Octree::new().with_objects(&triangles).build();
    let (_, found) = tree.closest_point(&Vec3::new(1.0, 1.0, -1.0)).unwrap();
    assert!(found.p1().distance_to_coord(0.0, 0.0, 0.0) < 1e-12 && found.p2().distance_to_coord(5.0, 0.0, 0.0) < 1e-12);
}
