use tilecast::geometry::{triangles_from_mesh, Triangle};
use tilecast::noise::get_random_image;
use ultraviolet::Vec3;

fn corners() -> Vec<Vec3> {
    vec![
        Vec3::new(0.0, 0.0, 0.0),
        Vec3::new(1.0, 0.0, 0.0),
        Vec3::new(0.0, 1.0, 0.0),
        Vec3::new(0.0, 0.0, 1.0),
    ]
}

#[test]
fn triangle_keeps_its_corners() {
    let triangle = Triangle::new(Vec3::new(1.0, 2.0, 3.0), Vec3::new(4.0, 5.0, 6.0), Vec3::new(7.0, 8.0, 9.0));
    assert_eq!(triangle.v1, Vec3::new(1.0, 2.0, 3.0));
    assert_eq!(triangle.v2, Vec3::new(4.0, 5.0, 6.0));
    assert_eq!(triangle.v3, Vec3::new(7.0, 8.0, 9.0));
}

#[test]
fn triangles_follow_the_indices() {
    let vertices = corners();
    let triangles = triangles_from_mesh(&vertices, &vec![0, 1, 2, 3, 2, 1]).unwrap();
    assert_eq!(triangles.len(), 2);
    assert_eq!(triangles[0].v1, vertices[0]);
    assert_eq!(triangles[0].v2, vertices[1]);
    assert_eq!(triangles[0].v3, vertices[2]);
    assert_eq!(triangles[1].v1, vertices[3]);
    assert_eq!(triangles[1].v2, vertices[2]);
    assert_eq!(triangles[1].v3, vertices[1]);
}

#[test]
fn indices_left_over_describe_no_triangle() {
    let vertices = corners();
    assert_eq!(triangles_from_mesh(&vertices, &vec![0, 1, 2, 3]).unwrap().len(), 1);
    assert_eq!(triangles_from_mesh(&vertices, &vec![0, 1, 2, 3, 9]).unwrap().len(), 1);
    assert_eq!(triangles_from_mesh(&vertices, &vec![0, 1]).unwrap().len(), 0);
    assert_eq!(triangles_from_mesh(&vertices, &vec![]).unwrap().len(), 0);
}

#[test]
fn index_without_vertex_gives_no_triangles() {
    let vertices = corners();
    assert!(triangles_from_mesh(&vertices, &vec![0, 1, 4]).is_none());
    assert!(triangles_from_mesh(&vertices, &vec![0, 1, 2, 4, 0, 1]).is_none());
    assert!(triangles_from_mesh(&vertices, &vec![0, u32::MAX, 2]).is_none());
    assert!(triangles_from_mesh(&Vec::new(), &vec![0, 0, 0]).is_none());
}

#[test]
fn noise_has_four_bytes_for_each_pixel() {
    let noise = get_random_image(6, 6).unwrap();
    assert_eq!((noise.width, noise.height), (6, 6));
    assert_eq!(noise.pixels.len(), 144);
    let strip = get_random_image(28, 1).unwrap();
    assert_eq!(strip.pixels.len(), 112);
    let none = get_random_image(0, 5).unwrap();
    assert_eq!(none.pixels.len(), 0);
}

#[test]
fn noise_is_not_constant() {
    let noise = get_random_image(64, 64).unwrap();
    let first = noise.pixels[0];
    assert!(noise.pixels.iter().any(|byte| *byte != first));
}

#[test]
fn noise_that_does_not_fit_in_memory_is_not_made() {
    assert!(get_random_image(u32::MAX, u32::MAX).is_none());
}
