use tilecast::scene::{ConfigError, Scene, SceneChunk, SceneIterator};
use tilecast::ray::Ray;
use ultraviolet::Vec3;

fn scene(width: u32, height: u32) -> Scene {
    Scene { screen_width: width, screen_height: height, eye: Vec3::new(0.0, 2.0, 1.0) }
}

fn toward(x: u32, y: u32) -> Vec3 {
    Vec3::new(x as f32, y as f32, -1.0)
}

fn coordinates(tiles: &[SceneChunk]) -> Vec<(u32, u32)> {
    let mut all = Vec::new();
    for tile in tiles {
        for ray in tile.as_ref() {
            all.push((ray.screen_x, ray.screen_y));
        }
    }
    all
}

fn row_major(width: u32, height: u32) -> Vec<(u32, u32)> {
    let mut all = Vec::new();
    for y in 0..height {
        for x in 0..width {
            all.push((x, y));
        }
    }
    all
}

#[test]
fn test_scene_iterator() {
    let scene = Scene { screen_width: 10, screen_height: 10, eye: Default::default() };
    let iterator = SceneIterator::new(&scene, 25, |_, _| Vec3::zero()).unwrap();

    assert_eq!(iterator.collect().len(), 4);
}

#[test]
fn ten_by_ten_in_tiles_of_25() {
    let scene = scene(10, 10);
    let tiles = SceneIterator::new(&scene, 25, toward).unwrap().collect();
    assert_eq!(tiles.len(), 4);
    let lengths: Vec<usize> = tiles.iter().map(|t| t.len()).collect();
    assert_eq!(lengths, vec![25, 25, 25, 25]);
    for tile in &tiles {
        assert!(tile.is_dispatchable());
        assert_eq!(tile.get_dimensions(), (5, 5));
        assert_eq!(tile.requested_capacity(), 25);
    }
}

#[test]
fn ten_by_ten_in_tiles_of_36() {
    let scene = scene(10, 10);
    let tiles = SceneIterator::new(&scene, 36, toward).unwrap().collect();
    assert_eq!(tiles.len(), 3);
    let lengths: Vec<usize> = tiles.iter().map(|t| t.len()).collect();
    assert_eq!(lengths, vec![36, 36, 28]);
    let shapes: Vec<(u32, u32)> = tiles.iter().map(|t| t.get_dimensions()).collect();
    assert_eq!(shapes, vec![(6, 6), (6, 6), (28, 1)]);
}

#[test]
fn tiles_cover_the_raster_row_by_row() {
    for (width, height, capacity) in [(7u32, 5u32, 9usize), (10, 10, 25), (10, 10, 36), (1, 13, 4), (13, 1, 4), (3, 3, 1)] {
        let scene = scene(width, height);
        let tiles = SceneIterator::new(&scene, capacity, toward).unwrap().collect();
        let pixels = (width * height) as usize;
        assert_eq!(tiles.len(), (pixels + capacity - 1) / capacity);
        assert_eq!(coordinates(&tiles), row_major(width, height));
        for (k, tile) in tiles.iter().enumerate() {
            if k + 1 < tiles.len() {
                assert_eq!(tile.len(), capacity);
            } else {
                assert!(tile.len() >= 1 && tile.len() <= capacity);
            }
        }
    }
}

#[test]
fn pixel_ids_turn_into_columns_and_rows() {
    let scene = scene(7, 5);
    let mut tiles = SceneIterator::new(&scene, 9, toward).unwrap();
    let first = tiles.next().unwrap();
    let rays = first.as_ref();
    assert_eq!((rays[0].screen_x, rays[0].screen_y), (0, 0));
    assert_eq!((rays[6].screen_x, rays[6].screen_y), (6, 0));
    assert_eq!((rays[7].screen_x, rays[7].screen_y), (0, 1));
    assert_eq!((rays[8].screen_x, rays[8].screen_y), (1, 1));
    let second = tiles.next().unwrap();
    assert_eq!((second.as_ref()[0].screen_x, second.as_ref()[0].screen_y), (2, 1));
}

#[test]
fn rays_start_at_the_eye_and_point_where_the_caster_says() {
    let scene = scene(4, 3);
    let tiles = SceneIterator::new(&scene, 4, toward).unwrap().collect();
    for tile in &tiles {
        for ray in tile.as_ref() {
            assert_eq!(ray.orig, Vec3::new(0.0, 2.0, 1.0));
            assert_eq!(ray.dir, Vec3::new(ray.screen_x as f32, ray.screen_y as f32, -1.0));
            assert_eq!(ray.color, Vec3::new(0.0, 0.0, 0.0));
        }
    }
}

#[test]
fn capacity_that_is_no_square_is_refused() {
    let scene = scene(10, 10);
    for capacity in [0usize, 2, 3, 5, 24, 26, 35, 37, 250001] {
        let made = SceneIterator::new(&scene, capacity, toward);
        match made {
            Ok(_) => panic!("capacity {} was accepted", capacity),
            Err(error) => {
                assert_eq!(error, ConfigError::CapacityNotSquare);
                assert_eq!(error.message(), "`size` must be a square of some number");
            }
        }
    }
}

#[test]
fn capacity_that_is_a_square_is_accepted() {
    let scene = scene(10, 10);
    for capacity in [1usize, 4, 9, 16, 25, 36, 100, 250000, 4294836225] {
        assert!(SceneIterator::new(&scene, capacity, toward).is_ok());
    }
}

#[test]
fn capacity_larger_than_the_raster_gives_one_short_tile() {
    let scene = scene(3, 3);
    let tiles = SceneIterator::new(&scene, 16, toward).unwrap().collect();
    assert_eq!(tiles.len(), 1);
    assert_eq!(tiles[0].len(), 9);
    assert_eq!(tiles[0].get_dimensions(), (9, 1));
}

#[test]
fn capacity_equal_to_the_raster_gives_one_full_tile() {
    let scene = scene(3, 3);
    let tiles = SceneIterator::new(&scene, 9, toward).unwrap().collect();
    assert_eq!(tiles.len(), 1);
    assert_eq!(tiles[0].get_dimensions(), (3, 3));
}

#[test]
fn empty_raster_has_no_tiles() {
    for (width, height) in [(0u32, 0u32), (0, 5), (5, 0)] {
        let scene = scene(width, height);
        let mut tiles = SceneIterator::new(&scene, 4, toward).unwrap();
        assert_eq!(tiles.count(), 0);
        assert!(tiles.next().is_none());
    }
}

#[test]
fn exhausted_partitioner_stays_exhausted() {
    let scene = scene(2, 2);
    let mut tiles = SceneIterator::new(&scene, 4, toward).unwrap();
    assert!(tiles.next().is_some());
    assert!(tiles.next().is_none());
    assert!(tiles.next().is_none());
}

#[test]
fn count_is_the_number_of_tiles_to_come() {
    let scene = scene(10, 10);
    let mut tiles = SceneIterator::new(&scene, 36, toward).unwrap();
    assert_eq!(tiles.count(), 3);
    tiles.next();
    assert_eq!(tiles.count(), 2);
    tiles.next();
    assert_eq!(tiles.count(), 1);
    tiles.next();
    assert_eq!(tiles.count(), 0);
    let default_scene = Scene::with_eye(Vec3::new(4.0, 1.0, 5.0));
    let large = SceneIterator::new(&default_scene, 250000, toward).unwrap();
    assert_eq!(large.count(), 16);
}

#[test]
fn scene_with_eye_has_the_default_raster() {
    let scene = Scene::with_eye(Vec3::new(4.0, 1.0, 5.0));
    assert_eq!(scene.screen_width, 2000);
    assert_eq!(scene.screen_height, 2000);
    assert_eq!(scene.eye, Vec3::new(4.0, 1.0, 5.0));
    assert_eq!(scene.total_pixels(), 4_000_000);
    let widest = Scene { screen_width: u32::MAX, screen_height: u32::MAX, eye: Vec3::zero() };
    assert_eq!(widest.total_pixels(), 18446744065119617025);
}

#[test]
fn chunk_from_vec_keeps_rays_and_capacity() {
    let rays: Vec<Ray> = (0..5).map(|i| Ray::new(Vec3::zero(), Vec3::unit_z(), None, i, 0)).collect();
    let chunk = SceneChunk::from_vec(rays, 9);
    assert_eq!(chunk.len(), 5);
    assert_eq!(chunk.requested_capacity(), 9);
    assert_eq!(chunk.as_ref()[3].screen_x, 3);
    assert_eq!(chunk.get_dimensions(), (5, 1));
    let full: Vec<Ray> = (0..9).map(|i| Ray::new(Vec3::zero(), Vec3::unit_z(), None, i, 0)).collect();
    assert_eq!(SceneChunk::from_vec(full, 9).get_dimensions(), (3, 3));
    let empty = SceneChunk::from_vec(Vec::new(), 4);
    assert_eq!(empty.get_dimensions(), (0, 1));
}

#[test]
fn ray_new_and_default() {
    let ray = Ray::new(Vec3::new(1.0, 2.0, 3.0), Vec3::new(4.0, 5.0, 6.0), Some(Vec3::new(0.5, 0.25, 1.0)), 7, 8);
    assert_eq!(ray.orig, Vec3::new(1.0, 2.0, 3.0));
    assert_eq!(ray.dir, Vec3::new(4.0, 5.0, 6.0));
    assert_eq!(ray.color, Vec3::new(0.5, 0.25, 1.0));
    assert_eq!((ray.screen_x, ray.screen_y), (7, 8));
    let unlit = Ray::new(Vec3::new(1.0, 2.0, 3.0), Vec3::new(4.0, 5.0, 6.0), None, 7, 8);
    assert_eq!(unlit.color, Vec3::new(0.0, 0.0, 0.0));
    let blank = Ray::default();
    assert_eq!(blank.orig, Vec3::new(0.0, 0.0, 0.0));
    assert_eq!(blank.dir, Vec3::new(0.0, 0.0, 0.0));
    assert_eq!(blank.color, Vec3::new(0.0, 0.0, 0.0));
    assert_eq!((blank.screen_x, blank.screen_y), (0, 0));
}
