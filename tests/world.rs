use raster::sprites::Sprite;
use raster::vector::Vector2;
use raster::world::{LoadError, World, WorldStructure, MAP_SLOT};

fn structure(stride: u32, rows: u32) -> WorldStructure {
    WorldStructure {
        layout_tile_width: 64,
        layout_stride: stride,
        layout: (0..stride * rows).collect(),
        ceiling_idx: 7,
        floor_idx: 9,
        sprites: vec![Sprite::new(Vector2::new(1, 1), 2)],
    }
}

fn world(stride: u32, rows: u32) -> World {
    World::new(
        String::from("test_map"),
        structure(stride, rows),
        image::DynamicImage::new_rgba8(1, 1),
    )
    .ok()
    .unwrap()
}

#[test]
fn tile_lookup_in_grid() {
    let w = world(10, 5);
    assert_eq!(w.at(3, 2), Some(23));
    assert_eq!(w.at(0, 0), Some(0));
    assert_eq!(w.at(9, 4), Some(49));
}

#[test]
fn tile_lookup_out_of_grid_fails() {
    let w = world(10, 5);
    assert_eq!(w.at(10, 0), None);
    assert_eq!(w.at(0, 5), None);
    assert_eq!(w.at(u32::MAX, u32::MAX), None);
}

#[test]
fn malformed_layout_is_rejected() {
    let mut s = structure(3, 2);
    s.layout.push(1);
    let r = World::new(String::from("m"), s, image::DynamicImage::new_rgba8(1, 1));
    assert!(matches!(r, Err(LoadError::Malformed)));
    let r = World::new(String::from("m"), structure(0, 2), image::DynamicImage::new_rgba8(1, 1));
    assert!(matches!(r, Err(LoadError::Malformed)));
}

#[test]
fn world_accessors() {
    let w = world(2, 2);
    assert_eq!(w.identifier(), "test_map");
    assert_eq!(w.sprites().clone(), vec![Sprite::new(Vector2::new(1, 1), 2)]);
    let (_, tile_width) = w.sampler_data();
    assert_eq!(tile_width, 64);
}

#[test]
fn gpu_words_lead_with_header() {
    assert_eq!(structure(2, 1).as_vec_for_gpu(), vec![9, 7, 64, 2, 0, 1]);
    let b = world(2, 1).map_buffer();
    assert_eq!(b.binding(), MAP_SLOT);
    assert_eq!(b.byte_capacity(), 24);
    assert_eq!(b.get_word(0), 9);
    assert_eq!(b.get_word(20), 1);
}
