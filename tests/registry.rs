use raster::buffer::StorageBuffer;
use raster::sprites::{read_sprite, Sprite, SpriteHandle, Sprites, PREPROCESS_SLOT, SPRITE_SLOT};
use raster::vector::Vector2;
use raster::world::{World, WorldStructure};

fn world_with(sprites: Vec<Sprite>) -> World {
    World::new(
        String::from("w"),
        WorldStructure {
            layout_tile_width: 16,
            layout_stride: 1,
            layout: vec![0],
            ceiling_idx: 0,
            floor_idx: 0,
            sprites,
        },
        image::DynamicImage::new_rgba8(1, 1),
    )
    .ok()
    .unwrap()
}

fn order(r: &Sprites) -> Vec<Sprite> {
    (0..r.len()).map(|i| r.at(i).unwrap()).collect()
}

fn far_first(v: &[Sprite], p: Vector2) -> bool {
    v.windows(2).all(|w| w[0].position.dist_sq(&p) >= w[1].position.dist_sq(&p))
}

#[test]
fn initial_sort_farthest_first() {
    let a = Sprite::new(Vector2::new(5, 0), 1);
    let b = Sprite::new(Vector2::new(1, 0), 2);
    let c = Sprite::new(Vector2::new(0, 3), 3);
    let r = Sprites::new(&world_with(vec![a, b, c]), &Vector2::new(0, 0));
    assert_eq!(order(&r), vec![a, c, b]);
    assert_eq!(r.gpu_capacity(), 3);
    let buf = r.sprite_buffer();
    assert_eq!(read_sprite(buf, 0), Ok(a));
    assert_eq!(read_sprite(buf, 12), Ok(c));
    assert_eq!(read_sprite(buf, 24), Ok(b));
}

#[test]
fn capacity_doubles_from_one() {
    let viewer = Vector2::new(0, 0);
    let mut r = Sprites::new(&world_with(vec![]), &viewer);
    let mut seen: Vec<usize> = Vec::new();
    for k in 0..4 {
        seen.push(r.gpu_capacity());
        r.add(Sprite::new(Vector2::new(k, k), 0), &viewer);
        assert!(r.len() < r.gpu_capacity());
    }
    assert_eq!(seen, vec![1, 2, 4, 4]);
    assert_eq!(r.gpu_capacity(), 8);
    assert_eq!(r.len(), 4);
    assert_eq!(r.sprite_buffer().byte_capacity(), 8 * 12);
    assert_eq!(r.preprocess_buffer().byte_capacity(), 8 * 40);
    assert_eq!(r.sprite_buffer().binding(), SPRITE_SLOT);
    assert_eq!(r.preprocess_buffer().binding(), PREPROCESS_SLOT);
}

#[test]
fn capacity_never_below_count() {
    let viewer = Vector2::new(3, -2);
    let spawns = vec![Sprite::new(Vector2::new(0, 0), 0); 3];
    let mut r = Sprites::new(&world_with(spawns), &viewer);
    let mut prev = r.gpu_capacity();
    for k in 0..20 {
        let before = r.len();
        r.add(Sprite::new(Vector2::new(k * 7 % 11, -k), k as u32), &viewer);
        let cap = r.gpu_capacity();
        assert!(r.len() <= cap);
        if before + 1 >= prev {
            assert_eq!(cap, 2 * prev);
        } else {
            assert_eq!(cap, prev);
        }
        prev = cap;
    }
}

#[test]
fn update_sorts_for_any_viewer() {
    let spawns: Vec<Sprite> = (0..9)
        .map(|k| Sprite::new(Vector2::new((k * 37) % 13 - 6, (k * 11) % 7 - 3), k as u32))
        .collect();
    let mut r = Sprites::new(&world_with(spawns.clone()), &Vector2::new(0, 0));
    for p in [Vector2::new(0, 0), Vector2::new(-5, 4), Vector2::new(100, -100)] {
        r.update(&p);
        let v = order(&r);
        assert!(far_first(&v, p));
        let mut sorted_v = v.clone();
        sorted_v.sort_by_key(|s| s.texture_idx);
        assert_eq!(sorted_v, spawns);
        for (i, s) in v.iter().enumerate() {
            assert_eq!(read_sprite(r.sprite_buffer(), i * 12), Ok(*s));
        }
    }
}

#[test]
fn handles_follow_sprites_through_sorts() {
    let viewer = Vector2::new(0, 0);
    let mut r = Sprites::new(&world_with(vec![Sprite::new(Vector2::new(2, 0), 0)]), &viewer);
    let h = r.add(Sprite::new(Vector2::new(1, 0), 1), &viewer);
    assert_eq!(h, SpriteHandle { id: 1 });
    assert_eq!(r.position_of(h), Some(1));
    assert!(r.set_position(h, Vector2::new(9, 0)).is_ok());
    r.update(&viewer);
    assert_eq!(r.position_of(h), Some(0));
    assert_eq!(r.get(h), Some(Sprite::new(Vector2::new(9, 0), 1)));
    let stale = SpriteHandle { id: 5 };
    assert_eq!(r.get(stale), None);
    assert_eq!(r.position_of(stale), None);
    assert!(r.set_position(stale, Vector2::new(0, 0)).is_err());
}

#[test]
fn preprocess_result_bounds() {
    let viewer = Vector2::new(0, 0);
    let mut r = Sprites::new(&world_with(vec![Sprite::new(Vector2::new(1, 1), 0)]), &viewer);
    assert!(r.preprocess_result(1).is_err());
    let mut data: Vec<u8> = vec![0; 40];
    data[8] = 17;
    data[32..40].copy_from_slice(&1.5f64.to_bits().to_le_bytes());
    assert!(r.store_results(&data).is_ok());
    let res = r.preprocess_result(0).unwrap();
    assert_eq!(res.draw_start_y, 17);
    assert_eq!(f64::from_bits(res.transform_y_bits), 1.5);
    assert!(r.store_results(&vec![0; 41]).is_err());
}

#[test]
fn empty_registry_update_is_noop() {
    let mut r = Sprites::new(&world_with(vec![]), &Vector2::new(0, 0));
    r.update(&Vector2::new(1, 1));
    assert_eq!(r.len(), 0);
    assert_eq!(r.gpu_capacity(), 1);
    let zero = StorageBuffer::empty(8, 12);
    assert_eq!(r.sprite_buffer().bytes(), zero.bytes());
}

#[test]
fn squared_distance_exact() {
    assert_eq!(Vector2::new(1, 2).dist_sq(&Vector2::new(4, 6)), 25);
    assert_eq!(
        Vector2::new(i32::MIN, i32::MIN).dist_sq(&Vector2::new(i32::MAX, i32::MAX)),
        2 * (u32::MAX as i128) * (u32::MAX as i128)
    );
}
