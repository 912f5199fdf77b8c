use raster::buffer::StorageBuffer;
use raster::sprites::{read_result, read_sprite, write_sprite, Sprite, SpritePreprocessResult};
use raster::vector::Vector2;

#[test]
fn empty_buffer_is_zeroed() {
    let b = StorageBuffer::empty(8, 24);
    assert_eq!(b.byte_capacity(), 24);
    assert_eq!(b.binding(), 8);
    assert!(b.bytes().iter().all(|x| *x == 0));
}

#[test]
fn sprite_round_trip_at_offset() {
    let mut b = StorageBuffer::empty(8, 36);
    let s = Sprite::new(Vector2::new(-7, 123456), 42);
    let i: usize = 2;
    assert!(write_sprite(&mut b, &s, i * 12).is_ok());
    assert_eq!(read_sprite(&b, i * 12), Ok(s));
    assert_eq!(read_sprite(&b, 0), Ok(Sprite::new(Vector2::new(0, 0), 0)));
}

#[test]
fn sprite_bytes_are_little_endian() {
    let mut b = StorageBuffer::empty(8, 12);
    let s = Sprite::new(Vector2::new(-1, 0x0102_0304), 0xAABB_CCDD);
    write_sprite(&mut b, &s, 0).unwrap();
    assert_eq!(
        b.bytes().clone(),
        vec![0xff, 0xff, 0xff, 0xff, 0x04, 0x03, 0x02, 0x01, 0xDD, 0xCC, 0xBB, 0xAA]
    );
}

#[test]
fn sprite_write_past_capacity_fails() {
    let mut b = StorageBuffer::empty(8, 20);
    let s = Sprite::new(Vector2::new(1, 2), 3);
    assert!(write_sprite(&mut b, &s, 12).is_err());
    assert!(b.bytes().iter().all(|x| *x == 0));
    assert!(read_sprite(&b, 9).is_err());
    assert!(write_sprite(&mut b, &s, 8).is_ok());
}

#[test]
fn store_and_read_result() {
    let mut b = StorageBuffer::empty(9, 40);
    let mut data: Vec<u8> = Vec::new();
    for v in [10i32, 20, -3, 4, 5, -6, 7] {
        data.extend_from_slice(&v.to_le_bytes());
    }
    data.extend_from_slice(&[0, 0, 0, 0]);
    data.extend_from_slice(&2.5f64.to_bits().to_le_bytes());
    assert!(b.store(0, &data).is_ok());
    let r = read_result(&b, 0).unwrap();
    assert_eq!(
        r,
        SpritePreprocessResult {
            sprite_width: 10,
            sprite_height: 20,
            draw_start_y: -3,
            draw_end_y: 4,
            draw_start_x: 5,
            draw_end_x: -6,
            sprite_screen_x: 7,
            transform_y_bits: 2.5f64.to_bits(),
        }
    );
    assert!(read_result(&b, 1).is_err());
    assert!(b.store(1, &data).is_err());
}

#[test]
fn words_upload_little_endian() {
    let b = StorageBuffer::from_words(3, &vec![1, 0x0100]);
    assert_eq!(b.bytes().clone(), vec![1, 0, 0, 0, 0, 1, 0, 0]);
    assert_eq!(b.get_word(4), 0x0100);
}
