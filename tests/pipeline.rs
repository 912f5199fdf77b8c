use raster::input::{handle_window_event, Command, Direction, Key, KeyAction};
use raster::pipeline::{frame_plan, Barrier, Pass};
use raster::sprite::{Sprite, SpriteTemplate};
use raster::vector::Vector2;

#[test]
fn frame_plan_order() {
    let plan = frame_plan(640, 480, 3);
    assert_eq!(plan.len(), 8);
    let passes: Vec<Pass> = plan.iter().map(|d| d.pass).collect();
    assert_eq!(
        passes,
        vec![
            Pass::CeilingFloorPreprocess,
            Pass::CeilingFloor,
            Pass::WallsPreprocess,
            Pass::Walls,
            Pass::SpritePreprocess,
            Pass::SpriteDraw,
            Pass::SpriteDraw,
            Pass::SpriteDraw,
        ]
    );
    let draws: Vec<u32> = plan[5..].iter().map(|d| d.sprite_idx).collect();
    assert_eq!(draws, vec![0, 1, 2]);
    assert_eq!((plan[0].groups_x, plan[0].groups_y), (1, 480));
    assert_eq!((plan[2].groups_x, plan[2].groups_y), (640, 1));
    assert_eq!(plan[4].groups_z, 3);
    assert_eq!(plan[0].barrier, Barrier::StorageWrites);
    assert_eq!(plan[1].barrier, Barrier::ImageWrites);
    assert!(plan[5..].iter().all(|d| d.barrier == Barrier::ImageWrites));
}

#[test]
fn frame_plan_without_sprites() {
    let plan = frame_plan(8, 8, 0);
    assert_eq!(plan.len(), 5);
    assert!(plan.iter().all(|d| d.pass != Pass::SpriteDraw));
}

#[test]
fn key_events() {
    assert_eq!(handle_window_event(Key::Escape, KeyAction::Press), Some(Command::ReleaseCursor));
    assert_eq!(handle_window_event(Key::Escape, KeyAction::Release), None);
    assert_eq!(
        handle_window_event(Key::W, KeyAction::Press),
        Some(Command::StartMovement(Direction::Forwards))
    );
    assert_eq!(
        handle_window_event(Key::A, KeyAction::Release),
        Some(Command::EndMovement(Direction::Left))
    );
    assert_eq!(handle_window_event(Key::D, KeyAction::Repeat), None);
    assert_eq!(handle_window_event(Key::Other, KeyAction::Press), None);
}

#[test]
fn animated_sprite_toggles() {
    let t = SpriteTemplate::new(4, 3, 8, 64, 64);
    let mut s = Sprite::new(Vector2::new(1, 2), Vector2::new(0, 1), &t);
    assert_eq!(*s.position(), Vector2::new(1, 2));
    s.start_animation();
    s.tick();
    s.end_animation();
    assert_eq!(*s.position(), Vector2::new(1, 2));
    assert_eq!(t.view_angle_count, 8);
}
