use vstd::prelude::*;

verus! {

/// Slot of the display settings.
pub const SETTINGS_SLOT: u32 = 1;

/// Slot of the viewer state.
pub const PLAYER_SLOT: u32 = 2;

/// Slot of the texture atlas sampler.
pub const SAMPLER_SLOT: u32 = 4;

/// Slot of the per-column slice data.
pub const SLICE_SLOT: u32 = 5;

/// Slot of the per-row ceiling and floor data.
pub const CEILING_FLOOR_SLOT: u32 = 6;

/// Slot of the per-column depth buffer.
pub const DEPTH_SLOT: u32 = 7;

/// The compute passes of a frame.
#[derive(Debug, Clone, Copy, PartialEq, Eq, Structural)]
pub enum Pass {
    CeilingFloorPreprocess,
    CeilingFloor,
    WallsPreprocess,
    Walls,
    SpritePreprocess,
    SpriteDraw,
}

/// What a pass must have made visible before the next one starts.
#[derive(Debug, Clone, Copy, PartialEq, Eq, Structural)]
pub enum Barrier {
    StorageWrites,
    ImageWrites,
}

/// One dispatch: the pass, its work groups, the sprite it draws (for
/// `SpriteDraw`; zero otherwise) and the barrier after it.
#[derive(Debug, Clone, Copy, PartialEq, Eq, Structural)]
pub struct Dispatch {
    pub pass: Pass,
    pub groups_x: u32,
    pub groups_y: u32,
    pub groups_z: u32,
    pub sprite_idx: u32,
    pub barrier: Barrier,
}

/// Passes before the sprite draws.
pub const FIXED_PASSES: usize = 5;

/// Dispatch `k` of a frame of `w` by `h` pixels with `n` sprites.
pub open spec fn plan_entry(w: u32, h: u32, n: u32, k: int) -> Dispatch {
    if k == 0 {
        Dispatch { pass: Pass::CeilingFloorPreprocess, groups_x: 1, groups_y: h, groups_z: 1, sprite_idx: 0, barrier: Barrier::StorageWrites }
    } else if k == 1 {
        Dispatch { pass: Pass::CeilingFloor, groups_x: w, groups_y: h, groups_z: 1, sprite_idx: 0, barrier: Barrier::ImageWrites }
    } else if k == 2 {
        Dispatch { pass: Pass::WallsPreprocess, groups_x: w, groups_y: 1, groups_z: 1, sprite_idx: 0, barrier: Barrier::StorageWrites }
    } else if k == 3 {
        Dispatch { pass: Pass::Walls, groups_x: w, groups_y: h, groups_z: 1, sprite_idx: 0, barrier: Barrier::ImageWrites }
    } else if k == 4 {
        Dispatch { pass: Pass::SpritePreprocess, groups_x: 1, groups_y: 1, groups_z: n, sprite_idx: 0, barrier: Barrier::StorageWrites }
    } else {
        Dispatch { pass: Pass::SpriteDraw, groups_x: w, groups_y: h, groups_z: 1, sprite_idx: (k - 5) as u32, barrier: Barrier::ImageWrites }
    }
}

/// The dispatches of one frame of `width` by `height` pixels with
/// `sprite_count` sprites, in order: ceiling and floor, walls, sprite
/// preprocessing, then one draw per sprite in draw order. Presenting follows.
pub fn frame_plan(width: u32, height: u32, sprite_count: u32) -> (r: Vec<Dispatch>)
    ensures
        r@.len() == FIXED_PASSES + sprite_count,
        forall|k: int| 0 <= k < r@.len() ==> #[trigger] r@[k] == plan_entry(width, height, sprite_count, k),
{
    let mut r: Vec<Dispatch> = Vec::new();
    r.push(Dispatch { pass: Pass::CeilingFloorPreprocess, groups_x: 1, groups_y: height, groups_z: 1, sprite_idx: 0, barrier: Barrier::StorageWrites });
    r.push(Dispatch { pass: Pass::CeilingFloor, groups_x: width, groups_y: height, groups_z: 1, sprite_idx: 0, barrier: Barrier::ImageWrites });
    r.push(Dispatch { pass: Pass::WallsPreprocess, groups_x: width, groups_y: 1, groups_z: 1, sprite_idx: 0, barrier: Barrier::StorageWrites });
    r.push(Dispatch { pass: Pass::Walls, groups_x: width, groups_y: height, groups_z: 1, sprite_idx: 0, barrier: Barrier::ImageWrites });
    r.push(Dispatch { pass: Pass::SpritePreprocess, groups_x: 1, groups_y: 1, groups_z: sprite_count, sprite_idx: 0, barrier: Barrier::StorageWrites });
    let mut i: u32 = 0;
    while i < sprite_count
        invariant
            i <= sprite_count,
            r@.len() == FIXED_PASSES + i,
            forall|k: int| 0 <= k < r@.len() ==> #[trigger] r@[k] == plan_entry(width, height, sprite_count, k),
        decreases sprite_count - i,
    {
        r.push(Dispatch { pass: Pass::SpriteDraw, groups_x: width, groups_y: height, groups_z: 1, sprite_idx: i, barrier: Barrier::ImageWrites });
        i = i + 1;
    }
    r
}

/// A frame's plan holds the four ceiling, floor and wall passes, one sprite
/// preprocessing pass, and exactly one draw per sprite, each sprite drawn
/// once and in draw order.
pub proof fn lemma_frame_plan_shape(w: u32, h: u32, n: u32)
    ensures
        forall|k: int| 0 <= k < 4 ==> #[trigger] plan_entry(w, h, n, k).pass != Pass::SpriteDraw
            && plan_entry(w, h, n, k).pass != Pass::SpritePreprocess,
        plan_entry(w, h, n, 4).pass == Pass::SpritePreprocess,
        forall|k: int|
            FIXED_PASSES <= k < FIXED_PASSES + n ==> #[trigger] plan_entry(w, h, n, k).pass
                == Pass::SpriteDraw && plan_entry(w, h, n, k).sprite_idx == k - FIXED_PASSES,
        forall|i: int, j: int|
            FIXED_PASSES <= i < j < FIXED_PASSES + n ==> plan_entry(w, h, n, i).sprite_idx
                < plan_entry(w, h, n, j).sprite_idx,
{
}

} // verus!
