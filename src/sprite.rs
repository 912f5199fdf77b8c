use vstd::prelude::*;

use crate::vector::Vector2;

verus! {

/// How an animated sprite's textures are laid out in the atlas: from
/// `texture_base_index`, one row per view angle (front first), each row the
/// idle frame then `animation_count` animation frames.
#[derive(Debug, Clone, Copy, PartialEq, Eq, Structural)]
pub struct SpriteTemplate {
    pub texture_base_index: i32,
    pub animation_count: i32,
    pub view_angle_count: i32,
    pub tile_width: i32,
    pub tile_height: i32,
}

impl SpriteTemplate {
    pub fn new(
        texture_base_index: i32,
        animation_count: i32,
        view_angle_count: i32,
        tile_width: i32,
        tile_height: i32,
    ) -> (r: SpriteTemplate)
        ensures
            r == (SpriteTemplate {
                texture_base_index,
                animation_count,
                view_angle_count,
                tile_width,
                tile_height,
            }),
    {
        SpriteTemplate {
            texture_base_index,
            animation_count,
            view_angle_count,
            tile_width,
            tile_height,
        }
    }
}

/// A sprite that faces a direction and can play its animation.
#[derive(Debug, Clone, Copy, PartialEq, Eq, Structural)]
pub struct Sprite {
    position: Vector2,
    direction: Vector2,
    template: SpriteTemplate,
    animation_index: i32,
}

impl Sprite {
    pub closed spec fn spec_position(&self) -> Vector2 {
        self.position
    }

    pub closed spec fn spec_direction(&self) -> Vector2 {
        self.direction
    }

    pub closed spec fn spec_template(&self) -> SpriteTemplate {
        self.template
    }

    /// Zero when idle, one while the animation plays.
    pub closed spec fn spec_animation_index(&self) -> i32 {
        self.animation_index
    }

    /// An idle sprite at `position` facing `direction`.
    pub fn new(position: Vector2, direction: Vector2, template: &SpriteTemplate) -> (r: Sprite)
        ensures
            r.spec_position() == position,
            r.spec_direction() == direction,
            r.spec_template() == *template,
            r.spec_animation_index() == 0,
    {
        Sprite { position, direction, animation_index: 0, template: *template }
    }

    pub fn position(&self) -> (r: &Vector2)
        ensures
            *r == self.spec_position(),
    {
        &self.position
    }

    pub fn start_animation(&mut self)
        ensures
            final(self).spec_animation_index() == 1,
            final(self).spec_position() == old(self).spec_position(),
            final(self).spec_direction() == old(self).spec_direction(),
            final(self).spec_template() == old(self).spec_template(),
    {
        self.animation_index = 1;
    }

    pub fn end_animation(&mut self)
        ensures
            final(self).spec_animation_index() == 0,
            final(self).spec_position() == old(self).spec_position(),
            final(self).spec_direction() == old(self).spec_direction(),
            final(self).spec_template() == old(self).spec_template(),
    {
        self.animation_index = 0;
    }

    /// Advances the sprite by one frame; nothing changes yet.
    pub fn tick(&self) {
    }
}

} // verus!
