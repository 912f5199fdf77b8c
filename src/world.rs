use vstd::prelude::*;

use crate::buffer::{word_at, StorageBuffer};
use crate::sprites::Sprite;

verus! {

/// Slot of the map layout.
pub const MAP_SLOT: u32 = 3;

#[verifier::external_type_specification]
#[verifier::external_body]
pub struct ExDynamicImage(image::DynamicImage);

/// Why a map could not be loaded.
#[derive(Debug, Clone, Copy, PartialEq, Eq, Structural)]
pub enum LoadError {
    NotFound,
    Malformed,
    AssetDecode,
}

/// The map description: tile grid, ceiling and floor textures, and spawns.
pub struct WorldStructure {
    pub layout_tile_width: u32,
    pub layout_stride: u32,
    pub layout: Vec<u32>,
    pub ceiling_idx: u32,
    pub floor_idx: u32,
    pub sprites: Vec<Sprite>,
}

/// The words uploaded for the map: floor, ceiling, tile width, stride, then
/// the tiles row by row.
pub open spec fn gpu_words(s: &WorldStructure) -> Seq<u32> {
    seq![s.floor_idx, s.ceiling_idx, s.layout_tile_width, s.layout_stride] + s.layout@
}

impl WorldStructure {
    pub fn as_vec_for_gpu(&self) -> (r: Vec<u32>)
        ensures
            r@ == gpu_words(self),
    {
        let mut data: Vec<u32> = Vec::new();
        data.push(self.floor_idx);
        data.push(self.ceiling_idx);
        data.push(self.layout_tile_width);
        data.push(self.layout_stride);
        let mut i: usize = 0;
        while i < self.layout.len()
            invariant
                i <= self.layout@.len(),
                data@ == seq![self.floor_idx, self.ceiling_idx, self.layout_tile_width, self.layout_stride]
                    + self.layout@.subrange(0, i as int),
            decreases self.layout@.len() - i,
        {
            data.push(self.layout[i]);
            i = i + 1;
            assert(self.layout@.subrange(0, i as int) =~= self.layout@.subrange(0, i - 1).push(self.layout@[i - 1]));
        }
        assert(self.layout@.subrange(0, i as int) =~= self.layout@);
        data
    }

    /// A layout is a whole number of rows of a positive stride.
    pub open spec fn well_formed(&self) -> bool {
        self.layout_stride > 0 && (self.layout@.len() as int) % (self.layout_stride as int) == 0
            && self.layout@.len() + 4 <= 0x1000_0000
    }
}

/// A loaded map: its name, its structure and its texture atlas. It does not
/// change after loading.
pub struct World {
    identifier: String,
    structure: WorldStructure,
    spritesheet: image::DynamicImage,
}

impl World {
    pub closed spec fn name(&self) -> Seq<char> {
        self.identifier@
    }

    pub closed spec fn structure(&self) -> &WorldStructure {
        &self.structure
    }

    pub closed spec fn well_formed(&self) -> bool {
        self.structure.well_formed()
    }

    pub open spec fn stride(&self) -> int {
        self.structure().layout_stride as int
    }

    pub open spec fn rows(&self) -> int {
        (self.structure().layout@.len() as int) / self.stride()
    }

    /// Tile at column `x`, row `y`, when the grid has one there.
    pub open spec fn tile(&self, x: int, y: int) -> Option<u32> {
        if 0 <= x < self.stride() && 0 <= y < self.rows() {
            Some(self.structure().layout@[x + y * self.stride()])
        } else {
            None
        }
    }

    /// A world from its parsed parts; a layout that is not whole rows of a
    /// positive stride is malformed.
    pub fn new(identifier: String, structure: WorldStructure, spritesheet: image::DynamicImage) -> (r:
        Result<World, LoadError>)
        ensures
            r.is_ok() <==> structure.well_formed(),
            r.is_err() ==> r == Err::<World, LoadError>(LoadError::Malformed),
            r matches Ok(w) ==> w.well_formed() && w.name() == identifier@ && *w.structure()
                == structure,
    {
        let n = structure.layout.len();
        if structure.layout_stride == 0 || n % (structure.layout_stride as usize) != 0 || n
            > 0x1000_0000 - 4 {
            return Err(LoadError::Malformed);
        }
        Ok(World { identifier, structure, spritesheet })
    }

    pub fn identifier(&self) -> (r: &String)
        ensures
            r@ == self.name(),
    {
        &self.identifier
    }

    /// The initial sprite population.
    pub fn sprites(&self) -> (r: &Vec<Sprite>)
        ensures
            r@ == self.structure().sprites@,
    {
        &self.structure.sprites
    }

    /// The tile at column `x`, row `y`; `None` outside the grid.
    pub fn at(&self, x: u32, y: u32) -> (r: Option<u32>)
        requires
            self.well_formed(),
        ensures
            r == self.tile(x as int, y as int),
    {
        let stride = self.structure.layout_stride;
        let n = self.structure.layout.len();
        let rows = n / (stride as usize);
        if x >= stride || (y as usize) >= rows {
            return None;
        }
        assert(x + y * stride < n) by (nonlinear_arith)
            requires
                x < stride,
                y < rows,
                rows as int == (n as int) / (stride as int),
                stride > 0,
        ;
        let i = x as usize + (y as usize) * (stride as usize);
        Some(self.structure.layout[i])
    }

    /// The texture atlas and the width of one tile in it.
    pub fn sampler_data(&self) -> (r: (&image::DynamicImage, u32))
        ensures
            r.1 == self.structure().layout_tile_width,
    {
        (&self.spritesheet, self.structure.layout_tile_width)
    }

    /// The map layout as the buffer bound to its slot.
    pub fn map_buffer(&self) -> (r: StorageBuffer)
        requires
            self.well_formed(),
        ensures
            r.slot() == MAP_SLOT,
            r.capacity() == 4 * gpu_words(self.structure()).len(),
            forall|k: int|
                0 <= k < gpu_words(self.structure()).len() ==> #[trigger] word_at(r@, 4 * k)
                    == gpu_words(self.structure())[k],
    {
        let words = self.structure.as_vec_for_gpu();
        StorageBuffer::from_words(MAP_SLOT, &words)
    }
}

} // verus!
