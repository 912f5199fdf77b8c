use vstd::prelude::*;

use crate::buffer::{le_byte, word_at, dword_at, lemma_word_round_trip, BoundsError, StorageBuffer};
use crate::vector::{dist_sq, Vector2};
use crate::world::World;
use vstd::set_lib::{lemma_int_range, lemma_len_subset, lemma_subset_equality, set_int_range};

verus! {

/// Slot of the sprite state array.
pub const SPRITE_SLOT: u32 = 8;

/// Slot of the sprite preprocessing results.
pub const PREPROCESS_SLOT: u32 = 9;

/// Bytes of one `Sprite` on the device: x, y, texture index.
pub const SPRITE_SIZE: usize = 12;

/// Bytes of one `SpritePreprocessResult` on the device: seven `i32`, four
/// bytes of padding, then the eight bytes of `transform_y`.
pub const RESULT_SIZE: usize = 40;

/// Most sprites a registry holds.
pub const MAX_SPRITES: usize = 0x100_0000;

/// A billboard: where it stands and which texture it shows.
#[derive(Debug, Clone, Copy, PartialEq, Eq, Structural)]
pub struct Sprite {
    pub position: Vector2,
    pub texture_idx: u32,
}

impl Sprite {
    pub fn new(position: Vector2, texture_idx: u32) -> (r: Sprite)
        ensures
            r.position == position,
            r.texture_idx == texture_idx,
    {
        Sprite { position, texture_idx }
    }
}

/// Screen-space projection of one sprite, as the preprocessing pass leaves it.
/// `transform_y_bits` is the bit pattern of the device's double.
#[derive(Debug, Clone, Copy, PartialEq, Eq, Structural)]
pub struct SpritePreprocessResult {
    pub sprite_width: i32,
    pub sprite_height: i32,
    pub draw_start_y: i32,
    pub draw_end_y: i32,
    pub draw_start_x: i32,
    pub draw_end_x: i32,
    pub sprite_screen_x: i32,
    pub transform_y_bits: u64,
}

/// Byte `k` of the device image of `s`.
pub open spec fn sprite_byte(s: Sprite, k: int) -> u8 {
    if k < 4 {
        le_byte(s.position.x as u32, k)
    } else if k < 8 {
        le_byte(s.position.y as u32, k - 4)
    } else {
        le_byte(s.texture_idx, k - 8)
    }
}

/// `b` with the device image of `s` written at `off`.
pub open spec fn with_sprite(b: Seq<u8>, s: Sprite, off: int) -> Seq<u8> {
    Seq::new(
        b.len(),
        |p: int|
            if off <= p < off + SPRITE_SIZE {
                sprite_byte(s, p - off)
            } else {
                b[p]
            },
    )
}

/// The sprite whose device image starts at `off` in `b`.
pub open spec fn sprite_at(b: Seq<u8>, off: int) -> Sprite {
    Sprite {
        position: Vector2 { x: word_at(b, off) as i32, y: word_at(b, off + 4) as i32 },
        texture_idx: word_at(b, off + 8),
    }
}

/// The preprocessing result whose device image starts at `off` in `b`.
pub open spec fn result_at(b: Seq<u8>, off: int) -> SpritePreprocessResult {
    SpritePreprocessResult {
        sprite_width: word_at(b, off) as i32,
        sprite_height: word_at(b, off + 4) as i32,
        draw_start_y: word_at(b, off + 8) as i32,
        draw_end_y: word_at(b, off + 12) as i32,
        draw_start_x: word_at(b, off + 16) as i32,
        draw_end_x: word_at(b, off + 20) as i32,
        sprite_screen_x: word_at(b, off + 24) as i32,
        transform_y_bits: dword_at(b, off + 32),
    }
}

/// A sprite written at an offset reads back unchanged from that offset.
pub proof fn lemma_sprite_round_trip(b: Seq<u8>, s: Sprite, off: int)
    requires
        0 <= off,
        off + SPRITE_SIZE <= b.len(),
    ensures
        sprite_at(with_sprite(b, s, off), off) == s,
{
    let w = with_sprite(b, s, off);
    let x = s.position.x;
    let y = s.position.y;
    lemma_word_round_trip(x as u32);
    lemma_word_round_trip(y as u32);
    lemma_word_round_trip(s.texture_idx);
    assert(word_at(w, off) == x as u32);
    assert(word_at(w, off + 4) == y as u32);
    assert(word_at(w, off + 8) == s.texture_idx);
    assert((x as u32) as i32 == x) by (bit_vector);
    assert((y as u32) as i32 == y) by (bit_vector);
}

/// Writes the device image of `s` at byte `off` of `buf`; fails when it does
/// not fit.
pub fn write_sprite(buf: &mut StorageBuffer, s: &Sprite, off: usize) -> (r: Result<(), BoundsError>)
    ensures
        final(buf).slot() == old(buf).slot(),
        r.is_ok() <==> off + SPRITE_SIZE <= old(buf).capacity(),
        r.is_ok() ==> final(buf)@ == with_sprite(old(buf)@, *s, off as int),
        r.is_err() ==> final(buf)@ == old(buf)@,
{
    let n = buf.byte_capacity();
    if off > n || n - off < SPRITE_SIZE {
        return Err(BoundsError { offset: off, len: SPRITE_SIZE, capacity: n });
    }
    let ghost before = buf@;
    buf.put_word(off, s.position.x as u32);
    buf.put_word(off + 4, s.position.y as u32);
    buf.put_word(off + 8, s.texture_idx);
    assert(buf@ =~= with_sprite(before, *s, off as int));
    Ok(())
}

/// Reads the sprite whose device image starts at byte `off` of `buf`; fails
/// when it does not fit.
pub fn read_sprite(buf: &StorageBuffer, off: usize) -> (r: Result<Sprite, BoundsError>)
    ensures
        r.is_ok() <==> off + SPRITE_SIZE <= buf.capacity(),
        r.is_ok() ==> r == Ok::<Sprite, BoundsError>(sprite_at(buf@, off as int)),
{
    let n = buf.byte_capacity();
    if off > n || n - off < SPRITE_SIZE {
        return Err(BoundsError { offset: off, len: SPRITE_SIZE, capacity: n });
    }
    let x = buf.get_word(off) as i32;
    let y = buf.get_word(off + 4) as i32;
    let t = buf.get_word(off + 8);
    Ok(Sprite { position: Vector2 { x, y }, texture_idx: t })
}

/// Reads the preprocessing result whose device image starts at byte `off`
/// of `buf`; fails when it does not fit.
pub fn read_result(buf: &StorageBuffer, off: usize) -> (r: Result<SpritePreprocessResult, BoundsError>)
    ensures
        r.is_ok() <==> off + RESULT_SIZE <= buf.capacity(),
        r.is_ok() ==> r == Ok::<SpritePreprocessResult, BoundsError>(result_at(buf@, off as int)),
{
    let n = buf.byte_capacity();
    if off > n || n - off < RESULT_SIZE {
        return Err(BoundsError { offset: off, len: RESULT_SIZE, capacity: n });
    }
    Ok(SpritePreprocessResult {
        sprite_width: buf.get_word(off) as i32,
        sprite_height: buf.get_word(off + 4) as i32,
        draw_start_y: buf.get_word(off + 8) as i32,
        draw_end_y: buf.get_word(off + 12) as i32,
        draw_start_x: buf.get_word(off + 16) as i32,
        draw_end_x: buf.get_word(off + 20) as i32,
        sprite_screen_x: buf.get_word(off + 24) as i32,
        transform_y_bits: buf.get_dword(off + 32),
    })
}


/// `s` lists each of `0..n` exactly once.
pub open spec fn is_index_permutation(s: Seq<usize>, n: nat) -> bool {
    &&& s.len() == n
    &&& forall|i: int| 0 <= i < n ==> #[trigger] s[i] < n
    &&& forall|i: int, j: int| 0 <= i < j < n ==> s[i] != s[j]
}

/// Farthest from `p` first: the squared distance never grows along `v`.
pub open spec fn sorted_far_first(v: Seq<Sprite>, p: Vector2) -> bool {
    forall|a: int, b: int|
        0 <= a < b < v.len() ==> dist_sq(v[a].position, p) >= dist_sq(v[b].position, p)
}

/// Capacity after an insertion that brings a registry of capacity `cap` to
/// `count` sprites: it doubles when the count reaches it.
pub open spec fn grown_capacity(cap: nat, count: nat) -> nat {
    if count >= cap {
        2 * cap
    } else {
        cap
    }
}

/// An insertion into a registry of `count` sprites and capacity `cap` keeps
/// the count within the capacity; the capacity never shrinks, and it doubles
/// exactly when the new count reaches the prior capacity.
pub proof fn lemma_capacity_growth(cap: nat, count: nat)
    requires
        1 <= cap,
        count <= cap,
    ensures
        count + 1 <= grown_capacity(cap, count + 1),
        cap <= grown_capacity(cap, count + 1),
        grown_capacity(cap, count + 1) == cap || grown_capacity(cap, count + 1) == 2 * cap,
        grown_capacity(cap, count + 1) == 2 * cap <==> count + 1 >= cap,
{
}

/// Writing a sprite leaves the image of another, disjoint one unchanged.
proof fn lemma_sprite_at_disjoint(b: Seq<u8>, s: Sprite, off: int, other: int)
    requires
        0 <= off,
        off + SPRITE_SIZE <= b.len(),
        0 <= other,
        other + SPRITE_SIZE <= b.len(),
        other + SPRITE_SIZE <= off || off + SPRITE_SIZE <= other,
    ensures
        sprite_at(with_sprite(b, s, off), other) == sprite_at(b, other),
{
    let w = with_sprite(b, s, off);
    assert forall|p: int| other <= p < other + SPRITE_SIZE implies w[p] == b[p] by {}
    assert(word_at(w, other) == word_at(b, other));
    assert(word_at(w, other + 4) == word_at(b, other + 4));
    assert(word_at(w, other + 8) == word_at(b, other + 8));
}

/// Every index below `n` occurs in a permutation of `0..n`.
proof fn lemma_permutation_hits(s: Seq<usize>, n: nat, v: int)
    requires
        is_index_permutation(s, n),
        0 <= v < n,
    ensures
        exists|i: int| 0 <= i < n && s[i] == v,
{
    let t = Seq::new(n, |i: int| s[i] as int);
    assert(t.no_duplicates()) by {
        assert forall|i: int, j: int| 0 <= i < t.len() && 0 <= j < t.len() && i != j implies t[i]
            != t[j] by {
            if i < j {
                assert(s[i] != s[j]);
            } else {
                assert(s[j] != s[i]);
            }
        }
    }
    t.unique_seq_to_set();
    lemma_int_range(0, n as int);
    assert(t.to_set().subset_of(set_int_range(0, n as int))) by {
        assert forall|x: int| t.to_set().contains(x) implies set_int_range(0, n as int).contains(x) by {
            let i = choose|i: int| 0 <= i < t.len() && t[i] == x;
            assert(s[i] < n);
        }
    }
    lemma_len_subset(t.to_set(), set_int_range(0, n as int));
    lemma_subset_equality(t.to_set(), set_int_range(0, n as int));
    assert(set_int_range(0, n as int).contains(v));
    assert(t.to_set().contains(v));
    let i = choose|i: int| 0 <= i < t.len() && t[i] == v;
    assert(s[i] == v);
}

/// A stable reference to a sprite of a registry: it survives re-sorting.
#[derive(Debug, Clone, Copy, PartialEq, Eq, Structural)]
pub struct SpriteHandle {
    pub id: usize,
}

/// The sprite registry: the sprites by handle, their draw order, and the
/// device images of the sprite array and of the preprocessing results.
pub struct Sprites {
    gpu_capacity: usize,
    arena: Vec<Sprite>,
    order: Vec<usize>,
    sprites_ssbo: StorageBuffer,
    preprocess_ssbo: StorageBuffer,
}

impl View for Sprites {
    type V = Seq<Sprite>;

    /// The sprites in draw order.
    closed spec fn view(&self) -> Seq<Sprite> {
        Seq::new(self.order@.len(), |k: int| self.arena@[self.order@[k] as int])
    }
}

impl Sprites {
    /// Sprites the device buffers have room for.
    pub closed spec fn capacity(&self) -> nat {
        self.gpu_capacity as nat
    }

    /// The sprites indexed by handle.
    pub closed spec fn by_handle(&self) -> Seq<Sprite> {
        self.arena@
    }

    /// The handle of each position of the draw order.
    pub closed spec fn draw_order(&self) -> Seq<usize> {
        self.order@
    }

    /// Host image of the sprite array buffer.
    pub closed spec fn sprite_image(&self) -> Seq<u8> {
        self.sprites_ssbo@
    }

    /// Host image of the preprocessing results buffer.
    pub closed spec fn result_image(&self) -> Seq<u8> {
        self.preprocess_ssbo@
    }

    pub closed spec fn wf(&self) -> bool {
        &&& is_index_permutation(self.order@, self.arena@.len())
        &&& self.arena@.len() <= MAX_SPRITES
        &&& 1 <= self.gpu_capacity <= 2 * MAX_SPRITES
        &&& self.arena@.len() <= self.gpu_capacity
        &&& self.sprites_ssbo.slot() == SPRITE_SLOT
        &&& self.sprites_ssbo.capacity() == self.gpu_capacity * SPRITE_SIZE
        &&& self.preprocess_ssbo.slot() == PREPROCESS_SLOT
        &&& self.preprocess_ssbo.capacity() == self.gpu_capacity * RESULT_SIZE
    }

    /// The sprite array buffer holds the sprites in draw order.
    pub open spec fn mirrored(&self) -> bool {
        forall|k: int|
            0 <= k < self@.len() ==> #[trigger] sprite_at(self.sprite_image(), k * SPRITE_SIZE)
                == self@[k]
    }

    /// What holds after every re-sort for the viewer at `viewer`.
    pub open spec fn synced(&self, viewer: Vector2) -> bool {
        &&& self.wf()
        &&& self@.len() == self.by_handle().len()
        &&& is_index_permutation(self.draw_order(), self.by_handle().len())
        &&& forall|k: int|
            0 <= k < self@.len() ==> #[trigger] self@[k] == self.by_handle()[self.draw_order()[k]
                as int]
        &&& sorted_far_first(self@, viewer)
        &&& self.mirrored()
        &&& self@.len() <= self.capacity()
    }

    /// Sorts the draw order by descending squared distance to `viewer`.
    fn sort(&mut self, viewer: &Vector2)
        requires
            old(self).wf(),
        ensures
            final(self).wf(),
            final(self).arena == old(self).arena,
            final(self).gpu_capacity == old(self).gpu_capacity,
            final(self).sprites_ssbo == old(self).sprites_ssbo,
            final(self).preprocess_ssbo == old(self).preprocess_ssbo,
            sorted_far_first(final(self)@, *viewer),
    {
        let n = self.order.len();
        let ghost arena = self.arena@;
        let mut keys: Vec<i128> = Vec::new();
        let mut i: usize = 0;
        while i < n
            invariant
                self.wf(),
                n == self.order@.len(),
                self.arena@ == arena,
                i <= n,
                keys@.len() == i,
                forall|k: int|
                    0 <= k < i ==> #[trigger] keys@[k] == dist_sq(
                        arena[self.order@[k] as int].position,
                        *viewer,
                    ),
            decreases n - i,
        {
            let h = self.order[i];
            keys.push(self.arena[h].position.dist_sq(viewer));
            i = i + 1;
        }
        let mut i: usize = 0;
        while i < n
            invariant
                self.arena == old(self).arena,
                self.gpu_capacity == old(self).gpu_capacity,
                self.sprites_ssbo == old(self).sprites_ssbo,
                self.preprocess_ssbo == old(self).preprocess_ssbo,
                self.arena@ == arena,
                old(self).wf(),
                is_index_permutation(self.order@, arena.len()),
                n == self.order@.len(),
                i <= n,
                keys@.len() == n,
                forall|k: int|
                    0 <= k < n ==> #[trigger] keys@[k] == dist_sq(
                        arena[self.order@[k] as int].position,
                        *viewer,
                    ),
                forall|a: int, b: int| 0 <= a < b < i ==> keys@[a] >= keys@[b],
            decreases n - i,
        {
            let mut j: usize = i;
            while j > 0 && keys[j - 1] < keys[j]
                invariant
                    self.arena == old(self).arena,
                    self.gpu_capacity == old(self).gpu_capacity,
                    self.sprites_ssbo == old(self).sprites_ssbo,
                    self.preprocess_ssbo == old(self).preprocess_ssbo,
                    self.arena@ == arena,
                    is_index_permutation(self.order@, arena.len()),
                    n == self.order@.len(),
                    j <= i < n,
                    keys@.len() == n,
                    forall|k: int|
                        0 <= k < n ==> #[trigger] keys@[k] == dist_sq(
                            arena[self.order@[k] as int].position,
                            *viewer,
                        ),
                    forall|a: int, b: int|
                        0 <= a < b <= i && a != j && b != j ==> keys@[a] >= keys@[b],
                    forall|b: int| j < b <= i ==> keys@[j as int] >= keys@[b],
                decreases j,
            {
                let kt = keys[j - 1];
                let kj = keys[j];
                keys.set(j - 1, kj);
                keys.set(j, kt);
                let ht = self.order[j - 1];
                let hj = self.order[j];
                self.order.set(j - 1, hj);
                self.order.set(j, ht);
                j = j - 1;
            }
            assert forall|a: int, b: int| 0 <= a < b <= i implies keys@[a] >= keys@[b] by {
                if b == j && a < j {
                    if a < j - 1 {
                        assert(keys@[a] >= keys@[j - 1]);
                    }
                }
            }
            i = i + 1;
        }
        assert forall|a: int, b: int| 0 <= a < b < self@.len() implies dist_sq(
            self@[a].position,
            *viewer,
        ) >= dist_sq(self@[b].position, *viewer) by {
            assert(keys@[a] >= keys@[b]);
        }
    }

    /// Re-sorts the sprites farthest first from `viewer` and rewrites the
    /// sprite array buffer in that order.
    pub fn update(&mut self, viewer: &Vector2)
        requires
            old(self).wf(),
        ensures
            final(self).synced(*viewer),
            final(self).by_handle() == old(self).by_handle(),
            final(self).capacity() == old(self).capacity(),
            final(self).result_image() == old(self).result_image(),
    {
        self.sort(viewer);
        let n = self.order.len();
        let mut k: usize = 0;
        while k < n
            invariant
                self.wf(),
                self.arena == old(self).arena,
                self.gpu_capacity == old(self).gpu_capacity,
                self.preprocess_ssbo == old(self).preprocess_ssbo,
                sorted_far_first(self@, *viewer),
                n == self.order@.len(),
                k <= n,
                forall|m: int|
                    0 <= m < k ==> #[trigger] sprite_at(self.sprites_ssbo@, m * SPRITE_SIZE)
                        == self@[m],
            decreases n - k,
        {
            let s = self.arena[self.order[k]];
            let ghost before = self.sprites_ssbo@;
            let _ = write_sprite(&mut self.sprites_ssbo, &s, k * SPRITE_SIZE);
            proof {
                lemma_sprite_round_trip(before, s, k * SPRITE_SIZE);
                assert forall|m: int| 0 <= m < k + 1 implies #[trigger] sprite_at(
                    self.sprites_ssbo@,
                    m * SPRITE_SIZE,
                ) == self@[m] by {
                    if m < k {
                        lemma_sprite_at_disjoint(before, s, k * SPRITE_SIZE, m * SPRITE_SIZE);
                    }
                }
            }
            k = k + 1;
        }
    }

    /// A registry seeded with the world's spawns, sized to them (at least one
    /// slot), and sorted for `viewer`.
    pub fn new(world: &World, viewer: &Vector2) -> (r: Sprites)
        requires
            world.structure().sprites@.len() <= MAX_SPRITES,
        ensures
            r.synced(*viewer),
            r.by_handle() == world.structure().sprites@,
            r.capacity() == if world.structure().sprites@.len() == 0 {
                1
            } else {
                world.structure().sprites@.len()
            },
    {
        let spawns = world.sprites();
        let n = spawns.len();
        let mut arena: Vec<Sprite> = Vec::new();
        let mut order: Vec<usize> = Vec::new();
        let mut i: usize = 0;
        while i < n
            invariant
                n == spawns@.len(),
                i <= n,
                arena@ == spawns@.subrange(0, i as int),
                order@.len() == i,
                forall|k: int| 0 <= k < i ==> #[trigger] order@[k] == k,
            decreases n - i,
        {
            arena.push(spawns[i]);
            order.push(i);
            i = i + 1;
            assert(arena@ =~= spawns@.subrange(0, i as int));
        }
        assert(arena@ =~= spawns@);
        let cap: usize = if n == 0 {
            1
        } else {
            n
        };
        let mut r = Sprites {
            gpu_capacity: cap,
            arena,
            order,
            sprites_ssbo: StorageBuffer::empty(SPRITE_SLOT, cap * SPRITE_SIZE),
            preprocess_ssbo: StorageBuffer::empty(PREPROCESS_SLOT, cap * RESULT_SIZE),
        };
        r.update(viewer);
        r
    }

    /// Appends `sprite`. When the count reaches the capacity, the capacity
    /// doubles and both device buffers are replaced by new ones of the new
    /// size. Then re-sorts for `viewer`.
    pub fn add(&mut self, sprite: Sprite, viewer: &Vector2) -> (r: SpriteHandle)
        requires
            old(self).wf(),
            old(self).by_handle().len() < MAX_SPRITES,
        ensures
            final(self).synced(*viewer),
            r.id == old(self).by_handle().len(),
            final(self).by_handle() == old(self).by_handle().push(sprite),
            final(self).capacity() == grown_capacity(
                old(self).capacity(),
                old(self).by_handle().len() + 1,
            ),
            final(self).capacity() != old(self).capacity() ==> final(self).result_image() == Seq::new(
                (final(self).capacity() * RESULT_SIZE) as nat,
                |i: int| 0u8,
            ),
            final(self).capacity() == old(self).capacity() ==> final(self).result_image() == old(
                self,
            ).result_image(),
    {
        let id = self.arena.len();
        self.arena.push(sprite);
        self.order.push(id);
        if self.arena.len() >= self.gpu_capacity {
            self.gpu_capacity = self.gpu_capacity * 2;
            self.sprites_ssbo = StorageBuffer::empty(SPRITE_SLOT, self.gpu_capacity * SPRITE_SIZE);
            self.preprocess_ssbo = StorageBuffer::empty(
                PREPROCESS_SLOT,
                self.gpu_capacity * RESULT_SIZE,
            );
        }
        self.update(viewer);
        SpriteHandle { id }
    }

    /// The preprocessing result of the sprite at draw position `index`;
    /// fails when there is no such sprite.
    pub fn preprocess_result(&self, index: u32) -> (r: Result<SpritePreprocessResult, BoundsError>)
        requires
            self.wf(),
        ensures
            r.is_ok() <==> index < self@.len(),
            r.is_ok() ==> r == Ok::<SpritePreprocessResult, BoundsError>(
                result_at(self.result_image(), index * RESULT_SIZE),
            ),
    {
        let n = self.order.len();
        if index as usize >= n {
            return Err(
                BoundsError { offset: index as usize, len: 1, capacity: n },
            );
        }
        read_result(&self.preprocess_ssbo, index as usize * RESULT_SIZE)
    }

    /// The sprite at draw position `index`; `None` past the end.
    pub fn at(&self, index: usize) -> (r: Option<Sprite>)
        requires
            self.wf(),
        ensures
            r == if index < self@.len() {
                Some(self@[index as int])
            } else {
                None::<Sprite>
            },
    {
        if index < self.order.len() {
            Some(self.arena[self.order[index]])
        } else {
            None
        }
    }

    /// Number of sprites.
    pub fn len(&self) -> (r: usize)
        requires
            self.wf(),
        ensures
            r == self@.len(),
            r == self.by_handle().len(),
    {
        self.order.len()
    }

    /// Number of sprites the device buffers have room for.
    pub fn gpu_capacity(&self) -> (r: usize)
        ensures
            r == self.capacity(),
    {
        self.gpu_capacity
    }

    /// The sprite array buffer, to upload.
    pub fn sprite_buffer(&self) -> (r: &StorageBuffer)
        requires
            self.wf(),
        ensures
            r@ == self.sprite_image(),
            r.slot() == SPRITE_SLOT,
            r.capacity() == self.capacity() * SPRITE_SIZE,
    {
        &self.sprites_ssbo
    }

    /// The preprocessing results buffer, to allocate on the device.
    pub fn preprocess_buffer(&self) -> (r: &StorageBuffer)
        requires
            self.wf(),
        ensures
            r@ == self.result_image(),
            r.slot() == PREPROCESS_SLOT,
            r.capacity() == self.capacity() * RESULT_SIZE,
    {
        &self.preprocess_ssbo
    }

    /// Takes in the preprocessing results read back from the device, from
    /// the start of the buffer; fails when they do not fit.
    pub fn store_results(&mut self, data: &Vec<u8>) -> (r: Result<(), BoundsError>)
        requires
            old(self).wf(),
        ensures
            final(self).wf(),
            final(self)@ == old(self)@,
            final(self).by_handle() == old(self).by_handle(),
            final(self).draw_order() == old(self).draw_order(),
            final(self).capacity() == old(self).capacity(),
            final(self).sprite_image() == old(self).sprite_image(),
            r.is_ok() <==> data@.len() <= old(self).result_image().len(),
            r.is_ok() ==> final(self).result_image() == data@ + old(self).result_image().subrange(
                data@.len() as int,
                old(self).result_image().len() as int,
            ),
            r.is_err() ==> final(self).result_image() == old(self).result_image(),
    {
        let ghost before = self.preprocess_ssbo@;
        let r = self.preprocess_ssbo.store(0, data);
        proof {
            if r.is_ok() {
                assert(self.preprocess_ssbo@ =~= data@ + before.subrange(
                    data@.len() as int,
                    before.len() as int,
                ));
            }
        }
        r
    }

    /// The sprite behind `h`, wherever the sort has moved it.
    pub fn get(&self, h: SpriteHandle) -> (r: Option<Sprite>)
        ensures
            r == if h.id < self.by_handle().len() {
                Some(self.by_handle()[h.id as int])
            } else {
                None::<Sprite>
            },
    {
        if h.id < self.arena.len() {
            Some(self.arena[h.id])
        } else {
            None
        }
    }

    /// The current draw position of the sprite behind `h`.
    pub fn position_of(&self, h: SpriteHandle) -> (r: Option<usize>)
        requires
            self.wf(),
        ensures
            r matches Some(p) ==> p < self.draw_order().len() && self.draw_order()[p as int]
                == h.id,
            r is None <==> h.id >= self.by_handle().len(),
    {
        let n = self.order.len();
        let mut k: usize = 0;
        while k < n
            invariant
                self.wf(),
                n == self.order@.len(),
                k <= n,
                forall|m: int| 0 <= m < k ==> self.order@[m] != h.id,
            decreases n - k,
        {
            if self.order[k] == h.id {
                return Some(k);
            }
            k = k + 1;
        }
        proof {
            if h.id < n {
                lemma_permutation_hits(self.order@, n as nat, h.id as int);
            }
        }
        None
    }

    /// Moves the sprite behind `h` to `position`; the draw order and the
    /// device image catch up at the next `update`. Fails for a handle of
    /// another registry.
    pub fn set_position(&mut self, h: SpriteHandle, position: Vector2) -> (r: Result<(), BoundsError>)
        requires
            old(self).wf(),
        ensures
            final(self).wf(),
            r.is_ok() <==> h.id < old(self).by_handle().len(),
            r.is_ok() ==> final(self).by_handle() == old(self).by_handle().update(
                h.id as int,
                Sprite { position, texture_idx: old(self).by_handle()[h.id as int].texture_idx },
            ),
            r.is_err() ==> final(self).by_handle() == old(self).by_handle(),
            final(self).draw_order() == old(self).draw_order(),
            final(self).capacity() == old(self).capacity(),
    {
        let n = self.arena.len();
        if h.id >= n {
            return Err(BoundsError { offset: h.id, len: 1, capacity: n });
        }
        let t = self.arena[h.id].texture_idx;
        self.arena.set(h.id, Sprite { position, texture_idx: t });
        Ok(())
    }
}

} // verus!
