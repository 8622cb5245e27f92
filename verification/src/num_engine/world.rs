//! The bookkeeping of a world of entities: which slots of the pool are
//! taken, and whether the hitboxes of entities meet each other, a box or a
//! tile layer.

use vstd::prelude::*;

use crate::num_engine::hitbox::{in_i16, Hitbox};
use crate::num_engine::tilemap::Tilemap;
use crate::num_engine::viewport::in_i32;

verus! {

broadcast use vstd::array::group_array_axioms;

/// The slots of a pool of `CAP` entities: which are taken, and how many
/// slots from the first one hold every taken slot.
pub struct SlotPool<const CAP: usize> {
    pub allocated: [bool; CAP],
    pub active_ent_count: usize,
}

/// Whether slot `i` of `a` is taken.
pub open spec fn taken<const CAP: usize>(a: [bool; CAP], i: int) -> bool {
    a@[i]
}

impl<const CAP: usize> SlotPool<CAP> {
    /// Every taken slot lies below the count.
    pub open spec fn wf(&self) -> bool {
        &&& self.active_ent_count <= CAP
        &&& forall|i: int| self.active_ent_count <= i < CAP ==> !#[trigger] taken(self.allocated, i)
    }

    /// A pool with every slot free.
    pub fn new() -> (p: Self)
        ensures
            p.wf(),
            p.active_ent_count == 0,
            forall|i: int| 0 <= i < CAP ==> !#[trigger] taken(p.allocated, i),
    {
        Self { allocated: [false; CAP], active_ent_count: 0 }
    }

    /// Takes the first free slot and returns it, `None` when every slot is
    /// taken; the count grows to cover it.
    pub fn spawn(&mut self) -> (r: Option<usize>)
        requires
            old(self).wf(),
        ensures
            final(self).wf(),
            r is None <==> forall|i: int| 0 <= i < CAP ==> #[trigger] taken(old(self).allocated, i),
            r is None ==> *final(self) == *old(self),
            r matches Some(i) ==> {
                &&& i < CAP
                &&& !taken(old(self).allocated, i as int)
                &&& forall|j: int| 0 <= j < i ==> #[trigger] taken(old(self).allocated, j)
                &&& final(self).allocated@ == old(self).allocated@.update(i as int, true)
                &&& final(self).active_ent_count == (if i >= old(self).active_ent_count { i + 1 } else { old(self).active_ent_count as int })
            },
    {
        let mut i: usize = 0;
        while i < CAP
            invariant
                i <= CAP,
                old(self).wf(),
                *self == *old(self),
                forall|j: int| 0 <= j < i ==> #[trigger] taken(self.allocated, j),
            decreases CAP - i,
        {
            if !self.allocated[i] {
                assert(!taken(old(self).allocated, i as int));
                self.allocated[i] = true;
                if i >= self.active_ent_count {
                    self.active_ent_count = i + 1;
                }
                assert(forall|j: int| 0 <= j < CAP && j != i ==> #[trigger] taken(self.allocated, j) == taken(old(self).allocated, j));
                return Some(i);
            }
            i += 1;
        }
        None
    }

    /// Frees slot `id` (when it lies below the count); freeing the last
    /// counted slot shrinks the count past every free slot at its end.
    pub fn despawn(&mut self, id: usize)
        requires
            old(self).wf(),
        ensures
            final(self).wf(),
            id >= old(self).active_ent_count ==> *final(self) == *old(self),
            id < old(self).active_ent_count ==> {
                &&& final(self).allocated@ == old(self).allocated@.update(id as int, false)
                &&& id + 1 != old(self).active_ent_count ==> final(self).active_ent_count == old(self).active_ent_count
                &&& id + 1 == old(self).active_ent_count ==> {
                    &&& final(self).active_ent_count <= id
                    &&& final(self).active_ent_count == 0 || taken(final(self).allocated, final(self).active_ent_count - 1)
                }
            },
    {
        if id < self.active_ent_count {
            self.allocated[id] = false;
            assert(forall|j: int| 0 <= j < CAP && j != id ==> #[trigger] taken(self.allocated, j) == taken(old(self).allocated, j));
            assert(!taken(self.allocated, id as int));
            if id + 1 == self.active_ent_count {
                while self.active_ent_count > 0 && !self.allocated[self.active_ent_count - 1]
                    invariant
                        self.active_ent_count <= id + 1,
                        self.allocated@ == old(self).allocated@.update(id as int, false),
                        forall|i: int| self.active_ent_count <= i < CAP ==> !#[trigger] taken(self.allocated, i),
                        id < CAP,
                    decreases self.active_ent_count,
                {
                    self.active_ent_count -= 1;
                }
                assert(!taken(self.allocated, id as int));
            }
        }
    }

    /// Whether slot `id` is counted and taken.
    pub fn is_taken(&self, id: usize) -> (b: bool)
        ensures
            b == (id < self.active_ent_count && id < CAP && taken(self.allocated, id as int)),
    {
        id < self.active_ent_count && id < CAP && self.allocated[id]
    }
}

/// Spawning fills the first free slot, and despawning it again frees it;
/// at every step each taken slot lies below the count.
pub proof fn lemma_spawn_then_despawn<const CAP: usize>(p0: SlotPool<CAP>, p1: SlotPool<CAP>, p2: SlotPool<CAP>, i: usize)
    requires
        p0.wf(),
        p1.wf(),
        p2.wf(),
        i < CAP,
        !taken(p0.allocated, i as int),
        p1.allocated@ == p0.allocated@.update(i as int, true),
        i < p1.active_ent_count,
        p2.allocated@ == p1.allocated@.update(i as int, false),
    ensures
        p2.allocated@ == p0.allocated@,
{
    assert(p2.allocated@ =~= p0.allocated@);
}

/// The edges of a hitbox placed at `pos` fit `i16`.
pub fn box_fits(h: &Hitbox, pos: [i16; 2]) -> (b: bool)
    ensures
        b == h.fits(pos),
{
    let x0: i32 = pos[0] as i32 + h.offset_x as i32;
    let y0: i32 = pos[1] as i32 + h.offset_y as i32;
    let x1: i32 = x0 + (h.width as i16) as i32;
    let y1: i32 = y0 + (h.height as i16) as i32;
    -0x8000 <= x0 && x0 <= 0x7fff && -0x8000 <= y0 && y0 <= 0x7fff && -0x8000 <= x1 && x1 <= 0x7fff && -0x8000 <= y1 && y1 <= 0x7fff
}

/// Whether some hitbox of `a` at `pos_a` meets some hitbox of `b` at
/// `pos_b`; `None` when a box's edges leave `i16`.
pub fn hitboxes_collide(a: &[Hitbox], pos_a: [i16; 2], b: &[Hitbox], pos_b: [i16; 2]) -> (r: Option<bool>)
    ensures
        r is None <==> (exists|i: int| 0 <= i < a@.len() && !(#[trigger] a@[i]).fits(pos_a)) || (exists|j: int|
            0 <= j < b@.len() && !(#[trigger] b@[j]).fits(pos_b)),
        r == Some(true) <==> (forall|i: int| 0 <= i < a@.len() ==> (#[trigger] a@[i]).fits(pos_a)) && (forall|j: int|
            0 <= j < b@.len() ==> (#[trigger] b@[j]).fits(pos_b)) && exists|i: int, j: int|
            0 <= i < a@.len() && 0 <= j < b@.len() && #[trigger] a@[i].spec_intersects(pos_a, #[trigger] b@[j], pos_b),
{
    let mut i: usize = 0;
    while i < a.len()
        invariant
            i <= a@.len(),
            forall|k: int| 0 <= k < i ==> (#[trigger] a@[k]).fits(pos_a),
        decreases a@.len() - i,
    {
        if !box_fits(&a[i], pos_a) {
            return None;
        }
        i += 1;
    }
    let mut j: usize = 0;
    while j < b.len()
        invariant
            j <= b@.len(),
            forall|k: int| 0 <= k < j ==> (#[trigger] b@[k]).fits(pos_b),
        decreases b@.len() - j,
    {
        if !box_fits(&b[j], pos_b) {
            return None;
        }
        j += 1;
    }
    let mut i: usize = 0;
    while i < a.len()
        invariant
            i <= a@.len(),
            forall|k: int| 0 <= k < a@.len() ==> (#[trigger] a@[k]).fits(pos_a),
            forall|k: int| 0 <= k < b@.len() ==> (#[trigger] b@[k]).fits(pos_b),
            forall|k: int, l: int| 0 <= k < i && 0 <= l < b@.len() ==> !#[trigger] a@[k].spec_intersects(pos_a, #[trigger] b@[l], pos_b),
        decreases a@.len() - i,
    {
        let mut j: usize = 0;
        while j < b.len()
            invariant
                i < a@.len(),
                j <= b@.len(),
                forall|k: int| 0 <= k < a@.len() ==> (#[trigger] a@[k]).fits(pos_a),
                forall|k: int| 0 <= k < b@.len() ==> (#[trigger] b@[k]).fits(pos_b),
                forall|k: int, l: int|
                    (0 <= k < i && 0 <= l < b@.len()) || (k == i && 0 <= l < j) ==> !#[trigger] a@[k].spec_intersects(
                        pos_a,
                        #[trigger] b@[l],
                        pos_b,
                    ),
            decreases b@.len() - j,
        {
            if a[i].intersects(pos_a, &b[j], pos_b) {
                return Some(true);
            }
            j += 1;
        }
        i += 1;
    }
    Some(false)
}

/// Whether some hitbox of `a` at `pos` meets the box `other` at
/// `other_pos`; `None` when a box's edges leave `i16`.
pub fn hitboxes_hit(a: &[Hitbox], pos: [i16; 2], other: &Hitbox, other_pos: [i16; 2]) -> (r: Option<bool>)
    ensures
        r is None <==> !other.fits(other_pos) || exists|i: int| 0 <= i < a@.len() && !(#[trigger] a@[i]).fits(pos),
        r == Some(true) <==> other.fits(other_pos) && (forall|i: int| 0 <= i < a@.len() ==> (#[trigger] a@[i]).fits(pos))
            && exists|i: int| 0 <= i < a@.len() && (#[trigger] a@[i]).spec_intersects(pos, *other, other_pos),
{
    let one = [*other];
    assert(one@ == seq![*other]);
    let r = hitboxes_collide(a, pos, &one, other_pos);
    proof {
        if r == Some(true) {
            let (i, j) = choose|i: int, j: int|
                0 <= i < a@.len() && 0 <= j < one@.len() && #[trigger] a@[i].spec_intersects(pos, #[trigger] one@[j], other_pos);
            assert(a@[i].spec_intersects(pos, *other, other_pos));
        }
        if r is None && other.fits(other_pos) {
            assert(forall|j: int| 0 <= j < one@.len() ==> (#[trigger] one@[j]).fits(other_pos));
        }
        if !other.fits(other_pos) {
            assert(!one@[0].fits(other_pos));
        }
        if exists|i: int| 0 <= i < a@.len() && (#[trigger] a@[i]).spec_intersects(pos, *other, other_pos) {
            let i = choose|i: int| 0 <= i < a@.len() && (#[trigger] a@[i]).spec_intersects(pos, *other, other_pos);
            assert(a@[i].spec_intersects(pos, one@[0], other_pos));
        }
    }
    r
}

impl Hitbox {
    /// Whether the active box placed at `pos` overlaps a tile of the layer.
    pub fn collides_tilemap<const TILE_SIZE: usize, const CELL_AREA: usize>(&self, pos: [i16; 2], tilemap: &Tilemap<'_, TILE_SIZE, CELL_AREA>) -> (r: bool)
        requires
            tilemap.wf(),
            self.active ==> in_i16(self.x0(pos)) && in_i16(self.y0(pos)) && tilemap.collide_ok(
                self.x0(pos),
                self.y0(pos),
                self.width as int,
                self.height as int,
            ),
        ensures
            r == (self.active && tilemap.spec_collides(self.x0(pos), self.y0(pos), self.width as int, self.height as int)),
    {
        if !self.active {
            return false;
        }
        tilemap.collides_with_rect(pos[0] + self.offset_x, pos[1] + self.offset_y, self.width, self.height)
    }
}

} // verus!
