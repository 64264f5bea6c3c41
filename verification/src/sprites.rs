//! The places of the sprites of a view: which sprite stands where among
//! the quads that the view draws.

use vstd::prelude::*;

verus! {

/// The number of vertices of one sprite.
pub const SPRITE_VERTICES: usize = 6;

/// A sprite of a view.
#[derive(Debug)]
pub struct Sprite {
    pub id: usize,
    /// The place of the sprite among the sprites of its view.
    pub bucket: usize,
    /// The tile of the sheet that the sprite shows.
    pub tile: u32,
}

impl Sprite {
    /// Makes the sprite show another tile of the sheet.
    pub fn set_tile(&mut self, index: u32)
        ensures
            *final(self) == (Sprite { tile: index, ..*old(self) }),
    {
        self.tile = index;
    }
}

/// The sprites of a view: a place for each of as many sprites as the view
/// can hold.
#[derive(Debug)]
pub struct SpriteView {
    /// For each place the sprite that has taken it.
    pub sprite_buckets: Vec<Option<usize>>,
    pub sprite_max: usize,
    pub sprite_count: usize,
    /// The identifier of the sprite that was made last.
    pub sprite_id: usize,
    /// Whether a sprite has changed since the view was drawn.
    pub dirty: bool,
}

/// The number of places among the first `upto` that are taken.
pub open spec fn taken(buckets: Seq<Option<usize>>, upto: int) -> int
    decreases upto,
{
    if upto <= 0 {
        0
    } else {
        taken(buckets, upto - 1) + if buckets[upto - 1] is Some {
            1int
        } else {
            0int
        }
    }
}

/// No more places are taken than there are.
proof fn taken_bound(buckets: Seq<Option<usize>>, upto: int)
    requires
        0 <= upto <= buckets.len(),
    ensures
        0 <= taken(buckets, upto) <= upto,
        taken(buckets, upto) == upto ==> forall|k: int| 0 <= k < upto ==> buckets[k] is Some,
    decreases upto,
{
    if upto > 0 {
        taken_bound(buckets, upto - 1);
    }
}

/// Taking or freeing one place changes the number of taken places by one.
proof fn taken_update(buckets: Seq<Option<usize>>, index: int, to: Option<usize>, upto: int)
    requires
        0 <= index < buckets.len(),
        0 <= upto <= buckets.len(),
    ensures
        taken(buckets.update(index, to), upto) == taken(buckets, upto) + if index < upto {
            (if to is Some {
                1int
            } else {
                0int
            }) - (if buckets[index] is Some {
                1int
            } else {
                0int
            })
        } else {
            0int
        },
    decreases upto,
{
    if upto > 0 {
        taken_update(buckets, index, to, upto - 1);
    }
}

impl SpriteView {
    /// There is one place for each sprite that the view can hold, the view
    /// knows how many are taken, and the vertices of all sprites can be
    /// counted.
    pub open spec fn wf(&self) -> bool {
        &&& self.sprite_buckets@.len() == self.sprite_max
        &&& self.sprite_count == taken(self.sprite_buckets@, self.sprite_max as int)
        &&& self.sprite_max * SPRITE_VERTICES <= usize::MAX
    }

    /// A view for up to `max_sprites` sprites, where their vertices can be
    /// counted.
    pub fn new(max_sprites: usize) -> (r: Option<Self>)
        ensures
            r is Some <==> max_sprites * SPRITE_VERTICES <= usize::MAX,
            r matches Some(view) ==> view.wf() && view.sprite_max == max_sprites
                && view.sprite_count == 0 && view.sprite_id == 0 && view.dirty && forall|k: int|
                0 <= k < max_sprites ==> view.sprite_buckets@[k] is None,
    {
        if max_sprites > usize::MAX / SPRITE_VERTICES {
            return None;
        }
        let mut buckets: Vec<Option<usize>> = Vec::new();
        let mut k: usize = 0;
        while k < max_sprites
            invariant
                k <= max_sprites,
                buckets@.len() == k,
                forall|j: int| 0 <= j < k ==> buckets@[j] is None,
                taken(buckets@, k as int) == 0,
            decreases max_sprites - k,
        {
            buckets.push(None);
            proof {
                none_taken(buckets@, k + 1);
            }
            k += 1;
        }
        Some(
            Self {
                sprite_buckets: buckets,
                sprite_max: max_sprites,
                sprite_count: 0,
                sprite_id: 0,
                dirty: true,
            },
        )
    }

    /// Makes a sprite and gives it the first free place, where the view has
    /// a place left and an identifier to give.
    pub fn create_sprite(&mut self) -> (r: Option<Sprite>)
        requires
            old(self).wf(),
        ensures
            final(self).wf(),
            r is Some <==> old(self).sprite_count < old(self).sprite_max && old(self).sprite_id
                < usize::MAX,
            r is None ==> *final(self) == *old(self),
            r matches Some(sprite) ==> {
                &&& sprite.id == old(self).sprite_id + 1
                &&& sprite.tile == 0
                &&& sprite.bucket < old(self).sprite_max
                &&& old(self).sprite_buckets@[sprite.bucket as int] is None
                &&& forall|k: int| 0 <= k < sprite.bucket ==> old(self).sprite_buckets@[k] is Some
                &&& final(self).sprite_buckets@ == old(self).sprite_buckets@.update(
                    sprite.bucket as int,
                    Some(sprite.id),
                )
                &&& final(self).sprite_count == old(self).sprite_count + 1
                &&& final(self).sprite_id == sprite.id
                &&& final(self).sprite_max == old(self).sprite_max
                &&& final(self).dirty == old(self).dirty
            },
    {
        if self.sprite_count < self.sprite_max && self.sprite_id < usize::MAX {
            let mut index: usize = 0;
            while index < self.sprite_max && self.sprite_buckets[index].is_some()
                invariant
                    index <= self.sprite_max,
                    *self == *old(self),
                    self.wf(),
                    forall|k: int| 0 <= k < index ==> self.sprite_buckets@[k] is Some,
                decreases self.sprite_max - index,
            {
                index += 1;
            }
            proof {
                taken_bound(self.sprite_buckets@, self.sprite_max as int);
                if index == self.sprite_max {
                    all_taken(self.sprite_buckets@, self.sprite_max as int);
                }
                taken_update(
                    self.sprite_buckets@,
                    index as int,
                    Some((self.sprite_id + 1) as usize),
                    self.sprite_max as int,
                );
            }
            self.sprite_count += 1;
            self.sprite_id += 1;
            self.sprite_buckets[index] = Some(self.sprite_id);
            Some(Sprite { id: self.sprite_id, bucket: index, tile: 0 })
        } else {
            None
        }
    }

    /// The place of the first vertex of a sprite among the vertices of the
    /// view: the sprites stand last place first.
    pub fn vertex_index(&self, sprite: &Sprite) -> (r: usize)
        requires
            self.wf(),
            sprite.bucket < self.sprite_max,
        ensures
            r == (self.sprite_max - 1 - sprite.bucket) * SPRITE_VERTICES,
            r + SPRITE_VERTICES <= self.sprite_max * SPRITE_VERTICES,
    {
        assert((self.sprite_max - 1 - sprite.bucket) * SPRITE_VERTICES + SPRITE_VERTICES
            <= self.sprite_max * SPRITE_VERTICES) by (nonlinear_arith)
            requires
                sprite.bucket < self.sprite_max,
        ;
        (self.sprite_max - 1 - sprite.bucket) * SPRITE_VERTICES
    }

    /// Takes note that a sprite has changed.
    pub fn update_sprite(&mut self)
        ensures
            *final(self) == (SpriteView { dirty: true, ..*old(self) }),
    {
        self.dirty = true;
    }

    /// Frees the place of a sprite.
    pub fn destroy_sprite(&mut self, sprite: Sprite)
        requires
            old(self).wf(),
            sprite.bucket < old(self).sprite_max,
            old(self).sprite_buckets@[sprite.bucket as int] is Some,
        ensures
            final(self).wf(),
            final(self).sprite_buckets@ == old(self).sprite_buckets@.update(
                sprite.bucket as int,
                None,
            ),
            final(self).sprite_count == old(self).sprite_count - 1,
            final(self).sprite_max == old(self).sprite_max,
            final(self).sprite_id == old(self).sprite_id,
            final(self).dirty,
    {
        proof {
            taken_bound(self.sprite_buckets@, self.sprite_max as int);
            taken_update(self.sprite_buckets@, sprite.bucket as int, None, self.sprite_max as int);
            taken_one(self.sprite_buckets@, sprite.bucket as int, self.sprite_max as int);
        }
        self.dirty = true;
        self.sprite_buckets[sprite.bucket] = None;
        self.sprite_count -= 1;
    }

    /// Takes note that the view is drawn. Says whether a sprite had changed.
    pub fn draw(&mut self) -> (r: bool)
        ensures
            r == old(self).dirty,
            *final(self) == (SpriteView { dirty: false, ..*old(self) }),
    {
        let dirty = self.dirty;
        self.dirty = false;
        dirty
    }
}

/// Of places that are all free none is taken.
proof fn none_taken(buckets: Seq<Option<usize>>, upto: int)
    requires
        0 <= upto <= buckets.len(),
        forall|k: int| 0 <= k < upto ==> buckets[k] is None,
    ensures
        taken(buckets, upto) == 0,
    decreases upto,
{
    if upto > 0 {
        none_taken(buckets, upto - 1);
    }
}

/// Of places that are all taken each one counts.
proof fn all_taken(buckets: Seq<Option<usize>>, upto: int)
    requires
        0 <= upto <= buckets.len(),
        forall|k: int| 0 <= k < upto ==> buckets[k] is Some,
    ensures
        taken(buckets, upto) == upto,
    decreases upto,
{
    if upto > 0 {
        all_taken(buckets, upto - 1);
    }
}

/// Where a place is taken, one place at least is.
proof fn taken_one(buckets: Seq<Option<usize>>, index: int, upto: int)
    requires
        0 <= index < upto <= buckets.len(),
        buckets[index] is Some,
    ensures
        taken(buckets, upto) >= 1,
    decreases upto,
{
    if upto - 1 > index {
        taken_one(buckets, index, upto - 1);
    } else {
        taken_bound(buckets, upto - 1);
    }
}

} // verus!
