//! The terrains of a tile set: how they are put together from the tiles of
//! the set, and which of them a tile belongs to.

use vstd::prelude::*;
use crate::tiles::terrain::{Terrain, TerrainData, TerrainModel, GROUP_TILES};

verus! {

/// A tile of a set as the set describes it: the terrain that it belongs
/// to, the sum of its edges, and its index.
pub type EdgedTile = (u32, u32, u32);

/// What a tile set tells of a kind of terrain.
#[derive(Debug)]
pub struct TerrainType {
    pub name: String,
    pub standalone: Vec<u32>,
    pub reduced: Vec<u32>,
}

/// The terrains of a tile set, and the number of columns and rows of tiles
/// in its image.
#[derive(Debug)]
pub struct TileSet {
    pub cols: u32,
    pub rows: u32,
    pub terrains: Vec<Terrain>,
}

/// The lowest terrain among the first `upto` edges that have one.
pub open spec fn lowest_edge(edges: Seq<Option<u32>>, upto: int) -> Option<u32>
    decreases upto,
{
    if upto <= 0 {
        None
    } else {
        match (lowest_edge(edges, upto - 1), edges[upto - 1]) {
            (None, edge) => edge,
            (Some(lowest), None) => Some(lowest),
            (Some(lowest), Some(edge)) => if edge < lowest {
                Some(edge)
            } else {
                Some(lowest)
            },
        }
    }
}

/// The sum over the first `upto` edges of two to the power of the place of
/// each edge that has a terrain.
pub open spec fn edge_sum(edges: Seq<Option<u32>>, upto: int) -> int
    decreases upto,
{
    if upto <= 0 {
        0
    } else {
        edge_sum(edges, upto - 1) + if edges[upto - 1] is Some {
            vstd::arithmetic::power2::pow2((upto - 1) as nat) as int
        } else {
            0
        }
    }
}

/// The sum of edges stays below the next power of two.
proof fn edge_sum_bound(edges: Seq<Option<u32>>, upto: int)
    requires
        0 <= upto <= edges.len(),
    ensures
        0 <= edge_sum(edges, upto) < vstd::arithmetic::power2::pow2(upto as nat),
    decreases upto,
{
    vstd::arithmetic::power2::lemma_pow2_pos(upto as nat);
    if upto > 0 {
        edge_sum_bound(edges, upto - 1);
        vstd::arithmetic::power2::lemma_pow2_unfold(upto as nat);
    } else {
        vstd::arithmetic::power2::lemma2_to64();
    }
}

/// The terrain of a tile and the sum of its edges, for a tile with up to 31
/// edges of which one at least has a terrain.
pub fn tile_edges(edges: &Vec<Option<u32>>) -> (r: Option<(u32, u32)>)
    ensures
        r is Some <==> edges@.len() <= 31 && lowest_edge(edges@, edges@.len() as int) is Some,
        r matches Some((terrain, sum)) ==> lowest_edge(edges@, edges@.len() as int) == Some(
            terrain,
        ) && sum == edge_sum(edges@, edges@.len() as int),
{
    if edges.len() > 31 {
        return None;
    }
    let mut lowest: Option<u32> = None;
    let mut sum: u32 = 0;
    let mut bit: u32 = 1;
    let mut k: usize = 0;
    proof {
        vstd::arithmetic::power2::lemma2_to64();
    }
    while k < edges.len()
        invariant
            k <= edges@.len() <= 31,
            lowest == lowest_edge(edges@, k as int),
            sum == edge_sum(edges@, k as int),
            bit == vstd::arithmetic::power2::pow2(k as nat),
            bit <= 0x8000_0000,
        decreases edges@.len() - k,
    {
        proof {
            edge_sum_bound(edges@, k as int);
            vstd::arithmetic::power2::lemma_pow2_unfold((k + 1) as nat);
            vstd::arithmetic::power2::lemma_pow2_strictly_increases((k + 1) as nat, 32);
            vstd::arithmetic::power2::lemma2_to64();
        }
        match edges[k] {
            Some(edge) => {
                sum = sum + bit;
                lowest = match lowest {
                    None => Some(edge),
                    Some(low) => if edge < low {
                        Some(edge)
                    } else {
                        Some(low)
                    },
                };
            },
            None => {},
        }
        k += 1;
        if k < 32 {
            if bit < 0x8000_0000 {
                bit = bit * 2;
            }
        }
    }
    match lowest {
        Some(terrain) => Some((terrain, sum)),
        None => None,
    }
}

/// Whether one tile comes before another or is the same: by terrain, then
/// by the sum of its edges, then by its index.
pub open spec fn in_order(a: EdgedTile, b: EdgedTile) -> bool {
    a.0 < b.0 || (a.0 == b.0 && (a.1 < b.1 || (a.1 == b.1 && a.2 <= b.2)))
}

/// Whether the tiles stand in order.
pub open spec fn ordered(tiles: Seq<EdgedTile>) -> bool {
    forall|i: int, j: int| 0 <= i <= j < tiles.len() ==> in_order(tiles[i], tiles[j])
}

/// Calls `sort` of the standard library on the tiles. It leaves the same
/// tiles in the order of their tuples, which compares the first fields,
/// then the second, then the third.
#[verifier::external_body]
fn sort_tiles(tiles: &mut Vec<EdgedTile>)
    ensures
        ordered(final(tiles)@),
        final(tiles)@.to_multiset() == old(tiles)@.to_multiset(),
{
    tiles.sort();
}

/// The terrains with their groups after the tiles from place `from` on were
/// taken, last tile first: a tile opens a new group in front where its
/// terrain is not that of the first group, and joins the first group else.
pub open spec fn gathered(tiles: Seq<EdgedTile>, from: int) -> Seq<(u32, Seq<u32>)>
    decreases tiles.len() - from,
{
    if from >= tiles.len() || from < 0 {
        Seq::empty()
    } else {
        let later = gathered(tiles, from + 1);
        let tile = tiles[from];
        if later.len() == 0 || later[0].0 != tile.0 {
            seq![(tile.0, seq![tile.2])] + later
        } else {
            later.update(0, (tile.0, later[0].1.push(tile.2)))
        }
    }
}

/// The groups of a list of groups, with the tiles of each as a sequence.
pub open spec fn groups_of(groups: Seq<(u32, Vec<u32>)>) -> Seq<(u32, Seq<u32>)> {
    Seq::new(groups.len(), |k: int| (groups[k].0, groups[k].1@))
}

/// Puts the tiles of a set in order and gathers those of each terrain: the
/// terrains come out lowest first, the tiles of each with the highest sum
/// of edges first.
pub fn group_tiles(tiles: Vec<EdgedTile>) -> (groups: Vec<(u32, Vec<u32>)>)
    ensures
        exists|sorted: Seq<EdgedTile>|
            ordered(sorted) && sorted.to_multiset() == tiles@.to_multiset() && groups_of(groups@)
                == #[trigger] gathered(sorted, 0),
{
    let mut tiles = tiles;
    sort_tiles(&mut tiles);
    let mut groups: Vec<(u32, Vec<u32>)> = Vec::new();
    let mut k: usize = tiles.len();
    while k > 0
        invariant
            k <= tiles@.len(),
            groups_of(groups@) == gathered(tiles@, k as int),
        decreases k,
    {
        k -= 1;
        let tile = tiles[k];
        let ghost later = groups@;
        if groups.len() == 0 || groups[0].0 != tile.0 {
            let mut group: Vec<u32> = Vec::new();
            group.push(tile.2);
            groups.insert(0, (tile.0, group));
            assert(groups_of(groups@) =~= seq![(tile.0, seq![tile.2])] + groups_of(later));
        } else {
            groups[0].1.push(tile.2);
            assert(groups_of(groups@) =~= groups_of(later).update(
                0,
                (tile.0, later[0].1@.push(tile.2)),
            ));
        }
    }
    groups
}

/// The terrains of a list with their tiles as sequences.
pub open spec fn models(terrains: Seq<Terrain>) -> Seq<TerrainModel> {
    Seq::new(terrains.len(), |k: int| terrains[k]@)
}

/// The place of the first terrain with a name among the first `upto`.
pub open spec fn first_named(terrains: Seq<TerrainModel>, name: Seq<char>, upto: int) -> Option<int>
    decreases upto,
{
    if upto <= 0 {
        None
    } else {
        match first_named(terrains, name, upto - 1) {
            Some(k) => Some(k),
            None => if terrains[upto - 1].name == name {
                Some(upto - 1)
            } else {
                None
            },
        }
    }
}

/// The terrains with one more among them: it stands in place of the first
/// terrain of its name, or last where no terrain has its name.
pub open spec fn placed(terrains: Seq<TerrainModel>, terrain: TerrainModel) -> Seq<TerrainModel> {
    match first_named(terrains, terrain.name, terrains.len() as int) {
        Some(k) => terrains.update(k, terrain),
        None => terrains.push(terrain),
    }
}

/// Whether a group can become a terrain: it names one of the kinds of
/// terrain, and holds all tiles of a group.
pub open spec fn fits(group: (u32, Seq<u32>), kinds: int) -> bool {
    group.0 < kinds && group.1.len() >= GROUP_TILES
}

/// The terrain that a group of its kind becomes.
pub open spec fn terrain_of(group: (u32, Seq<u32>), kind: TerrainType) -> TerrainModel {
    TerrainModel {
        name: kind.name@,
        group: TerrainData::arranged(group.1),
        standalone: kind.standalone@,
        reduced: kind.reduced@,
    }
}

/// The number of groups that become terrains among the first `upto`: all in
/// front of the first that does not fit.
pub open spec fn accepted(groups: Seq<(u32, Seq<u32>)>, kinds: int, upto: int) -> int
    decreases upto,
{
    if upto <= 0 {
        0
    } else if accepted(groups, kinds, upto - 1) == upto - 1 && fits(groups[upto - 1], kinds) {
        upto
    } else {
        accepted(groups, kinds, upto - 1)
    }
}

/// The terrains after those of the first `upto` groups were placed among
/// them, one after the other.
pub open spec fn with_groups(
    terrains: Seq<TerrainModel>,
    groups: Seq<(u32, Seq<u32>)>,
    types: Seq<TerrainType>,
    upto: int,
) -> Seq<TerrainModel>
    decreases upto,
{
    if upto <= 0 {
        terrains
    } else {
        placed(
            with_groups(terrains, groups, types, upto - 1),
            terrain_of(groups[upto - 1], types[groups[upto - 1].0 as int]),
        )
    }
}

/// The first terrain with a name is the one in front of which no terrain has
/// the name; there is none where no terrain has it.
proof fn first_named_found(terrains: Seq<TerrainModel>, name: Seq<char>, k: int, upto: int)
    requires
        0 <= k <= upto <= terrains.len(),
        forall|j: int| 0 <= j < k ==> terrains[j].name != name,
        k < upto ==> terrains[k].name == name,
    ensures
        first_named(terrains, name, upto) == (if k < upto {
            Some(k)
        } else {
            None
        }),
    decreases upto,
{
    if upto > 0 {
        if k < upto {
            if k < upto - 1 {
                first_named_found(terrains, name, k, upto - 1);
            } else {
                first_named_found(terrains, name, k, k);
            }
        } else {
            first_named_found(terrains, name, upto - 1, upto - 1);
        }
    }
}

/// After the first group that does not fit no group becomes a terrain.
proof fn accepted_stops(groups: Seq<(u32, Seq<u32>)>, kinds: int, at: int, upto: int)
    requires
        0 <= at < upto <= groups.len(),
        accepted(groups, kinds, at) == at,
        !fits(groups[at], kinds),
    ensures
        accepted(groups, kinds, upto) == at,
    decreases upto,
{
    if upto > at + 1 {
        accepted_stops(groups, kinds, at, upto - 1);
    }
}

impl TileSet {
    /// A tile set without terrains.
    pub fn new(cols: u32, rows: u32) -> (r: Self)
        ensures
            r.cols == cols,
            r.rows == rows,
            r.terrains@.len() == 0,
    {
        Self { cols, rows, terrains: Vec::new() }
    }

    /// The column and the row of a tile in the image of a set with columns.
    pub fn cell(&self, index: u32) -> (r: (u32, u32))
        requires
            self.cols > 0,
        ensures
            r.0 == index % self.cols,
            r.1 == index / self.cols,
    {
        (index % self.cols, index / self.cols)
    }

    /// The place of the first terrain with this name, if there is one.
    pub open spec fn named(&self, name: Seq<char>) -> Option<int> {
        if exists|k: int| 0 <= k < self.terrains@.len() && self.terrains@[k].name@ == name {
            Some(
                choose|k: int|
                    0 <= k < self.terrains@.len() && self.terrains@[k].name@ == name && forall|j: int|
                        0 <= j < k ==> self.terrains@[j].name@ != name,
            )
        } else {
            None
        }
    }

    /// The place of the first terrain that a tile belongs to, if there is
    /// one.
    pub open spec fn owner(&self, tile: u32) -> Option<int> {
        if exists|k: int| 0 <= k < self.terrains@.len() && self.terrains@[k].owns(tile) {
            Some(
                choose|k: int|
                    0 <= k < self.terrains@.len() && self.terrains@[k].owns(tile) && forall|j: int|
                        0 <= j < k ==> !self.terrains@[j].owns(tile),
            )
        } else {
            None
        }
    }

    /// Adds a terrain to the set, in place of the one with its name where
    /// there is one.
    pub fn insert(&mut self, terrain: Terrain)
        ensures
            final(self).cols == old(self).cols,
            final(self).rows == old(self).rows,
            final(self).terrains@ == (match old(self).named(terrain.name@) {
                Some(k) => old(self).terrains@.update(k, terrain),
                None => old(self).terrains@.push(terrain),
            }),
            models(final(self).terrains@) == placed(models(old(self).terrains@), terrain@),
    {
        let mut k: usize = 0;
        while k < self.terrains.len()
            invariant
                k <= self.terrains@.len(),
                *self == *old(self),
                forall|j: int| 0 <= j < k ==> self.terrains@[j].name@ != terrain.name@,
            decreases self.terrains@.len() - k,
        {
            if self.terrains[k].name == terrain.name {
                proof {
                    let first = old(self).named(terrain.name@)->0;
                    assert(first == k) by {
                        if first < k {
                            assert(self.terrains@[first].name@ != terrain.name@);
                        }
                        if first > k {
                            assert(self.terrains@[k as int].name@ == terrain.name@);
                        }
                    }
                }
                proof {
                    let before = models(old(self).terrains@);
                    assert forall|j: int| 0 <= j < k implies before[j].name != terrain@.name by {
                        assert(before[j] == old(self).terrains@[j]@);
                    }
                    assert(before[k as int] == old(self).terrains@[k as int]@);
                    first_named_found(before, terrain@.name, k as int, before.len() as int);
                }
                self.terrains[k] = terrain;
                assert(models(self.terrains@) =~= models(old(self).terrains@).update(
                    k as int,
                    terrain@,
                ));
                return ;
            }
            k += 1;
        }
        proof {
            let before = models(old(self).terrains@);
            assert forall|j: int| 0 <= j < before.len() implies before[j].name
                != terrain@.name by {
                assert(before[j] == old(self).terrains@[j]@);
            }
            first_named_found(before, terrain@.name, before.len() as int, before.len() as int);
        }
        self.terrains.push(terrain);
        assert(models(self.terrains@) =~= models(old(self).terrains@).push(terrain@));
    }

    /// The terrain with this name.
    pub fn terrain(&self, name: &String) -> (r: Option<&Terrain>)
        ensures
            r is Some == self.named(name@) is Some,
            r matches Some(terrain) ==> *terrain == self.terrains@[self.named(name@)->0],
    {
        let mut k: usize = 0;
        while k < self.terrains.len()
            invariant
                k <= self.terrains@.len(),
                forall|j: int| 0 <= j < k ==> self.terrains@[j].name@ != name@,
            decreases self.terrains@.len() - k,
        {
            if self.terrains[k].name == *name {
                proof {
                    let first = self.named(name@)->0;
                    assert(first == k) by {
                        if first < k {
                            assert(self.terrains@[first].name@ != name@);
                        }
                        if first > k {
                            assert(self.terrains@[k as int].name@ == name@);
                        }
                    }
                }
                return Some(&self.terrains[k]);
            }
            k += 1;
        }
        None
    }

    /// The terrain that a tile belongs to.
    pub fn get_tile_terrain(&self, tile: u32) -> (r: Option<&Terrain>)
        ensures
            r is Some == self.owner(tile) is Some,
            r matches Some(terrain) ==> *terrain == self.terrains@[self.owner(tile)->0],
    {
        match self.owner_index(tile) {
            Some(k) => Some(&self.terrains[k]),
            None => None,
        }
    }

    /// The place of the terrain that a tile belongs to.
    pub fn owner_index(&self, tile: u32) -> (r: Option<usize>)
        ensures
            r is Some == self.owner(tile) is Some,
            r matches Some(k) ==> k == self.owner(tile)->0 && k < self.terrains@.len()
                && self.terrains@[k as int].owns(tile),
    {
        let mut k: usize = 0;
        while k < self.terrains.len()
            invariant
                k <= self.terrains@.len(),
                forall|j: int| 0 <= j < k ==> !self.terrains@[j].owns(tile),
            decreases self.terrains@.len() - k,
        {
            if self.terrains[k].has_tile(tile) {
                proof {
                    let first = self.owner(tile)->0;
                    assert(first == k) by {
                        if first < k {
                            assert(!self.terrains@[first].owns(tile));
                        }
                        if first > k {
                            assert(self.terrains@[k as int].owns(tile));
                        }
                    }
                }
                return Some(k);
            }
            k += 1;
        }
        None
    }

    /// Adds the terrain of each group to the set, in the order of the
    /// groups: a group becomes the terrain of its kind, with its tiles
    /// arranged as a terrain holds them, and takes the place of the terrain
    /// with its name, or the last place. Says whether every group names a
    /// kind of terrain that the set knows and holds all tiles of a group; the
    /// set takes no terrain from the first group that does not, nor from
    /// those after it.
    pub fn add_groups(&mut self, groups: Vec<(u32, Vec<u32>)>, types: &Vec<TerrainType>) -> (complete: bool)
        ensures
            final(self).cols == old(self).cols,
            final(self).rows == old(self).rows,
            complete == (accepted(groups_of(groups@), types@.len() as int, groups@.len() as int)
                == groups@.len()),
            models(final(self).terrains@) == with_groups(
                models(old(self).terrains@),
                groups_of(groups@),
                types@,
                accepted(groups_of(groups@), types@.len() as int, groups@.len() as int),
            ),
    {
        let ghost all = groups_of(groups@);
        let ghost given = groups@;
        let ghost start = models(self.terrains@);
        for group in it: groups
            invariant
                it.seq() == given,
                all == groups_of(given),
                start == models(old(self).terrains@),
                self.cols == old(self).cols,
                self.rows == old(self).rows,
                accepted(all, types@.len() as int, it.index() as int) == it.index(),
                models(self.terrains@) == with_groups(start, all, types@, it.index() as int),
        {
            let ghost at = it.index() as int;
            let (id, tiles) = group;
            assert(all[at] == (id, tiles@));
            if id as usize >= types.len() {
                proof {
                    accepted_stops(all, types@.len() as int, at, all.len() as int);
                }
                return false;
            }
            let kind = &types[id as usize];
            let data = TerrainData {
                id,
                name: kind.name.clone(),
                standalone: copy_of(&kind.standalone),
                reduced: copy_of(&kind.reduced),
                group: tiles,
            };
            match data.terrain() {
                Some(terrain) => {
                    assert(terrain@ == terrain_of(all[at], types@[id as int]));
                    self.insert(terrain);
                },
                None => {
                    proof {
                        accepted_stops(all, types@.len() as int, at, all.len() as int);
                    }
                    return false;
                },
            }
        }
        true
    }
}

/// A copy of the tiles.
fn copy_of(tiles: &Vec<u32>) -> (r: Vec<u32>)
    ensures
        r@ == tiles@,
{
    let mut r: Vec<u32> = Vec::with_capacity(tiles.len());
    let mut k: usize = 0;
    while k < tiles.len()
        invariant
            k <= tiles@.len(),
            r@ == tiles@.take(k as int),
        decreases tiles@.len() - k,
    {
        r.push(tiles[k]);
        assert(r@ =~= tiles@.take(k + 1));
        k += 1;
    }
    assert(tiles@.take(k as int) =~= tiles@);
    r
}

} // verus!
