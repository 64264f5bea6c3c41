//! A terrain: the tiles that make it up, and how it closes its ranks when
//! one of its tiles is consumed.

use vstd::prelude::*;
use crate::tiles::tiledata::{TileData, OUTSIDE};

verus! {

/// The number of tiles that draw a closed group of a terrain.
pub const GROUP_TILES: usize = 13;

/// A terrain of the map.
#[derive(Debug)]
pub struct Terrain {
    pub name: String,
    /// The tiles of a closed group: the nine of its left upper corner to
    /// its right lower corner, row by row, and four inner corners.
    pub group: [u32; 13],
    /// The tiles that stand alone.
    pub standalone: Vec<u32>,
    /// The tiles that are left where the terrain was consumed.
    pub reduced: Vec<u32>,
}

/// A terrain with its tiles as sequences.
pub struct TerrainModel {
    pub name: Seq<char>,
    pub group: Seq<u32>,
    pub standalone: Seq<u32>,
    pub reduced: Seq<u32>,
}

impl View for Terrain {
    type V = TerrainModel;

    open spec fn view(&self) -> TerrainModel {
        TerrainModel {
            name: self.name@,
            group: self.group@,
            standalone: self.standalone@,
            reduced: self.reduced@,
        }
    }
}

/// What a tile set tells of one terrain.
#[derive(Debug)]
pub struct TerrainData {
    pub id: u32,
    pub name: String,
    pub standalone: Vec<u32>,
    pub reduced: Vec<u32>,
    /// The tiles of the terrain's group, by the sum of their edges.
    pub group: Vec<u32>,
}

impl TerrainData {
    /// The tiles of a group in the order in which a terrain holds them.
    pub open spec fn arranged(group: Seq<u32>) -> Seq<u32> {
        seq![
            group[6],
            group[3],
            group[9],
            group[5],
            group[0],
            group[8],
            group[11],
            group[10],
            group[12],
            group[7],
            group[4],
            group[2],
            group[1],
        ]
    }

    /// The terrain that the data describes, where they hold all tiles of a
    /// group.
    pub fn terrain(self) -> (r: Option<Terrain>)
        ensures
            r is Some <==> self.group@.len() >= GROUP_TILES,
            r matches Some(terrain) ==> terrain.name == self.name && terrain.group@
                == Self::arranged(self.group@) && terrain.standalone == self.standalone
                && terrain.reduced == self.reduced,
    {
        if self.group.len() < GROUP_TILES {
            return None;
        }
        let g = &self.group;
        let group = [
            // Group A
            g[6],
            g[3],
            g[9],
            g[5],
            g[0],
            g[8],
            g[11],
            g[10],
            g[12],
            // Group B
            g[7],
            g[4],
            g[2],
            g[1],
        ];
        assert(group@ =~= Self::arranged(self.group@));
        Some(Terrain::new(self.name, group, self.standalone, self.reduced))
    }
}

/// The tile of a list that a seed picks.
pub open spec fn picked(tiles: Seq<u32>, seed: int) -> u32 {
    tiles[seed % (tiles.len() as int)]
}

/// The seed by which a place picks its reduced tile.
pub open spec fn reduced_seed(x: u32, y: u32) -> int {
    (x * 233 + y * 107 - y / 3) * 41
}

/// The seed by which a place picks its standalone tile.
pub open spec fn standalone_seed(x: u32, y: u32) -> int {
    (x * 67 + y * 293 + x / 5) * 13
}

/// Whether one of the four squares of two by two tiles that a place belongs
/// to is all of the terrain, by the flags of the eight tiles around it.
pub open spec fn in_a_square(flags: Seq<bool>) -> bool {
    ||| flags[1] && flags[2] && flags[4]
    ||| flags[4] && flags[7] && flags[6]
    ||| flags[6] && flags[5] && flags[3]
    ||| flags[3] && flags[0] && flags[1]
}

/// The place in the group of the tile that fits the flags of the eight
/// tiles around it: a corner where two sides that meet are open, a side
/// where one is, and the center else.
pub open spec fn fitting(flags: Seq<bool>) -> int {
    if !flags[1] && !flags[4] {
        2
    } else if !flags[4] && !flags[6] {
        8
    } else if !flags[6] && !flags[3] {
        6
    } else if !flags[3] && !flags[1] {
        0
    } else if !flags[1] {
        1
    } else if !flags[4] {
        5
    } else if !flags[6] {
        7
    } else if !flags[3] {
        3
    } else {
        4
    }
}

impl Terrain {
    /// A terrain of the given tiles.
    pub fn new(name: String, group: [u32; 13], standalone: Vec<u32>, reduced: Vec<u32>) -> (r: Self)
        ensures
            r.name == name,
            r.group == group,
            r.standalone == standalone,
            r.reduced == reduced,
    {
        Self { name, group, standalone, reduced }
    }

    /// Whether a tile is one of the terrain's group.
    pub open spec fn in_group(&self, tile: u32) -> bool {
        self.group@.contains(tile)
    }

    /// Whether a tile is one of the terrain's standalone tiles.
    pub open spec fn alone(&self, tile: u32) -> bool {
        self.standalone@.contains(tile)
    }

    /// Whether a tile is one of the terrain's.
    pub open spec fn owns(&self, tile: u32) -> bool {
        self.in_group(tile) || self.alone(tile) || self.reduced@.contains(tile)
    }

    /// Whether the terrain can be consumed at a place: it has tiles to
    /// leave there, and the tile at the place is one of its group or one of
    /// its standalone tiles.
    pub open spec fn consumes(&self, data: &TileData, x: int, y: int) -> bool {
        self.reduced@.len() > 0 && (match data.tile_at(x, y) {
            Some(tile) => self.in_group(tile) || self.alone(tile),
            None => false,
        })
    }

    /// Whether each tile around a place counts as terrain: one of the
    /// group, or outside of the map.
    pub open spec fn flags_of(&self, tiles: Seq<u32>) -> Seq<bool> {
        Seq::new(8, |k: int| tiles[k] == OUTSIDE || self.in_group(tiles[k]))
    }

    /// Whether a tile is one of the terrain's.
    pub fn has_tile(&self, tile: u32) -> (r: bool)
        ensures
            r == self.owns(tile),
    {
        self.is_group_tile(tile) || self.is_standalone_tile(tile) || listed(&self.reduced, tile)
    }

    /// Whether a tile is one of the terrain's standalone tiles.
    pub fn is_standalone_tile(&self, tile: u32) -> (r: bool)
        ensures
            r == self.alone(tile),
    {
        listed(&self.standalone, tile)
    }

    /// Whether a tile is one of the terrain's group.
    pub fn is_group_tile(&self, tile: u32) -> (r: bool)
        ensures
            r == self.in_group(tile),
    {
        let mut k: usize = 0;
        while k < GROUP_TILES
            invariant
                k <= GROUP_TILES,
                forall|j: int| 0 <= j < k ==> self.group@[j] != tile,
            decreases GROUP_TILES - k,
        {
            if self.group[k] == tile {
                return true;
            }
            k += 1;
        }
        false
    }

    /// The tile that is left at a place where the terrain was consumed.
    pub fn reduced_tile(&self, x: u32, y: u32) -> (r: u32)
        requires
            self.reduced@.len() > 0,
        ensures
            r == picked(self.reduced@, reduced_seed(x, y)),
            self.reduced@.contains(r),
    {
        let seed: u64 = (x as u64 * 233 + y as u64 * 107 - (y / 3) as u64) * 41;
        let index = seed % (self.reduced.len() as u64);
        self.reduced[index as usize]
    }

    /// The tile that stands alone at a place.
    pub fn standalone_tile(&self, x: u32, y: u32) -> (r: u32)
        requires
            self.standalone@.len() > 0,
        ensures
            r == picked(self.standalone@, standalone_seed(x, y)),
            self.alone(r),
    {
        let seed: u64 = (x as u64 * 67 + y as u64 * 293 + (x / 5) as u64) * 13;
        let index = seed % (self.standalone.len() as u64);
        self.standalone[index as usize]
    }

    /// Whether each of the eight tiles around a place counts as terrain.
    pub fn to_flags(&self, tiles: [u32; 8]) -> (flags: [bool; 8])
        ensures
            flags@ == self.flags_of(tiles@),
    {
        let flags = [
            tiles[0] == OUTSIDE || self.is_group_tile(tiles[0]),
            tiles[1] == OUTSIDE || self.is_group_tile(tiles[1]),
            tiles[2] == OUTSIDE || self.is_group_tile(tiles[2]),
            tiles[3] == OUTSIDE || self.is_group_tile(tiles[3]),
            tiles[4] == OUTSIDE || self.is_group_tile(tiles[4]),
            tiles[5] == OUTSIDE || self.is_group_tile(tiles[5]),
            tiles[6] == OUTSIDE || self.is_group_tile(tiles[6]),
            tiles[7] == OUTSIDE || self.is_group_tile(tiles[7]),
        ];
        assert(flags@ =~= self.flags_of(tiles@));
        flags
    }

    /// The standalone tile for a place that belongs to no square of two by
    /// two tiles of the terrain, and nothing for a place that does.
    pub fn flags_to_standalone(&self, x: u32, y: u32, flags: [bool; 8]) -> (r: Option<u32>)
        requires
            self.standalone@.len() > 0,
        ensures
            r == (if in_a_square(flags@) {
                None
            } else {
                Some(picked(self.standalone@, standalone_seed(x, y)))
            }),
    {
        // We need at least a group of 4 connected tiles...
        if (flags[1] && flags[2] && flags[4]) || (flags[4] && flags[7] && flags[6]) || (flags[6]
            && flags[5] && flags[3]) || (flags[3] && flags[0] && flags[1]) {
            None
        } else {
            Some(self.standalone_tile(x, y))
        }
    }

    /// The tile of the group that fits a place with these flags.
    pub fn flags_to_grouped(&self, flags: [bool; 8]) -> (r: u32)
        ensures
            r == self.group@[fitting(flags@)],
            self.in_group(r),
    {
        if !flags[1] && !flags[4] {
            // Diagonal top right
            self.group[2]
        } else if !flags[4] && !flags[6] {
            // Diagonal bottom right
            self.group[8]
        } else if !flags[6] && !flags[3] {
            // Diagonal bottom left
            self.group[6]
        } else if !flags[3] && !flags[1] {
            // Diagonal top left
            self.group[0]
        } else if !flags[1] {
            // Top
            self.group[1]
        } else if !flags[4] {
            // Right
            self.group[5]
        } else if !flags[6] {
            // Bottom
            self.group[7]
        } else if !flags[3] {
            // Left
            self.group[3]
        } else {
            // Center fallback
            self.group[4]
        }
    }

    /// Whether the tiles have changed by this terrain's rules only: a tile
    /// that differs was at the consumed place or one of the group before,
    /// and is one of the terrain's now.
    pub open spec fn reshaped(&self, before: Seq<u32>, after: Seq<u32>, center: int) -> bool {
        &&& after.len() == before.len()
        &&& forall|k: int|
            0 <= k < before.len() && #[trigger] after[k] != before[k] ==> (k == center
                || self.in_group(before[k])) && self.owns(after[k])
    }

    /// Consumes the terrain at a place: the place gets a reduced tile, the
    /// tiles of the group around it that belong to no square of four any
    /// more become standalone tiles, ring by ring until a ring stays as it
    /// is, and the group tiles of the whole area get the tile that fits
    /// their neighbours. A terrain without standalone tiles leaves the tiles
    /// of its group in place. Says whether the terrain could be consumed
    /// there; where it could not, the map stays as it is.
    pub fn consume_tile(&self, data: &mut TileData, x: i32, y: i32) -> (r: bool)
        requires
            old(data).wf(),
        ensures
            final(data).wf(),
            final(data).width == old(data).width,
            final(data).height == old(data).height,
            r == self.consumes(old(data), x as int, y as int),
            !r ==> final(data).indices@ == old(data).indices@,
            r ==> self.reshaped(old(data).indices@, final(data).indices@, y * old(data).width + x),
    {
        if self.reduced.len() == 0 {
            return false;
        }
        let tile = match data.get_tile_index(x, y) {
            Some(tile) => tile,
            None => {
                return false;
            },
        };
        if !(self.is_group_tile(tile) || self.is_standalone_tile(tile)) {
            return false;
        }
        let ghost before = data.indices@;
        let ghost center = y * data.width + x;
        proof {
            data.place_on_map(x as int, y as int);
        }
        let tree = self.reduced_tile(x as u32, y as u32);
        data.set_tile_index(x, y, tree);
        let limit: i32 = if data.width > data.height {
            data.width as i32
        } else {
            data.height as i32
        };

        // 1. Go outwards and convert all tiles which do not form a
        //    2x2 group into standalone tiles
        let mut distance: i32 = 1;
        loop
            invariant
                1 <= distance <= limit,
                limit >= data.width,
                limit >= data.height,
                data.wf(),
                data.width == old(data).width,
                data.height == old(data).height,
                data.on_map(x as int, y as int),
                before == old(data).indices@,
                center == y * data.width + x,
                self.reshaped(before, data.indices@, center),
            decreases limit - distance,
        {
            let offsets = data.get_offset_border(x, y, distance);
            let ghost shape = *data;
            let mut standalone: usize = 0;
            let mut k: usize = 0;
            while k < offsets.len()
                invariant
                    k <= offsets@.len(),
                    offsets@ == shape.border(x as int, y as int, distance as int, 2 * distance + 1),
                    shape.width == data.width,
                    shape.height == data.height,
                    standalone <= k,
                    standalone > 0 ==> exists|j: int| 0 <= j < offsets@.len() && offsets@[j] is Some,
                    data.wf(),
                    data.width == old(data).width,
                    data.height == old(data).height,
                    before == old(data).indices@,
                    center == y * data.width + x,
                    self.reshaped(before, data.indices@, center),
                decreases offsets@.len() - k,
            {
                match offsets[k] {
                    Some(o) => {
                        proof {
                            shape.border_on_map(x as int, y as int, distance as int, 2 * distance + 1);
                            assert(offsets@[k as int] is Some);
                            data.place_on_map(o.0 as int, o.1 as int);
                        }
                        // Check if surrounding tile is part of terrain too
                        let tile = match data.get_tile_index(o.0, o.1) {
                            Some(tile) => tile,
                            None => OUTSIDE,
                        };
                        if self.standalone.len() > 0 && self.is_group_tile(tile) {
                            // Get surrounding tiles
                            let flags = self.to_flags(data.get_surrounding_indices(o.0, o.1));
                            // Convert into standalone
                            match self.flags_to_standalone(o.0 as u32, o.1 as u32, flags) {
                                Some(tile) => {
                                    data.set_tile_index(o.0, o.1, tile);
                                    standalone += 1;
                                },
                                None => {},
                            }
                        }
                    },
                    None => {},
                }
                k += 1;
            }
            if standalone == 0 {
                break ;
            }
            proof {
                if distance >= limit {
                    shape.far_border_is_off_map(x as int, y as int, distance as int, 2 * distance + 1);
                }
            }
            distance += 1;
        }

        // 2. We now reflow all bordering tiles within the adjusted area
        let reach = if distance < i32::MAX {
            distance + 1
        } else {
            distance
        };
        let offsets = data.get_offset_area(x, y, reach);
        let ghost shape = *data;
        let mut k: usize = 0;
        while k < offsets.len()
            invariant
                k <= offsets@.len(),
                offsets@ == shape.area(x as int, y as int, reach as int, 2 * reach + 1),
                shape.width == data.width,
                shape.height == data.height,
                data.wf(),
                data.width == old(data).width,
                data.height == old(data).height,
                before == old(data).indices@,
                center == y * data.width + x,
                self.reshaped(before, data.indices@, center),
            decreases offsets@.len() - k,
        {
            match offsets[k] {
                Some(o) => {
                    proof {
                        shape.area_on_map(x as int, y as int, reach as int, 2 * reach + 1);
                        assert(offsets@[k as int] is Some);
                        data.place_on_map(o.0 as int, o.1 as int);
                    }
                    let tile = match data.get_tile_index(o.0, o.1) {
                        Some(tile) => tile,
                        None => OUTSIDE,
                    };
                    if self.is_group_tile(tile) {
                        let indices = data.get_surrounding_indices(o.0, o.1);
                        let tile = self.flags_to_grouped(self.to_flags(indices));
                        data.set_tile_index(o.0, o.1, tile);
                    }
                },
                None => {},
            }
            k += 1;
        }
        true
    }
}

/// Whether a tile stands in a list.
fn listed(tiles: &Vec<u32>, tile: u32) -> (r: bool)
    ensures
        r == tiles@.contains(tile),
{
    let mut k: usize = 0;
    while k < tiles.len()
        invariant
            k <= tiles@.len(),
            forall|j: int| 0 <= j < k ==> tiles@[j] != tile,
        decreases tiles@.len() - k,
    {
        if tiles[k] == tile {
            return true;
        }
        k += 1;
    }
    false
}

} // verus!
