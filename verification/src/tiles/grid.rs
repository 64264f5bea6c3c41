//! A window onto a tile map: which tiles it shows, how far it can scroll,
//! and which place of the map a point of the screen belongs to.

use vstd::prelude::*;
use crate::tiles::source::TileSource;
use crate::tiles::terrain::Terrain;
use crate::tiles::tiledata::TileData;
use crate::tiles::tileset::TileSet;

verus! {

/// The number of tiles that a grid keeps ready around what it shows; the
/// grid is redrawn each time it has scrolled by as many.
pub const BORDER: u32 = 4;

/// A window onto a tile map.
#[derive(Debug)]
pub struct TileGrid<S> {
    pub tileset: TileSet,
    pub source: S,
    /// The side of a tile on the screen.
    pub draw_size: u32,
    /// Whether the tiles that the grid shows have changed.
    pub dirty: bool,
    pub border: u32,
    /// How far into the first tile the grid has scrolled.
    pub ox: i32,
    pub oy: i32,
    /// The place of the window in steps of `border` tiles.
    pub gx: u32,
    pub gy: u32,
    /// The first tile that the window shows.
    pub tx: u32,
    pub ty: u32,
    /// The number of tiles that fit the window.
    pub width: u32,
    pub height: u32,
    /// The number of tiles that the grid keeps ready.
    pub rows: u32,
    pub cols: u32,
}

/// A grid onto a terrain map.
pub type TerrainGrid = TileGrid<TileData>;

/// The farthest that a window of `shown` tiles can scroll over a map of
/// `tiles` tiles, each `draw_size` wide, and no farther than 31 bits can
/// tell.
pub open spec fn scroll_max(tiles: u32, shown: u32, draw_size: u32) -> int {
    let room = if tiles > shown {
        (tiles - shown) * draw_size
    } else {
        0
    };
    if room > i32::MAX {
        i32::MAX as int
    } else {
        room
    }
}

/// A scroll position held between nothing and the farthest that the window
/// can scroll.
pub open spec fn held(position: int, tiles: u32, shown: u32, draw_size: u32) -> int {
    if position < 0 {
        0
    } else if position > scroll_max(tiles, shown, draw_size) {
        scroll_max(tiles, shown, draw_size)
    } else {
        position
    }
}

/// A number of tiles, and no more than 31 bits can tell.
pub open spec fn capped(tiles: int) -> int {
    if tiles > i32::MAX {
        i32::MAX as int
    } else {
        tiles
    }
}

/// One tile that the grid shows: its column and row in the grid, and its
/// index.
pub type ShownTile = (u32, u32, u32);

impl<S: TileSource> TileGrid<S> {
    /// The grid has tiles of a size, and keeps `border` tiles ready on each
    /// side of what it shows.
    pub open spec fn wf(&self) -> bool {
        &&& self.draw_size > 0
        &&& self.border == BORDER
        &&& self.cols == self.width + 2 * BORDER
        &&& self.rows == self.height + 2 * BORDER
        &&& self.tx * self.draw_size + self.ox <= i32::MAX
        &&& self.ty * self.draw_size + self.oy <= i32::MAX
        &&& 0 <= self.ox < self.draw_size
        &&& 0 <= self.oy < self.draw_size
        &&& self.gx == self.tx / BORDER
        &&& self.gy == self.ty / BORDER
    }

    /// Where the grid has scrolled to.
    pub open spec fn scrolled(&self) -> (int, int) {
        (self.tx * self.draw_size + self.ox, self.ty * self.draw_size + self.oy)
    }

    /// A grid for a view of the given size with tiles of `draw_size`, on an
    /// empty source. There is none where the tiles have no size, or where
    /// the view holds more tiles than 32 bits can count.
    pub fn new(view_width: u32, view_height: u32, draw_size: u32, tileset: TileSet) -> (r: Option<Self>)
        ensures
            r is Some <==> draw_size > 0 && view_width / draw_size + 2 * BORDER <= u32::MAX
                && view_height / draw_size + 2 * BORDER <= u32::MAX,
            r matches Some(grid) ==> grid.wf() && grid.tileset == tileset && grid.draw_size
                == draw_size && grid.dirty && grid.width == view_width / draw_size && grid.height
                == view_height / draw_size && grid.scrolled() == (0int, 0int),
    {
        if draw_size == 0 {
            return None;
        }
        let border = BORDER;
        let w = view_width / draw_size;
        let h = view_height / draw_size;
        if w > u32::MAX - border * 2 || h > u32::MAX - border * 2 {
            return None;
        }
        Some(
            Self {
                tileset,
                source: S::default(),
                draw_size,
                dirty: true,
                border,
                ox: 0,
                oy: 0,
                gx: 0,
                gy: 0,
                tx: 0,
                ty: 0,
                width: w,
                height: h,
                rows: h + border * 2,
                cols: w + border * 2,
            },
        )
    }

    /// Sets a tile of the map; the grid has to be redrawn where the map has
    /// taken it.
    pub fn set_tile_index(&mut self, x: i32, y: i32, index: u32)
        requires
            old(self).source.valid(),
        ensures
            final(self).source.valid(),
            final(self).source.size() == old(self).source.size(),
            final(self).source.tiles() == (if crate::tiles::source::has_place(old(self).source.size(), x as int, y as int) {
                old(self).source.tiles().update(y * old(self).source.size().0 + x, index)
            } else {
                old(self).source.tiles()
            }),
            final(self).dirty == (old(self).dirty || crate::tiles::source::has_place(old(self).source.size(), x as int, y as int)),
            *final(self) == (TileGrid {
                source: final(self).source,
                dirty: final(self).dirty,
                ..*old(self)
            }),
            old(self).wf() ==> final(self).wf(),
    {
        if self.source.set_tile_index(x, y, index) {
            self.dirty = true;
        }
    }

    /// The tile at a place of the map.
    pub fn get_tile_index(&self, x: i32, y: i32) -> (r: Option<u32>)
        requires
            self.source.valid(),
        ensures
            r is Some <==> 0 <= x < self.source.size().0 && 0 <= y < self.source.size().1,
            r matches Some(tile) ==> tile == self.source.tiles()[y * self.source.size().0 + x],
    {
        self.source.get_tile_index(x, y)
    }

    /// The place in the tile set of the terrain that the tile at a place of
    /// the map belongs to: the first terrain of the set that owns the tile,
    /// where the place lies on the map and a terrain owns its tile.
    pub open spec fn terrain_at(&self, x: int, y: int) -> Option<int> {
        if 0 <= x < self.source.size().0 && 0 <= y < self.source.size().1 {
            self.tileset.owner(self.source.tiles()[y * self.source.size().0 + x])
        } else {
            None
        }
    }

    /// The terrain of the tile at a place of the map.
    pub fn get_tile_terrain(&self, x: i32, y: i32) -> (r: Option<&Terrain>)
        requires
            self.source.valid(),
        ensures
            r is Some <==> self.terrain_at(x as int, y as int) is Some,
            r matches Some(terrain) ==> *terrain == self.tileset.terrains@[self.terrain_at(
                x as int,
                y as int,
            )->0] && terrain.owns(self.source.tiles()[y * self.source.size().0 + x]),
    {
        match self.source.get_tile_index(x, y) {
            Some(index) => match self.tileset.owner_index(index) {
                Some(k) => Some(&self.tileset.terrains[k]),
                None => None,
            },
            None => None,
        }
    }

    /// A position held between nothing and the farthest that the window
    /// can scroll.
    pub fn limit(&self, x: i32, y: i32) -> (r: (u32, u32))
        requires
            self.wf(),
        ensures
            r.0 == held(x as int, self.source.size().0, self.width, self.draw_size),
            r.1 == held(y as int, self.source.size().1, self.height, self.draw_size),
    {
        (
            Self::hold(x as i64, self.source.width(), self.width, self.draw_size),
            Self::hold(y as i64, self.source.height(), self.height, self.draw_size),
        )
    }

    fn hold(position: i64, tiles: u32, shown: u32, draw_size: u32) -> (r: u32)
        ensures
            r == held(position as int, tiles, shown, draw_size),
            r <= i32::MAX,
    {
        let room: u64 = if tiles > shown {
            assert((tiles - shown) * draw_size <= u32::MAX * u32::MAX) by (nonlinear_arith)
                requires
                    0 <= tiles - shown <= u32::MAX,
                    0 <= draw_size <= u32::MAX,
            ;
            (tiles - shown) as u64 * draw_size as u64
        } else {
            0
        };
        let max: u64 = if room > i32::MAX as u64 {
            i32::MAX as u64
        } else {
            room
        };
        if position < 0 {
            0
        } else if position as u64 > max {
            max as u32
        } else {
            position as u32
        }
    }

    /// The place of the map that a point of the screen belongs to.
    pub fn screen_to_grid(&self, x: i32, y: i32) -> (r: (i32, i32))
        requires
            self.wf(),
        ensures
            r.0 == capped(
                self.tx + held(x + self.ox, self.source.size().0, self.width, self.draw_size) / (
                self.draw_size as int),
            ),
            r.1 == capped(
                self.ty + held(y + self.oy, self.source.size().1, self.height, self.draw_size) / (
                self.draw_size as int),
            ),
    {
        let px = Self::hold(x as i64 + self.ox as i64, self.source.width(), self.width, self.draw_size);
        let py = Self::hold(
            y as i64 + self.oy as i64,
            self.source.height(),
            self.height,
            self.draw_size,
        );
        proof {
            self.first_tile_bound();
            let d = self.draw_size as int;
            assert(0 <= px as int / d <= px) by (nonlinear_arith)
                requires
                    0 <= px,
                    d > 0,
            ;
            assert(0 <= py as int / d <= py) by (nonlinear_arith)
                requires
                    0 <= py,
                    d > 0,
            ;
        }
        let gx: u64 = self.tx as u64 + (px / self.draw_size) as u64;
        let gy: u64 = self.ty as u64 + (py / self.draw_size) as u64;
        (
            if gx > i32::MAX as u64 {
                i32::MAX
            } else {
                gx as i32
            },
            if gy > i32::MAX as u64 {
                i32::MAX
            } else {
                gy as i32
            },
        )
    }

    /// The first tile that the window shows lies no farther than the grid
    /// has scrolled.
    proof fn first_tile_bound(&self)
        requires
            self.wf(),
        ensures
            self.tx <= i32::MAX,
            self.ty <= i32::MAX,
            self.tx <= self.tx * self.draw_size,
            self.ty <= self.ty * self.draw_size,
    {
        let d = self.draw_size as int;
        assert(self.tx <= self.tx * d) by (nonlinear_arith)
            requires
                d >= 1,
                self.tx >= 0,
        ;
        assert(self.ty <= self.ty * d) by (nonlinear_arith)
            requires
                d >= 1,
                self.ty >= 0,
        ;
    }

    /// Whether a place of the map lies within what the grid keeps ready,
    /// widened by `border` tiles on each side.
    pub fn tile_within_screen_grid(&self, x: i32, y: i32, border: i32) -> (r: bool)
        requires
            self.wf(),
        ensures
            r == ({
                let ox = self.gx * self.border - border;
                let oy = self.gy * self.border - border;
                x >= ox && x < ox + self.width + border * 2 && y >= oy && y < oy + self.height
                    + border * 2
            }),
    {
        proof {
            self.first_tile_bound();
            assert(self.gx * BORDER <= self.tx) by (nonlinear_arith)
                requires
                    self.gx == self.tx / BORDER,
            ;
            assert(self.gy * BORDER <= self.ty) by (nonlinear_arith)
                requires
                    self.gy == self.ty / BORDER,
            ;
        }
        let ox: i64 = (self.gx * self.border) as i64 - border as i64;
        let oy: i64 = (self.gy * self.border) as i64 - border as i64;
        let x = x as i64;
        let y = y as i64;
        x >= ox && x < ox + self.width as i64 + border as i64 * 2 && y >= oy && y < oy
            + self.height as i64 + border as i64 * 2
    }

    /// The tile set of the grid.
    pub fn tileset(&self) -> (r: &TileSet)
        ensures
            *r == self.tileset,
    {
        &self.tileset
    }

    /// The map of the grid.
    pub fn source(&self) -> (r: &S)
        ensures
            *r == self.source,
    {
        &self.source
    }

    /// The map of the grid, to change it.
    pub fn source_mut(&mut self) -> (r: &mut S)
        ensures
            *r == old(self).source,
            *final(self) == (TileGrid { source: *final(r), ..*old(self) }),
    {
        &mut self.source
    }

    /// Puts the grid on another map; the grid has to be redrawn.
    pub fn set_source(&mut self, source: S)
        ensures
            *final(self) == (TileGrid { source, dirty: true, ..*old(self) }),
    {
        self.source = source;
        self.dirty = true;
    }

    /// Scrolls as near to a position as the window can get, and says where
    /// that is. The grid has to be redrawn when it has come to another step
    /// of `border` tiles.
    pub fn scroll_to(&mut self, scroll_x: i32, scroll_y: i32) -> (r: (i32, i32))
        requires
            old(self).wf(),
        ensures
            final(self).wf(),
            r.0 == held(
                scroll_x as int,
                old(self).source.size().0,
                old(self).width,
                old(self).draw_size,
            ),
            r.1 == held(
                scroll_y as int,
                old(self).source.size().1,
                old(self).height,
                old(self).draw_size,
            ),
            final(self).scrolled() == (r.0 as int, r.1 as int),
            final(self).dirty == (old(self).dirty || final(self).gx != old(self).gx || final(self).gy != old(self).gy),
            *final(self) == (TileGrid {
                tx: final(self).tx,
                ty: final(self).ty,
                ox: final(self).ox,
                oy: final(self).oy,
                gx: final(self).gx,
                gy: final(self).gy,
                dirty: final(self).dirty,
                ..*old(self)
            }),
    {
        let (scroll_x, scroll_y) = self.limit(scroll_x, scroll_y);
        proof {
            let d = self.draw_size as int;
            assert(scroll_x as int == (scroll_x as int / d) * d + scroll_x as int % d)
                by (nonlinear_arith)
                requires
                    d > 0,
            ;
            assert(scroll_y as int == (scroll_y as int / d) * d + scroll_y as int % d)
                by (nonlinear_arith)
                requires
                    d > 0,
            ;
        }
        self.tx = scroll_x / self.draw_size;
        self.ty = scroll_y / self.draw_size;
        self.ox = (scroll_x % self.draw_size) as i32;
        self.oy = (scroll_y % self.draw_size) as i32;

        // Redraw every "border" tiles
        let gx = self.tx / self.border;
        let gy = self.ty / self.border;
        if gx != self.gx || gy != self.gy {
            self.gx = gx;
            self.gy = gy;
            self.dirty = true;
        }
        (scroll_x as i32, scroll_y as i32)
    }

    /// How far the tiles that the grid keeps ready are moved against the
    /// window: the scroll position within one step of `border` tiles.
    pub fn view_offset(&self) -> (r: (u32, u32))
        requires
            self.wf(),
        ensures
            r.0 == self.scrolled().0 % (self.draw_size * self.border),
            r.1 == self.scrolled().1 % (self.draw_size * self.border),
    {
        proof {
            self.first_tile_bound();
            assert(self.draw_size * self.border <= u32::MAX * 4) by (nonlinear_arith)
                requires
                    self.draw_size <= u32::MAX,
                    self.border == 4,
            ;
            assert(self.tx * self.draw_size >= 0 && self.ty * self.draw_size >= 0)
                by (nonlinear_arith)
                requires
                    self.tx >= 0,
                    self.ty >= 0,
                    self.draw_size >= 0,
            ;
        }
        let step: u64 = self.draw_size as u64 * self.border as u64;
        let x: u64 = self.tx as u64 * self.draw_size as u64 + self.ox as u64;
        let y: u64 = self.ty as u64 * self.draw_size as u64 + self.oy as u64;
        assert(x % step <= x && y % step <= y) by (nonlinear_arith)
            requires
                step > 0,
        ;
        ((x % step) as u32, (y % step) as u32)
    }

    /// The tile of the map that stands at a column and a row of the grid,
    /// if the map has a tile there: the grid starts `border` tiles before
    /// its step, and counts the places of the map row by row.
    pub open spec fn shown_at(&self, x: int, y: int) -> Option<u32> {
        let offset = (self.gy * self.border - self.border + y) * self.source.size().0 + (self.gx
            * self.border - self.border + x);
        if 0 <= offset < self.source.size().0 * self.source.size().1 {
            Some(self.source.tiles()[offset])
        } else {
            None
        }
    }

    /// The tiles that the grid shows after the first `upto` places of the
    /// grid, row by row.
    pub open spec fn shown(&self, upto: int) -> Seq<ShownTile>
        decreases upto,
    {
        if upto <= 0 || self.cols == 0 {
            Seq::empty()
        } else {
            let x = (upto - 1) % (self.cols as int);
            let y = (upto - 1) / (self.cols as int);
            match self.shown_at(x, y) {
                Some(tile) => self.shown(upto - 1).push((x as u32, y as u32, tile)),
                None => self.shown(upto - 1),
            }
        }
    }

    /// Takes note that the grid is drawn, and gives the tiles to draw where
    /// they have changed: each with its column and row in the grid, row by
    /// row.
    pub fn update_tiles(&mut self) -> (r: Option<Vec<ShownTile>>)
        requires
            old(self).wf(),
            old(self).source.valid(),
        ensures
            *final(self) == (TileGrid { dirty: false, ..*old(self) }),
            r is Some == old(self).dirty,
            r matches Some(tiles) ==> tiles@ == old(self).shown(old(self).rows * old(self).cols),
    {
        if !self.dirty {
            return None;
        }
        self.dirty = false;
        proof {
            self.source.valid_is_filled();
            self.first_tile_bound();
            assert(self.gx * BORDER <= self.tx) by (nonlinear_arith)
                requires
                    self.gx == self.tx / BORDER,
            ;
            assert(self.gy * BORDER <= self.ty) by (nonlinear_arith)
                requires
                    self.gy == self.ty / BORDER,
            ;
        }
        let ox: i128 = (self.gx * self.border) as i128 - self.border as i128;
        let oy: i128 = (self.gy * self.border) as i128 - self.border as i128;
        let w: i128 = self.source.width() as i128;
        let h: i128 = self.source.height() as i128;
        assert(0 <= w * h <= u32::MAX * u32::MAX) by (nonlinear_arith)
            requires
                0 <= w <= u32::MAX,
                0 <= h <= u32::MAX,
        ;
        let m: i128 = w * h;
        let places = self.source.indices().len();
        let mut tiles: Vec<ShownTile> = Vec::new();
        let mut y: u32 = 0;
        while y < self.rows
            invariant
                y <= self.rows,
                self.wf(),
                self.source.valid(),
                *self == (TileGrid { dirty: false, ..*old(self) }),
                ox == self.gx * self.border - self.border,
                oy == self.gy * self.border - self.border,
                -4 <= ox <= i32::MAX,
                -4 <= oy <= i32::MAX,
                w == self.source.size().0,
                h == self.source.size().1,
                m == w * h,
                m == self.source.tiles().len(),
                m == places,
                tiles@ == old(self).shown(y * self.cols),
            decreases self.rows - y,
        {
            let mut x: u32 = 0;
            while x < self.cols
                invariant
                    x <= self.cols,
                    y < self.rows,
                    self.wf(),
                    self.source.valid(),
                    *self == (TileGrid { dirty: false, ..*old(self) }),
                    ox == self.gx * self.border - self.border,
                    oy == self.gy * self.border - self.border,
                    -4 <= ox <= i32::MAX,
                    -4 <= oy <= i32::MAX,
                    w == self.source.size().0,
                    h == self.source.size().1,
                    m == w * h,
                    m == self.source.tiles().len(),
                    m == places,
                    tiles@ == old(self).shown(y * self.cols + x),
                decreases self.cols - x,
            {
                proof {
                    let c = self.cols as int;
                    assert((y * c + x) % c == x && (y * c + x) / c == y) by (nonlinear_arith)
                        requires
                            0 <= x < c,
                            0 <= y,
                    ;
                    assert(-0x4_0000_0000_0000_0000 <= (oy + y) * w <= 0x4_0000_0000_0000_0000)
                        by (nonlinear_arith)
                        requires
                            -4 <= oy + y <= 0x2_0000_0000,
                            0 <= w <= 0xffff_ffff,
                    ;
                }
                let offset: i128 = (oy + y as i128) * w + (ox + x as i128);
                let ghost before = tiles@;
                if offset >= 0 && offset < m {
                    let i = self.source.index(offset as usize);
                    tiles.push((x, y, i));
                }
                proof {
                    let upto = y * self.cols + x + 1;
                    assert((upto - 1) % (self.cols as int) == x);
                    assert((upto - 1) / (self.cols as int) == y);
                    assert(old(self).shown_at(x as int, y as int) == (if 0 <= offset < m {
                        Some(self.source.tiles()[offset as int])
                    } else {
                        None
                    }));
                    assert(old(self).shown(upto) == (match old(self).shown_at(x as int, y as int) {
                        Some(tile) => old(self).shown(upto - 1).push((x, y, tile)),
                        None => old(self).shown(upto - 1),
                    }));
                }
                x += 1;
            }
            proof {
                assert(y * self.cols + self.cols == (y + 1) * self.cols) by (nonlinear_arith);
            }
            y += 1;
        }
        Some(tiles)
    }
}

impl TileGrid<TileData> {
    /// Consumes the terrain at a place of the map: the terrain of the tile
    /// at the place, where there is one and it can be consumed there. Gives
    /// that terrain; the grid has to be redrawn then. Where nothing could
    /// be consumed, the map and the grid stay as they are.
    pub fn consume_tile(&mut self, x: i32, y: i32) -> (r: Option<&Terrain>)
        requires
            old(self).source.wf(),
        ensures
            final(self).source.wf(),
            final(self).source.width == old(self).source.width,
            final(self).source.height == old(self).source.height,
            final(self).tileset == old(self).tileset,
            r is Some <==> (old(self).terrain_at(x as int, y as int) matches Some(k)
                && old(self).tileset.terrains@[k].consumes(&old(self).source, x as int, y as int)),
            r matches Some(terrain) ==> *terrain == old(self).tileset.terrains@[old(self).terrain_at(
                x as int,
                y as int,
            )->0],
            r is None ==> final(self).source.indices@ == old(self).source.indices@ && final(self).dirty == old(self).dirty,
            *final(self) == (TileGrid {
                source: final(self).source,
                dirty: final(self).dirty,
                ..*old(self)
            }),
            r matches Some(terrain) ==> final(self).dirty && terrain.consumes(
                &old(self).source,
                x as int,
                y as int,
            ) && terrain.reshaped(
                old(self).source.indices@,
                final(self).source.indices@,
                y * old(self).source.width + x,
            ),
            old(self).wf() ==> final(self).wf(),
    {
        let index = match self.source.get_tile_index(x, y) {
            Some(index) => index,
            None => {
                return None;
            },
        };
        match self.tileset.owner_index(index) {
            Some(k) => {
                if self.tileset.terrains[k].consume_tile(&mut self.source, x, y) {
                    self.dirty = true;
                    Some(&self.tileset.terrains[k])
                } else {
                    None
                }
            },
            None => None,
        }
    }
}

} // verus!
