//! The tiles of a map, row by row.

use vstd::prelude::*;

verus! {

/// The tile that stands for everything outside of the map.
pub const OUTSIDE: u32 = 4096;

/// The tiles of a map, row by row.
#[derive(Debug)]
pub struct TileData {
    pub width: u32,
    pub height: u32,
    pub indices: Vec<u32>,
}

impl TileData {
    /// There is one tile for each place of the map, and the places can be
    /// counted in 31 bits.
    pub open spec fn wf(&self) -> bool {
        &&& self.indices@.len() == self.width * self.height
        &&& self.width * self.height <= i32::MAX
        &&& self.width <= i32::MAX
        &&& self.height <= i32::MAX
    }

    /// Whether a column and a row lie on the map.
    pub open spec fn on_map(&self, x: int, y: int) -> bool {
        0 <= x < self.width && 0 <= y < self.height
    }

    /// The tile at a column and a row of the map.
    pub open spec fn tile(&self, x: int, y: int) -> u32 {
        self.indices@[y * self.width + x]
    }

    /// The tile at a column and a row, where they lie on the map.
    pub open spec fn tile_at(&self, x: int, y: int) -> Option<u32> {
        if self.on_map(x, y) {
            Some(self.tile(x, y))
        } else {
            None
        }
    }

    /// The place of a column and a row, where they lie on the map and can
    /// be told in 31 bits.
    pub open spec fn limited(&self, x: int, y: int) -> Option<(i32, i32)> {
        if self.on_map(x, y) && x <= i32::MAX && y <= i32::MAX {
            Some((x as i32, y as i32))
        } else {
            None
        }
    }

    /// A map of the given size with the given tiles, where there is one tile
    /// for each place and neither the sides nor the places need more than
    /// 31 bits.
    pub fn from_parts(width: u32, height: u32, indices: Vec<u32>) -> (r: Option<Self>)
        ensures
            r is Some <==> indices@.len() == width * height && width * height <= i32::MAX && width
                <= i32::MAX && height <= i32::MAX,
            r matches Some(data) ==> data.wf() && data.width == width && data.height == height
                && data.indices == indices,
    {
        if width > i32::MAX as u32 || height > i32::MAX as u32 {
            return None;
        }
        assert(width * height <= i32::MAX * i32::MAX) by (nonlinear_arith)
            requires
                0 <= width <= i32::MAX,
                0 <= height <= i32::MAX,
        ;
        let places = width as u64 * height as u64;
        if places <= i32::MAX as u64 && indices.len() as u64 == places {
            Some(Self { width, height, indices })
        } else {
            None
        }
    }

    /// The tile that a cell of a map file stands for: the files count their
    /// tiles from one, and a cell that is no number counts as the first
    /// tile. A cell with nothing in it has the highest index there is.
    pub open spec fn tile_of_cell(cell: Option<u32>) -> u32 {
        match cell {
            Some(number) => if number == 0 {
                u32::MAX
            } else {
                (number - 1) as u32
            },
            None => 0,
        }
    }

    /// The tiles of the cells of a map file, in their order.
    pub open spec fn tiles_of_cells(cells: Seq<Option<u32>>) -> Seq<u32> {
        Seq::new(cells.len(), |k: int| Self::tile_of_cell(cells[k]))
    }

    /// A map from what the first layer of a map file holds: its width and
    /// its height, each nothing where it is no number, and its cells, where
    /// they make up a map.
    pub fn from_layer(width: Option<u32>, height: Option<u32>, cells: Vec<Option<u32>>) -> (r: Option<Self>)
        ensures
            r is Some <==> cells@.len() == width.unwrap_or(0) * height.unwrap_or(0)
                && width.unwrap_or(0) * height.unwrap_or(0) <= i32::MAX && width.unwrap_or(0)
                <= i32::MAX && height.unwrap_or(0) <= i32::MAX,
            r matches Some(data) ==> data.wf() && data.width == width.unwrap_or(0) && data.height
                == height.unwrap_or(0) && data.indices@ == Self::tiles_of_cells(cells@),
    {
        let mut indices: Vec<u32> = Vec::with_capacity(cells.len());
        let mut k: usize = 0;
        while k < cells.len()
            invariant
                k <= cells@.len(),
                indices@ == Self::tiles_of_cells(cells@).take(k as int),
            decreases cells@.len() - k,
        {
            let tile = match cells[k] {
                Some(number) => if number == 0 {
                    u32::MAX
                } else {
                    number - 1
                },
                None => 0,
            };
            indices.push(tile);
            assert(indices@ =~= Self::tiles_of_cells(cells@).take(k + 1));
            k += 1;
        }
        assert(Self::tiles_of_cells(cells@).take(k as int) =~= Self::tiles_of_cells(cells@));
        let w = match width {
            Some(w) => w,
            None => 0,
        };
        let h = match height {
            Some(h) => h,
            None => 0,
        };
        Self::from_parts(w, h, indices)
    }

    /// Sets the tile at the `y * width + x`-th place of the map, where the
    /// map has such a place. Says whether it has.
    pub fn set_tile_index(&mut self, x: i32, y: i32, index: u32) -> (r: bool)
        requires
            old(self).wf(),
        ensures
            final(self).wf(),
            final(self).width == old(self).width,
            final(self).height == old(self).height,
            r == (0 <= y * old(self).width + x < old(self).width * old(self).height),
            r ==> final(self).indices@ == old(self).indices@.update(y * old(self).width + x, index),
            !r ==> final(self).indices@ == old(self).indices@,
    {
        assert(-0x4000_0000_0000_0000 <= y * self.width <= 0x4000_0000_0000_0000)
            by (nonlinear_arith)
            requires
                -0x8000_0000 <= y <= 0x7fff_ffff,
                0 <= self.width <= 0x7fff_ffff,
        ;
        let i: i64 = y as i64 * self.width as i64 + x as i64;
        if i >= 0 && i < self.width as i64 * self.height as i64 {
            self.indices[i as usize] = index;
            true
        } else {
            false
        }
    }

    /// The tile at a column and a row, where they lie on the map.
    pub fn get_tile_index(&self, x: i32, y: i32) -> (r: Option<u32>)
        requires
            self.wf(),
        ensures
            r == self.tile_at(x as int, y as int),
    {
        let w = self.width as i32;
        let h = self.height as i32;
        if x >= 0 && x < w && y >= 0 && y < h {
            proof {
                self.place_on_map(x as int, y as int);
            }
            Some(self.indices[(y * w + x) as usize])
        } else {
            None
        }
    }

    /// Every place on the map has a tile.
    pub proof fn place_on_map(&self, x: int, y: int)
        requires
            self.wf(),
            self.on_map(x, y),
        ensures
            0 <= y * self.width + x < self.width * self.height,
            0 <= y * self.width <= i32::MAX,
    {
        let w = self.width as int;
        let h = self.height as int;
        assert(0 <= y * w && y * w + w <= h * w) by (nonlinear_arith)
            requires
                0 <= y < h,
                0 <= w,
        ;
        assert(h * w == w * h) by (nonlinear_arith);
    }

    /// Every place that the first columns of a square name lies on the map.
    pub proof fn area_on_map(&self, x: int, y: int, distance: int, columns: int)
        ensures
            forall|k: int|
                0 <= k < self.area(x, y, distance, columns).len() ==> (#[trigger] self.area(
                    x,
                    y,
                    distance,
                    columns,
                )[k] matches Some(o) ==> self.on_map(o.0 as int, o.1 as int)),
        decreases columns,
    {
        if columns > 0 {
            self.area_on_map(x, y, distance, columns - 1);
        }
    }

    /// Every place that the border of the first columns of a square names
    /// lies on the map.
    pub proof fn border_on_map(&self, x: int, y: int, distance: int, columns: int)
        ensures
            forall|k: int|
                0 <= k < self.border(x, y, distance, columns).len() ==> (#[trigger] self.border(
                    x,
                    y,
                    distance,
                    columns,
                )[k] matches Some(o) ==> self.on_map(o.0 as int, o.1 as int)),
        decreases columns,
    {
        if columns > 0 {
            self.border_on_map(x, y, distance, columns - 1);
        }
    }

    /// The border of a square around a place on the map that reaches as far
    /// as the map is wide and high names no place on the map.
    pub proof fn far_border_is_off_map(&self, x: int, y: int, distance: int, columns: int)
        requires
            self.on_map(x, y),
            distance >= self.width,
            distance >= self.height,
            columns <= 2 * distance + 1,
        ensures
            forall|k: int|
                0 <= k < self.border(x, y, distance, columns).len() ==> #[trigger] self.border(
                    x,
                    y,
                    distance,
                    columns,
                )[k] is None,
        decreases columns,
    {
        if columns > 0 {
            self.far_border_is_off_map(x, y, distance, columns - 1);
        }
    }

    /// The column of places at `px` from row `y - distance` to row
    /// `y + distance`.
    pub open spec fn column(&self, px: int, y: int, distance: int) -> Seq<Option<(i32, i32)>> {
        Seq::new(
            if distance >= 0 {
                (2 * distance + 1) as nat
            } else {
                0
            },
            |j: int| self.limited(px, y - distance + j),
        )
    }

    /// The first `columns` columns of the square of places around `x` and
    /// `y` that reaches `distance` places each way, one column after the
    /// other.
    pub open spec fn area(&self, x: int, y: int, distance: int, columns: int) -> Seq<Option<(i32, i32)>>
        decreases columns,
    {
        if columns <= 0 {
            Seq::empty()
        } else {
            self.area(x, y, distance, columns - 1) + self.column(
                x - distance + columns - 1,
                y,
                distance,
            )
        }
    }

    /// What a column gives to the border of the square: all of it where it
    /// is the first or the last, and its two ends otherwise.
    pub open spec fn border_column(&self, px: int, x: int, y: int, distance: int) -> Seq<Option<(i32, i32)>> {
        if px == x - distance || px == x + distance {
            self.column(px, y, distance)
        } else {
            seq![self.limited(px, y - distance), self.limited(px, y + distance)]
        }
    }

    /// The border of the first `columns` columns of the square of places
    /// around `x` and `y` that reaches `distance` places each way.
    pub open spec fn border(&self, x: int, y: int, distance: int, columns: int) -> Seq<Option<(i32, i32)>>
        decreases columns,
    {
        if columns <= 0 {
            Seq::empty()
        } else {
            self.border(x, y, distance, columns - 1) + self.border_column(
                x - distance + columns - 1,
                x,
                y,
                distance,
            )
        }
    }

    /// The places on the border of the square around `x` and `y` that
    /// reaches `distance` places each way, column by column; those that do
    /// not lie on the map are `None`.
    pub fn get_offset_border(&self, x: i32, y: i32, distance: i32) -> (offsets: Vec<Option<(i32, i32)>>)
        ensures
            offsets@ == self.border(x as int, y as int, distance as int, 2 * distance + 1),
    {
        let mut offsets: Vec<Option<(i32, i32)>> = Vec::new();
        if distance < 0 {
            return offsets;
        }
        let first_x: i64 = x as i64 - distance as i64;
        let first_y: i64 = y as i64 - distance as i64;
        let side: i64 = 2 * distance as i64 + 1;
        let mut i: i64 = 0;
        while i < side
            invariant
                0 <= i <= side,
                distance >= 0,
                side == 2 * distance + 1,
                first_x == x - distance,
                first_y == y - distance,
                offsets@ == self.border(x as int, y as int, distance as int, i as int),
            decreases side - i,
        {
            let px = first_x + i;
            let ghost before = offsets@;
            let mut j: i64 = 0;
            while j < side
                invariant
                    0 <= j <= side,
                    0 <= i < side,
                    distance >= 0,
                    side == 2 * distance + 1,
                    first_x == x - distance,
                    first_y == y - distance,
                    px == first_x + i,
                    offsets@ == before + Self::border_part(
                        self.column(px as int, y as int, distance as int),
                        i == 0 || i == side - 1,
                        j as int,
                    ),
                decreases side - j,
            {
                let py = first_y + j;
                if i == 0 || i == side - 1 || j == 0 || j == side - 1 {
                    offsets.push(self.limit_wide(px, py));
                }
                j += 1;
                assert(offsets@ =~= before + Self::border_part(
                    self.column(px as int, y as int, distance as int),
                    i == 0 || i == side - 1,
                    j as int,
                ));
            }
            proof {
                let column = self.column(px as int, y as int, distance as int);
                let whole = i == 0 || i == side - 1;
                Self::border_part_is_border(column, whole, side as int);
                if whole {
                    assert(Self::border_part(column, whole, side as int) =~= column);
                } else {
                    assert(Self::border_part(column, whole, side as int) =~= seq![
                        self.limited(px as int, y - distance),
                        self.limited(px as int, y + distance),
                    ]);
                }
            }
            i += 1;
        }
        offsets
    }

    /// Of the first `upto` places of a column those that belong to the
    /// border: all where the column is whole, the two ends otherwise.
    pub open spec fn border_part(column: Seq<Option<(i32, i32)>>, whole: bool, upto: int) -> Seq<Option<(i32, i32)>>
        decreases upto,
    {
        if upto <= 0 {
            Seq::empty()
        } else if whole || upto - 1 == 0 || upto - 1 == column.len() - 1 {
            Self::border_part(column, whole, upto - 1).push(column[upto - 1])
        } else {
            Self::border_part(column, whole, upto - 1)
        }
    }

    /// The border part of a whole column is the column, and that of another
    /// column are its two ends, or its one place where it has no more.
    proof fn border_part_is_border(column: Seq<Option<(i32, i32)>>, whole: bool, upto: int)
        requires
            0 <= upto <= column.len(),
        ensures
            whole ==> Self::border_part(column, whole, upto) == column.take(upto),
            !whole && upto == 0 ==> Self::border_part(column, whole, upto).len() == 0,
            !whole && 0 < upto < column.len() ==> Self::border_part(column, whole, upto) == seq![
                column[0],
            ],
            !whole && upto == column.len() && upto > 1 ==> Self::border_part(column, whole, upto)
                == seq![column[0], column[upto - 1]],
            !whole && upto == column.len() && upto == 1 ==> Self::border_part(column, whole, upto)
                == seq![column[0]],
        decreases upto,
    {
        if upto > 0 {
            Self::border_part_is_border(column, whole, upto - 1);
            if whole {
                assert(Self::border_part(column, whole, upto) =~= column.take(upto));
            } else if upto == 1 {
                assert(Self::border_part(column, whole, upto) =~= seq![column[0]]);
            } else if upto < column.len() {
                assert(Self::border_part(column, whole, upto) =~= seq![column[0]]);
            } else {
                assert(Self::border_part(column, whole, upto) =~= seq![
                    column[0],
                    column[upto - 1],
                ]);
            }
        } else if whole {
            assert(Self::border_part(column, whole, upto) =~= column.take(upto));
        }
    }

    /// The places of the square around `x` and `y` that reaches `distance`
    /// places each way, column by column; those that do not lie on the map
    /// are `None`.
    pub fn get_offset_area(&self, x: i32, y: i32, distance: i32) -> (offsets: Vec<Option<(i32, i32)>>)
        ensures
            offsets@ == self.area(x as int, y as int, distance as int, 2 * distance + 1),
    {
        let mut offsets: Vec<Option<(i32, i32)>> = Vec::new();
        if distance < 0 {
            return offsets;
        }
        let first_x: i64 = x as i64 - distance as i64;
        let first_y: i64 = y as i64 - distance as i64;
        let side: i64 = 2 * distance as i64 + 1;
        let mut i: i64 = 0;
        while i < side
            invariant
                0 <= i <= side,
                distance >= 0,
                side == 2 * distance + 1,
                first_x == x - distance,
                first_y == y - distance,
                offsets@ == self.area(x as int, y as int, distance as int, i as int),
            decreases side - i,
        {
            let px = first_x + i;
            let ghost before = offsets@;
            let mut j: i64 = 0;
            while j < side
                invariant
                    0 <= j <= side,
                    distance >= 0,
                    side == 2 * distance + 1,
                    first_x == x - distance,
                    first_y == y - distance,
                    px == first_x + i,
                    offsets@ == before + self.column(px as int, y as int, distance as int).take(
                        j as int,
                    ),
                decreases side - j,
            {
                offsets.push(self.limit_wide(px, first_y + j));
                j += 1;
                assert(offsets@ =~= before + self.column(px as int, y as int, distance as int).take(
                    j as int,
                ));
            }
            assert(self.column(px as int, y as int, distance as int).take(side as int)
                =~= self.column(px as int, y as int, distance as int));
            i += 1;
        }
        offsets
    }

    /// The tiles around a place, row by row from the upper left to the
    /// lower right, with `OUTSIDE` for those that do not lie on the map.
    pub open spec fn surrounding(&self, x: int, y: int) -> Seq<u32> {
        seq![
            self.neighbor(x - 1, y - 1),
            self.neighbor(x, y - 1),
            self.neighbor(x + 1, y - 1),
            self.neighbor(x - 1, y),
            self.neighbor(x + 1, y),
            self.neighbor(x - 1, y + 1),
            self.neighbor(x, y + 1),
            self.neighbor(x + 1, y + 1),
        ]
    }

    /// The tile at a place, and `OUTSIDE` where the place does not lie on
    /// the map.
    pub open spec fn neighbor(&self, x: int, y: int) -> u32 {
        match self.tile_at(x, y) {
            Some(tile) => tile,
            None => OUTSIDE,
        }
    }

    /// The eight tiles around a place, row by row.
    pub fn get_surrounding_indices(&self, x: i32, y: i32) -> (r: [u32; 8])
        requires
            self.wf(),
        ensures
            r@ == self.surrounding(x as int, y as int),
    {
        let r = [
            self.tile_or_outside(x as i64 - 1, y as i64 - 1),
            self.tile_or_outside(x as i64, y as i64 - 1),
            self.tile_or_outside(x as i64 + 1, y as i64 - 1),
            self.tile_or_outside(x as i64 - 1, y as i64),
            self.tile_or_outside(x as i64 + 1, y as i64),
            self.tile_or_outside(x as i64 - 1, y as i64 + 1),
            self.tile_or_outside(x as i64, y as i64 + 1),
            self.tile_or_outside(x as i64 + 1, y as i64 + 1),
        ];
        assert(r@ =~= self.surrounding(x as int, y as int));
        r
    }

    fn tile_or_outside(&self, x: i64, y: i64) -> (r: u32)
        requires
            self.wf(),
        ensures
            r == self.neighbor(x as int, y as int),
    {
        if x >= 0 && x < self.width as i64 && y >= 0 && y < self.height as i64 {
            match self.get_tile_index(x as i32, y as i32) {
                Some(tile) => tile,
                None => OUTSIDE,
            }
        } else {
            OUTSIDE
        }
    }

    /// The place of a column and a row, where they lie on the map.
    pub fn limit_offset(&self, x: i32, y: i32) -> (r: Option<(i32, i32)>)
        ensures
            r == self.limited(x as int, y as int),
    {
        self.limit_wide(x as i64, y as i64)
    }

    fn limit_wide(&self, x: i64, y: i64) -> (r: Option<(i32, i32)>)
        ensures
            r == self.limited(x as int, y as int),
    {
        if x >= 0 && x < self.width as i64 && y >= 0 && y < self.height as i64 && x
            <= i32::MAX as i64 && y <= i32::MAX as i64 {
            Some((x as i32, y as i32))
        } else {
            None
        }
    }
}

impl Default for TileData {
    fn default() -> (r: Self)
        ensures
            r.wf(),
            r.width == 0,
            r.height == 0,
            r.indices@.len() == 0,
    {
        Self { width: 0, height: 0, indices: Vec::new() }
    }
}

} // verus!
