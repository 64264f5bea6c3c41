//! Where a tile grid gets its tiles from.

use vstd::prelude::*;
use crate::tiles::tiledata::TileData;

verus! {

/// Whether a source of the given size has a `y * width + x`-th place.
pub open spec fn has_place(size: (u32, u32), x: int, y: int) -> bool {
    0 <= y * size.0 + x < size.0 * size.1
}

/// A source of tiles for a grid.
pub trait TileSource: Default {
    /// Whether the source holds one tile for each of its places.
    spec fn valid(&self) -> bool;

    /// The number of columns and of rows of the source.
    spec fn size(&self) -> (u32, u32);

    /// The tiles of the source, row by row.
    spec fn tiles(&self) -> Seq<u32>;

    /// A valid source holds one tile for each place of each row.
    proof fn valid_is_filled(&self)
        requires
            self.valid(),
        ensures
            self.tiles().len() == self.size().0 * self.size().1,
    ;

    /// Sets the tile at the `y * width + x`-th place of the source, where
    /// the source has such a place. Says whether it has.
    fn set_tile_index(&mut self, x: i32, y: i32, index: u32) -> (r: bool)
        requires
            old(self).valid(),
        ensures
            final(self).valid(),
            final(self).size() == old(self).size(),
            r == has_place(old(self).size(), x as int, y as int),
            r ==> final(self).tiles() == old(self).tiles().update(
                y * old(self).size().0 + x,
                index,
            ),
            !r ==> final(self).tiles() == old(self).tiles(),
    ;

    fn get_tile_index(&self, x: i32, y: i32) -> (r: Option<u32>)
        requires
            self.valid(),
        ensures
            r is Some <==> 0 <= x < self.size().0 && 0 <= y < self.size().1,
            r matches Some(tile) ==> tile == self.tiles()[y * self.size().0 + x],
    ;

    fn width(&self) -> (r: u32)
        ensures
            r == self.size().0,
    ;

    fn height(&self) -> (r: u32)
        ensures
            r == self.size().1,
    ;

    fn index(&self, index: usize) -> (r: u32)
        requires
            index < self.tiles().len(),
        ensures
            r == self.tiles()[index as int],
    ;

    fn indices(&self) -> (r: &[u32])
        ensures
            r@ == self.tiles(),
    ;
}

impl TileSource for TileData {
    open spec fn valid(&self) -> bool {
        self.wf()
    }

    open spec fn size(&self) -> (u32, u32) {
        (self.width, self.height)
    }

    open spec fn tiles(&self) -> Seq<u32> {
        self.indices@
    }

    proof fn valid_is_filled(&self) {
    }

    fn set_tile_index(&mut self, x: i32, y: i32, index: u32) -> (r: bool) {
        TileData::set_tile_index(self, x, y, index)
    }

    fn get_tile_index(&self, x: i32, y: i32) -> (r: Option<u32>) {
        TileData::get_tile_index(self, x, y)
    }

    fn width(&self) -> (r: u32) {
        self.width
    }

    fn height(&self) -> (r: u32) {
        self.height
    }

    fn index(&self, index: usize) -> (r: u32) {
        self.indices[index]
    }

    fn indices(&self) -> (r: &[u32]) {
        self.indices.as_slice()
    }
}

} // verus!
