use stratland::tiles::tileset::{group_tiles, tile_edges};
use stratland::tiles::{Terrain, TerrainGrid, TerrainType, TileData, TileSet};

fn forest() -> Terrain {
    Terrain::new(
        "Forest".to_string(),
        [10, 11, 12, 13, 14, 15, 16, 17, 18, 19, 20, 21, 22],
        vec![30],
        vec![40],
    )
}

fn rocks() -> Terrain {
    Terrain::new("Rocks".to_string(), [50; 13], vec![14], vec![60])
}

fn tileset() -> TileSet {
    let mut set = TileSet::new(8, 4);
    set.insert(forest());
    set.insert(rocks());
    set
}

/// A grid of 3 by 2 tiles of 32 pixels on a map of 20 by 10 tiles.
fn grid() -> TerrainGrid {
    let mut grid = TerrainGrid::new(96, 64, 32, tileset()).unwrap();
    grid.set_source(TileData::from_parts(20, 10, (0..200).collect()).unwrap());
    grid
}

#[test]
fn edges_give_terrain_and_sum() {
    assert_eq!(tile_edges(&vec![Some(2), Some(1), None, Some(3)]), Some((1, 1 + 2 + 8)));
    assert_eq!(tile_edges(&vec![None, None, Some(0), None]), Some((0, 4)));
    assert_eq!(tile_edges(&vec![Some(7)]), Some((7, 1)));
    assert_eq!(tile_edges(&vec![None, None, None, None]), None);
    assert_eq!(tile_edges(&vec![]), None);
    assert_eq!(tile_edges(&vec![Some(1); 31]), Some((1, 0x7fff_ffff)));
    assert_eq!(tile_edges(&vec![Some(1); 32]), None);
}

#[test]
fn tiles_are_grouped_by_terrain() {
    let groups = group_tiles(vec![(1, 3, 10), (0, 15, 4), (1, 12, 11), (0, 1, 5), (1, 3, 9), (4, 2, 1)]);
    assert_eq!(groups, vec![(0, vec![4, 5]), (1, vec![11, 10, 9]), (4, vec![1])]);
    assert!(group_tiles(vec![]).is_empty());
}

#[test]
fn terrains_are_found_by_name_and_tile() {
    let mut set = tileset();
    assert_eq!((set.cols, set.rows), (8, 4));
    assert_eq!(set.terrain(&"Rocks".to_string()).unwrap().name, "Rocks");
    assert!(set.terrain(&"Water".to_string()).is_none());
    // Forest comes first and owns 14 as a group tile, rocks only as a standalone tile.
    assert_eq!(set.get_tile_terrain(14).unwrap().name, "Forest");
    assert_eq!(set.get_tile_terrain(60).unwrap().name, "Rocks");
    assert_eq!(set.owner_index(60), Some(1));
    assert!(set.get_tile_terrain(99).is_none());
    // A terrain with a known name takes the place of the one before.
    set.insert(Terrain::new("Forest".to_string(), [1; 13], vec![], vec![]));
    assert_eq!(set.terrains.len(), 2);
    assert_eq!(set.get_tile_terrain(1).unwrap().name, "Forest");
    assert_eq!(set.get_tile_terrain(14).unwrap().name, "Rocks");
}

#[test]
fn tiles_have_cells_in_the_image() {
    let set = tileset();
    assert_eq!(set.cell(0), (0, 0));
    assert_eq!(set.cell(7), (7, 0));
    assert_eq!(set.cell(8), (0, 1));
    assert_eq!(set.cell(29), (5, 3));
}

#[test]
fn groups_become_terrains() {
    let types = vec![
        TerrainType { name: "Forest".to_string(), standalone: vec![30], reduced: vec![40] },
        TerrainType { name: "Rocks".to_string(), standalone: vec![], reduced: vec![] },
    ];
    let mut set = TileSet::new(8, 4);
    assert!(set.add_groups(vec![(1, (100..113).collect()), (0, (0..13).collect())], &types));
    assert_eq!(set.terrains.len(), 2);
    assert_eq!(set.terrains[0].name, "Rocks");
    assert_eq!(set.terrains[0].group, [106, 103, 109, 105, 100, 108, 111, 110, 112, 107, 104, 102, 101]);
    assert_eq!(set.terrains[1].standalone, vec![30]);
    assert_eq!(set.terrains[1].reduced, vec![40]);
    // A group of an unknown kind, or one that is too short, ends the list.
    let mut set = TileSet::new(8, 4);
    assert!(!set.add_groups(vec![(0, (0..13).collect()), (2, (0..13).collect())], &types));
    assert_eq!(set.terrains.len(), 1);
    assert!(!set.add_groups(vec![(1, (0..12).collect())], &types));
    assert_eq!(set.terrains.len(), 1);
}

#[test]
fn new_grid_fits_the_view() {
    let grid = TerrainGrid::new(640, 480, 32, tileset()).unwrap();
    assert_eq!((grid.width, grid.height), (20, 15));
    assert_eq!((grid.cols, grid.rows), (28, 23));
    assert_eq!(grid.border, 4);
    assert!(grid.dirty);
    assert_eq!((grid.tx, grid.ty, grid.ox, grid.oy, grid.gx, grid.gy), (0, 0, 0, 0, 0, 0));
    assert_eq!(grid.source().indices.len(), 0);
    assert!(TerrainGrid::new(640, 480, 0, tileset()).is_none());
    assert!(TerrainGrid::new(u32::MAX, 480, 1, tileset()).is_none());
    assert_eq!(grid.tileset().terrains.len(), 2);
}

#[test]
fn scrolling_stops_at_the_edges_of_the_map() {
    let mut grid = grid();
    assert_eq!(grid.limit(-5, 70), (0, 70));
    // 17 tiles of 32 pixels are left to the right, 8 below.
    assert_eq!(grid.limit(10_000, 10_000), (544, 256));
    assert_eq!(grid.limit(i32::MIN, i32::MAX), (0, 256));
    grid.dirty = false;
    assert_eq!(grid.scroll_to(100, 40), (100, 40));
    assert_eq!((grid.tx, grid.ox, grid.ty, grid.oy), (3, 4, 1, 8));
    assert_eq!((grid.gx, grid.gy), (0, 0));
    assert!(!grid.dirty);
    assert_eq!(grid.view_offset(), (100, 40));
    assert_eq!(grid.scroll_to(10_000, -3), (544, 0));
    assert_eq!((grid.tx, grid.ox, grid.ty, grid.oy), (17, 0, 0, 0));
    assert_eq!((grid.gx, grid.gy), (4, 0));
    assert!(grid.dirty);
    assert_eq!(grid.view_offset(), (544 % 128, 0));
}

#[test]
fn small_maps_do_not_scroll() {
    let mut grid = TerrainGrid::new(96, 64, 32, tileset()).unwrap();
    grid.set_source(TileData::from_parts(2, 1, vec![0, 0]).unwrap());
    assert_eq!(grid.scroll_to(50, 50), (0, 0));
}

#[test]
fn screen_points_map_to_tiles() {
    let mut grid = grid();
    assert_eq!(grid.screen_to_grid(0, 0), (0, 0));
    assert_eq!(grid.screen_to_grid(31, 32), (0, 1));
    assert_eq!(grid.screen_to_grid(-10, -10), (0, 0));
    grid.scroll_to(100, 40);
    // 4 pixels into the fourth column, 8 into the second row
    assert_eq!(grid.screen_to_grid(0, 0), (3, 1));
    assert_eq!(grid.screen_to_grid(28, 24), (4, 2));
    assert_eq!(grid.screen_to_grid(10_000, 10_000), (3 + 17, 1 + 8));
}

#[test]
fn tiles_near_the_window_are_within_the_grid() {
    let mut grid = grid();
    assert!(grid.tile_within_screen_grid(0, 0, 1));
    assert!(grid.tile_within_screen_grid(-1, -1, 1));
    assert!(!grid.tile_within_screen_grid(-2, 0, 1));
    assert!(grid.tile_within_screen_grid(3, 2, 1));
    assert!(!grid.tile_within_screen_grid(4, 0, 1));
    assert!(!grid.tile_within_screen_grid(0, 3, 1));
    grid.scroll_to(32 * 9, 0);
    assert!(grid.tile_within_screen_grid(8, 0, 0));
    assert!(grid.tile_within_screen_grid(10, 1, 0));
    assert!(!grid.tile_within_screen_grid(7, 0, 0));
    assert!(!grid.tile_within_screen_grid(11, 0, 0));
    assert!(!grid.tile_within_screen_grid(0, 0, i32::MIN));
}

#[test]
fn dirty_grid_gives_its_tiles_once() {
    let mut grid = TerrainGrid::new(32, 32, 32, tileset()).unwrap();
    grid.set_source(TileData::from_parts(3, 2, vec![1, 2, 3, 4, 5, 6]).unwrap());
    let tiles = grid.update_tiles().unwrap();
    // The grid of 9 by 9 starts four tiles before the map and counts the places of the
    // map on, row by row: the place of column x and row y is (y - 4) * 3 + (x - 4).
    assert_eq!(
        tiles,
        vec![
            (7, 3, 1),
            (8, 3, 2),
            (4, 4, 1),
            (5, 4, 2),
            (6, 4, 3),
            (7, 4, 4),
            (8, 4, 5),
            (1, 5, 1),
            (2, 5, 2),
            (3, 5, 3),
            (4, 5, 4),
            (5, 5, 5),
            (6, 5, 6),
            (0, 6, 3),
            (1, 6, 4),
            (2, 6, 5),
            (3, 6, 6),
            (0, 7, 6),
        ]
    );
    assert!(!grid.dirty);
    assert!(grid.update_tiles().is_none());
    grid.set_tile_index(0, 0, 9);
    assert!(grid.dirty);
    assert_eq!(grid.get_tile_index(0, 0), Some(9));
    grid.dirty = false;
    grid.set_tile_index(5, 5, 9);
    assert!(!grid.dirty);
    grid.source_mut().indices[1] = 7;
    assert_eq!(grid.get_tile_index(1, 0), Some(7));
    assert_eq!(grid.get_tile_index(3, 0), None);
}

#[test]
fn grid_consumes_the_terrain_of_a_tile() {
    let mut grid = TerrainGrid::new(96, 96, 32, tileset()).unwrap();
    grid.set_source(TileData::from_parts(3, 3, vec![14, 14, 14, 14, 14, 14, 14, 14, 50]).unwrap());
    grid.dirty = false;
    assert_eq!(grid.get_tile_terrain(1, 1).unwrap().name, "Forest");
    assert_eq!(grid.get_tile_terrain(2, 2).unwrap().name, "Rocks");
    assert!(grid.get_tile_terrain(3, 3).is_none());
    assert_eq!(grid.consume_tile(1, 1).unwrap().name, "Forest");
    assert!(grid.dirty);
    // The rocks in the corner are no forest: the tiles next to them close two sides.
    assert_eq!(grid.source().indices, vec![14, 17, 14, 15, 40, 16, 14, 12, 50]);
    grid.dirty = false;
    // What is left of the forest cannot be consumed again.
    assert!(grid.consume_tile(1, 1).is_none());
    assert!(grid.consume_tile(9, 9).is_none());
    assert!(!grid.dirty);
    assert_eq!(grid.consume_tile(2, 2).unwrap().name, "Rocks");
    assert_eq!(grid.source().indices[8], 60);
}
