use stratland::tiles::{Terrain, TerrainData, TileData, TileSource};

fn terrain() -> Terrain {
    Terrain::new(
        "Forest".to_string(),
        [10, 11, 12, 13, 14, 15, 16, 17, 18, 19, 20, 21, 22],
        vec![30, 31],
        vec![40, 41, 42],
    )
}

fn map(width: u32, height: u32, tiles: &[u32]) -> TileData {
    TileData::from_parts(width, height, tiles.to_vec()).unwrap()
}

#[test]
fn map_needs_one_tile_for_each_place() {
    assert!(TileData::from_parts(2, 2, vec![0; 4]).is_some());
    assert!(TileData::from_parts(2, 2, vec![0; 3]).is_none());
    assert!(TileData::from_parts(0, 5, vec![]).is_some());
    assert!(TileData::from_parts(u32::MAX, 0, vec![]).is_none());
    let empty = TileData::default();
    assert_eq!((empty.width, empty.height, empty.indices.len()), (0, 0, 0));
}

#[test]
fn tiles_are_read_by_column_and_row() {
    let data = map(3, 2, &[1, 2, 3, 4, 5, 6]);
    assert_eq!(data.get_tile_index(0, 0), Some(1));
    assert_eq!(data.get_tile_index(2, 0), Some(3));
    assert_eq!(data.get_tile_index(1, 1), Some(5));
    assert_eq!(data.get_tile_index(3, 0), None);
    assert_eq!(data.get_tile_index(0, 2), None);
    assert_eq!(data.get_tile_index(-1, 0), None);
    assert_eq!(data.get_tile_index(0, -1), None);
    assert_eq!(data.limit_offset(2, 1), Some((2, 1)));
    assert_eq!(data.limit_offset(3, 1), None);
}

#[test]
fn tiles_are_set_by_place() {
    let mut data = map(3, 2, &[1, 2, 3, 4, 5, 6]);
    assert!(data.set_tile_index(1, 1, 9));
    assert_eq!(data.indices, vec![1, 2, 3, 4, 9, 6]);
    // A column before the first counts back into the row above.
    assert!(data.set_tile_index(-1, 1, 7));
    assert_eq!(data.indices, vec![1, 2, 7, 4, 9, 6]);
    assert!(!data.set_tile_index(0, 2, 8));
    assert!(!data.set_tile_index(-1, 0, 8));
    assert!(!data.set_tile_index(i32::MIN, i32::MIN, 8));
    assert!(!data.set_tile_index(i32::MAX, i32::MAX, 8));
    assert_eq!(data.indices, vec![1, 2, 7, 4, 9, 6]);
}

#[test]
fn border_goes_column_by_column() {
    let data = map(3, 3, &[0; 9]);
    assert_eq!(
        data.get_offset_border(1, 1, 1),
        vec![
            Some((0, 0)),
            Some((0, 1)),
            Some((0, 2)),
            Some((1, 0)),
            Some((1, 2)),
            Some((2, 0)),
            Some((2, 1)),
            Some((2, 2)),
        ]
    );
    assert_eq!(data.get_offset_border(1, 1, 0), vec![Some((1, 1))]);
    assert_eq!(data.get_offset_border(1, 1, -1), vec![]);
    assert_eq!(data.get_offset_border(1, 1, 2), vec![None; 16]);
    assert_eq!(
        data.get_offset_border(0, 0, 1),
        vec![None, None, None, None, Some((0, 1)), None, Some((1, 0)), Some((1, 1))]
    );
}

#[test]
fn area_goes_column_by_column() {
    let data = map(3, 3, &[0; 9]);
    assert_eq!(
        data.get_offset_area(0, 0, 1),
        vec![
            None,
            None,
            None,
            None,
            Some((0, 0)),
            Some((0, 1)),
            None,
            Some((1, 0)),
            Some((1, 1)),
        ]
    );
    assert_eq!(data.get_offset_area(2, 2, 0), vec![Some((2, 2))]);
    assert_eq!(data.get_offset_area(2, 2, -3), vec![]);
    assert_eq!(data.get_offset_area(i32::MAX, i32::MIN, 1), vec![None; 9]);
}

#[test]
fn surrounding_tiles_go_row_by_row() {
    let data = map(3, 3, &[1, 2, 3, 4, 5, 6, 7, 8, 9]);
    assert_eq!(data.get_surrounding_indices(1, 1), [1, 2, 3, 4, 6, 7, 8, 9]);
    assert_eq!(data.get_surrounding_indices(0, 0), [4096, 4096, 4096, 4096, 2, 4096, 4, 5]);
    assert_eq!(data.get_surrounding_indices(i32::MAX, i32::MIN), [4096; 8]);
}

#[test]
fn tile_data_is_a_tile_source() {
    let mut data = map(3, 2, &[1, 2, 3, 4, 5, 6]);
    assert_eq!(TileSource::width(&data), 3);
    assert_eq!(TileSource::height(&data), 2);
    assert_eq!(TileSource::index(&data, 4), 5);
    assert_eq!(TileSource::indices(&data), &[1, 2, 3, 4, 5, 6]);
    assert!(TileSource::set_tile_index(&mut data, 0, 0, 9));
    assert_eq!(TileSource::get_tile_index(&data, 0, 0), Some(9));
}

#[test]
fn terrain_knows_its_tiles() {
    let terrain = terrain();
    assert!(terrain.is_group_tile(10) && terrain.is_group_tile(22));
    assert!(!terrain.is_group_tile(30) && !terrain.is_group_tile(9));
    assert!(terrain.is_standalone_tile(31));
    assert!(!terrain.is_standalone_tile(14));
    assert!(terrain.has_tile(14) && terrain.has_tile(30) && terrain.has_tile(42));
    assert!(!terrain.has_tile(43) && !terrain.has_tile(4096));
}

#[test]
fn places_pick_their_tiles() {
    let terrain = terrain();
    // (2 * 233 + 5 * 107 - 5 / 3) * 41 = 41000, the third of three
    assert_eq!(terrain.reduced_tile(2, 5), 42);
    assert_eq!(terrain.reduced_tile(0, 0), 40);
    // (7 * 67 + 1 * 293 + 7 / 5) * 13 = 9919, the second of two
    assert_eq!(terrain.standalone_tile(7, 1), 31);
    assert_eq!(terrain.standalone_tile(0, 0), 30);
    // Far outside of any map the places still pick a tile.
    assert!(terrain.has_tile(terrain.reduced_tile(u32::MAX, u32::MAX)));
    assert!(terrain.has_tile(terrain.standalone_tile(u32::MAX, u32::MAX)));
}

#[test]
fn flags_tell_terrain_from_the_rest() {
    let terrain = terrain();
    assert_eq!(
        terrain.to_flags([10, 30, 4096, 0, 22, 40, 14, 9]),
        [true, false, true, false, true, false, true, false]
    );
}

#[test]
fn tiles_in_a_square_do_not_stand_alone() {
    let terrain = terrain();
    let with = |set: &[usize]| {
        let mut flags = [false; 8];
        for k in set {
            flags[*k] = true;
        }
        flags
    };
    for square in [[1, 2, 4], [4, 7, 6], [6, 5, 3], [3, 0, 1]] {
        assert_eq!(terrain.flags_to_standalone(7, 1, with(&square)), None);
    }
    assert_eq!(terrain.flags_to_standalone(7, 1, with(&[])), Some(31));
    assert_eq!(terrain.flags_to_standalone(7, 1, with(&[1, 4, 6, 3])), Some(31));
    assert_eq!(terrain.flags_to_standalone(7, 1, with(&[0, 2, 5, 7])), Some(31));
    assert_eq!(terrain.flags_to_standalone(7, 1, with(&[1, 2])), Some(31));
}

#[test]
fn group_tiles_fit_their_neighbours() {
    let terrain = terrain();
    let without = |open: &[usize]| {
        let mut flags = [true; 8];
        for k in open {
            flags[*k] = false;
        }
        flags
    };
    assert_eq!(terrain.flags_to_grouped(without(&[])), 14);
    assert_eq!(terrain.flags_to_grouped(without(&[0, 2, 5, 7])), 14);
    assert_eq!(terrain.flags_to_grouped(without(&[1])), 11);
    assert_eq!(terrain.flags_to_grouped(without(&[4])), 15);
    assert_eq!(terrain.flags_to_grouped(without(&[6])), 17);
    assert_eq!(terrain.flags_to_grouped(without(&[3])), 13);
    assert_eq!(terrain.flags_to_grouped(without(&[1, 4])), 12);
    assert_eq!(terrain.flags_to_grouped(without(&[4, 6])), 18);
    assert_eq!(terrain.flags_to_grouped(without(&[6, 3])), 16);
    assert_eq!(terrain.flags_to_grouped(without(&[3, 1])), 10);
    assert_eq!(terrain.flags_to_grouped(without(&[1, 6])), 11);
    assert_eq!(terrain.flags_to_grouped(without(&[1, 4, 6, 3])), 12);
}

#[test]
fn consumed_center_opens_the_group() {
    let terrain = terrain();
    let mut data = map(3, 3, &[14; 9]);
    assert!(terrain.consume_tile(&mut data, 1, 1));
    // (233 + 107) * 41 = 13940, the third of three
    assert_eq!(data.indices, vec![14, 17, 14, 15, 42, 13, 14, 11, 14]);
}

#[test]
fn lone_neighbour_stands_alone() {
    let terrain = terrain();
    let mut tiles = vec![0; 25];
    tiles[2 * 5 + 1] = 14;
    tiles[2 * 5 + 2] = 14;
    let mut data = map(5, 5, &tiles);
    assert!(terrain.consume_tile(&mut data, 2, 2));
    let mut expected = vec![0; 25];
    // (67 + 2 * 293) * 13 = 8489, the second of two
    expected[2 * 5 + 1] = 31;
    // (2 * 233 + 2 * 107) * 41 = 27880, the second of three
    expected[2 * 5 + 2] = 41;
    assert_eq!(data.indices, expected);
}

#[test]
fn standalone_tiles_can_be_consumed() {
    let terrain = terrain();
    let mut data = map(2, 1, &[30, 7]);
    assert!(terrain.consume_tile(&mut data, 0, 0));
    assert_eq!(data.indices, vec![40, 7]);
}

#[test]
fn other_tiles_are_not_consumed() {
    let terrain = terrain();
    let mut data = map(2, 2, &[40, 7, 14, 14]);
    assert!(!terrain.consume_tile(&mut data, 0, 0));
    assert!(!terrain.consume_tile(&mut data, 1, 0));
    assert!(!terrain.consume_tile(&mut data, 2, 0));
    assert!(!terrain.consume_tile(&mut data, -1, -1));
    assert_eq!(data.indices, vec![40, 7, 14, 14]);
    let bare = Terrain::new("Rocks".to_string(), [14; 13], vec![30], vec![]);
    assert!(!bare.consume_tile(&mut data, 0, 1));
    assert_eq!(data.indices, vec![40, 7, 14, 14]);
}

#[test]
fn terrain_data_arranges_the_group() {
    let data = TerrainData {
        id: 1,
        name: "Forest".to_string(),
        standalone: vec![30],
        reduced: vec![40],
        group: (100..113).collect(),
    };
    let terrain = data.terrain().unwrap();
    assert_eq!(terrain.name, "Forest");
    assert_eq!(terrain.group, [106, 103, 109, 105, 100, 108, 111, 110, 112, 107, 104, 102, 101]);
    assert_eq!(terrain.standalone, vec![30]);
    assert_eq!(terrain.reduced, vec![40]);
    let short = TerrainData { id: 1, name: String::new(), standalone: vec![], reduced: vec![], group: vec![1; 12] };
    assert!(short.terrain().is_none());
}
