use vollmond::tilemap::pyxeledit::{
    get_tile_rectangles, pyxel_rotation, remodel, Layers, PyxelTilemap, Tile, EMPTY_TILE,
};
use vollmond::tilemap::{Rotation, Tilemap, NO_LAYER};
use vollmond::utils::{Rect, Vec2};

fn atlas() -> Rect {
    Rect::new(0, 0, 104, 352)
}

fn layer(name: &str, tiles: Vec<Tile>) -> Layers {
    Layers { number: 0, tiles, name: name.to_string() }
}

#[test]
fn rotation_codes() {
    assert_eq!(pyxel_rotation(0), Rotation::Deg0);
    assert_eq!(pyxel_rotation(1), Rotation::Deg90);
    assert_eq!(pyxel_rotation(2), Rotation::Deg180);
    assert_eq!(pyxel_rotation(3), Rotation::Deg270);
    assert_eq!(pyxel_rotation(4), Rotation::Deg0);
    assert_eq!(pyxel_rotation(-1), Rotation::Deg0);
    assert_eq!(pyxel_rotation(i8::MIN), Rotation::Deg0);
}

#[test]
fn new_tile_has_nothing_derived() {
    let tile = Tile::new(5, 1, 2, true, 9, 3);
    assert_eq!(tile.id, 5);
    assert_eq!((tile.x, tile.y), (1, 2));
    assert!(tile.flip_x);
    assert_eq!(tile.index, 9);
    assert_eq!(tile.rotation_id, 3);
    assert_eq!(tile.position_x, None);
    assert_eq!(tile.position_y, None);
    assert_eq!(tile.rotation, None);
    assert_eq!(tile.dest_size, None);
}

#[test]
fn remodel_derives_position_rotation_and_size() {
    let mut tile = Tile::new(5, 3, 2, false, 0, 1);
    tile.remodel(8, 16);
    assert_eq!(tile.position_x, Some(24));
    assert_eq!(tile.position_y, Some(32));
    assert_eq!(tile.rotation, Some(Rotation::Deg90));
    assert_eq!(tile.dest_size, Some(Vec2::new(8, 16)));
    assert_eq!(tile.id, 5);
}

#[test]
fn remodel_of_a_mirrored_tile_negates_the_width_and_does_not_shift() {
    for code in 0..4 {
        let mut tile = Tile::new(5, 3, 2, true, 0, code);
        tile.remodel(8, 16);
        assert_eq!(tile.position_x, Some(24));
        assert_eq!(tile.position_y, Some(32));
        assert_eq!(tile.dest_size, Some(Vec2::new(-8, 16)));
    }
}

#[test]
fn remodel_leaves_out_what_does_not_fit() {
    let mut tile = Tile::new(5, i32::MAX, -3, true, 0, 0);
    tile.remodel(i32::MIN, 8);
    assert_eq!(tile.position_x, None);
    assert_eq!(tile.position_y, Some(-24));
    assert_eq!(tile.dest_size, None);
    let mut wide = Tile::new(5, 2, 0, false, 0, 0);
    wide.remodel(i32::MAX, 1);
    assert_eq!(wide.position_x, None);
    assert_eq!(wide.dest_size, Some(Vec2::new(i32::MAX, 1)));
}

#[test]
fn remodel_drops_the_tiles_that_mark_an_empty_cell() {
    assert_eq!(EMPTY_TILE, -1);
    let mut authored = PyxelTilemap {
        tileshigh: 2,
        tileswide: 2,
        tile_height: 8,
        tile_width: 8,
        layers: vec![
            layer("a", vec![Tile::new(-1, 0, 0, false, 0, 0), Tile::new(4, 1, 0, false, 1, 0)]),
            layer("b", vec![Tile::new(-1, 0, 0, false, 0, 0), Tile::new(-1, 1, 1, false, 3, 0)]),
            layer(
                "c",
                vec![
                    Tile::new(7, 0, 1, false, 2, 2),
                    Tile::new(-1, 1, 0, false, 1, 0),
                    Tile::new(0, 1, 1, true, 3, 0),
                ],
            ),
        ],
    };
    remodel(&mut authored);
    assert_eq!(authored.layers.len(), 3);
    assert_eq!(authored.layers[0].tiles.len(), 1);
    assert_eq!(authored.layers[0].tiles[0].id, 4);
    assert_eq!(authored.layers[0].tiles[0].position_x, Some(8));
    assert_eq!(authored.layers[1].tiles.len(), 0);
    assert_eq!(authored.layers[2].tiles.len(), 2);
    assert_eq!(authored.layers[2].tiles[0].id, 7);
    assert_eq!(authored.layers[2].tiles[0].rotation, Some(Rotation::Deg180));
    assert_eq!(authored.layers[2].tiles[1].id, 0);
    assert_eq!(authored.layers[2].tiles[1].dest_size, Some(Vec2::new(-8, 8)));
    assert_eq!(authored.layers[0].name, "a");
    assert_eq!(authored.layers[2].name, "c");
    assert_eq!((authored.tileswide, authored.tileshigh), (2, 2));
}

#[test]
fn import_reverses_the_layers() {
    let names = ["front", "map", "logic", "background", "sky"];
    let layers: Vec<Layers> = names
        .iter()
        .enumerate()
        .map(|(i, name)| layer(name, vec![Tile::new(i as i32, 0, 0, false, 0, 0)]))
        .collect();
    let authored = PyxelTilemap::new(1, 1, 8, 8, layers);
    let map = Tilemap::from_pyxeledit(atlas(), &authored).unwrap();
    for (i, name) in names.iter().enumerate() {
        assert_eq!(map.get_layer_id(name), 4 - i);
        assert_eq!(map.get_layer_name(4 - i), *name);
        assert_eq!(map.get_id_at(4 - i, 0, 0), Some(i as u32));
    }
    assert_eq!(map.get_layer_name(5), "");
}

#[test]
fn import_of_no_layers_gives_a_map_without_layers() {
    let authored = PyxelTilemap::new(3, 3, 8, 8, vec![]);
    let map = Tilemap::from_pyxeledit(atlas(), &authored).unwrap();
    assert_eq!(map.get_layer_id(""), NO_LAYER);
    assert_eq!(map.get_id_at(0, 0, 0), None);
    assert_eq!(map.draw(Vec2::new(0, 0), None).unwrap().len(), 0);
}

#[test]
fn import_leaves_out_the_tiles_that_mark_an_empty_cell() {
    let layers = vec![layer(
        "map",
        vec![
            Tile::new(-1, 0, 0, false, 0, 0),
            Tile::new(5, 1, 0, false, 1, 0),
            Tile::new(-1, 0, 1, false, 2, 0),
            Tile::new(-1, 1, 1, false, 3, 0),
        ],
    )];
    let authored = PyxelTilemap::new(2, 2, 8, 8, layers);
    let map = Tilemap::from_pyxeledit(atlas(), &authored).unwrap();
    assert_eq!(map.get_id_at(0, 0, 0), None);
    assert_eq!(map.get_id_at(0, 1, 0), Some(5));
    assert_eq!(map.get_id_at(0, 0, 1), None);
    assert_eq!(map.get_id_at(0, 1, 1), None);
    assert_eq!(map.draw(Vec2::new(0, 0), None).unwrap().len(), 1);
}

#[test]
fn import_keeps_the_last_of_two_tiles_in_a_cell() {
    let layers = vec![layer(
        "map",
        vec![Tile::new(5, 1, 0, false, 1, 0), Tile::new(6, 1, 0, true, 1, 2)],
    )];
    let authored = PyxelTilemap::new(1, 2, 8, 8, layers);
    let map = Tilemap::from_pyxeledit(atlas(), &authored).unwrap();
    assert_eq!(map.get_id_at(0, 1, 0), Some(6));
    let commands = map.draw(Vec2::new(0, 0), None).unwrap();
    assert_eq!(commands.len(), 1);
    assert_eq!(commands[0].rotation, Rotation::Deg180);
    assert_eq!(commands[0].dest_size, Vec2::new(-8, 8));
    assert_eq!((commands[0].x, commands[0].y), (8, 0));
}

#[test]
fn import_refuses_a_tile_outside_the_map() {
    for (x, y) in [(2, 0), (0, 2), (-1, 0), (0, -1)] {
        let authored =
            PyxelTilemap::new(2, 2, 8, 8, vec![layer("map", vec![Tile::new(5, x, y, false, 0, 0)])]);
        assert!(!authored.is_importable());
        assert!(Tilemap::from_pyxeledit(atlas(), &authored).is_none());
    }
}

#[test]
fn import_refuses_a_negative_identifier_that_is_no_mark() {
    let authored =
        PyxelTilemap::new(2, 2, 8, 8, vec![layer("map", vec![Tile::new(-2, 0, 0, false, 0, 0)])]);
    assert!(!authored.is_importable());
    assert!(Tilemap::from_pyxeledit(atlas(), &authored).is_none());
}

#[test]
fn import_refuses_sizes_that_suit_no_map() {
    for (high, wide, tile_height, tile_width) in [
        (2, 2, 0, 8),
        (2, 2, 8, 0),
        (2, 2, -8, 8),
        (-1, 2, 8, 8),
        (2, -1, 8, 8),
        (2, i64::from(i32::MAX), 8, 8),
        (i64::MAX, i64::MAX, 1, 1),
    ] {
        let authored = PyxelTilemap::new(high, wide, tile_height, tile_width, vec![]);
        assert!(!authored.check_sizes());
        assert!(!authored.is_importable());
        assert!(Tilemap::from_pyxeledit(atlas(), &authored).is_none());
    }
    assert!(PyxelTilemap::new(2, 2, 8, 8, vec![]).check_sizes());
}

#[test]
fn import_refuses_tiles_that_were_not_remodelled() {
    let authored = PyxelTilemap {
        tileshigh: 2,
        tileswide: 2,
        tile_height: 8,
        tile_width: 8,
        layers: vec![layer("map", vec![Tile::new(5, 0, 0, false, 0, 0)])],
    };
    assert!(!authored.is_importable());
    assert!(Tilemap::from_pyxeledit(atlas(), &authored).is_none());
}

#[test]
fn import_refuses_more_layers_than_there_are_indices() {
    let many: Vec<Layers> = (0..100).map(|_| layer("x", vec![])).collect();
    let authored = PyxelTilemap::new(1, 1, 8, 8, many);
    assert!(!authored.is_importable());
    let most: Vec<Layers> = (0..99).map(|_| layer("x", vec![])).collect();
    let authored = PyxelTilemap::new(1, 1, 8, 8, most);
    assert!(authored.is_importable());
    let map = Tilemap::from_pyxeledit(atlas(), &authored).unwrap();
    assert_eq!(map.get_layer_id("x"), 0);
    assert_eq!(map.get_layer_id("y"), NO_LAYER);
}

#[test]
fn import_refuses_an_atlas_that_cannot_be_cut() {
    let authored = PyxelTilemap::new(1, 1, 8, 8, vec![]);
    assert!(Tilemap::from_pyxeledit(Rect::new(i32::MAX, 0, 8, 8), &authored).is_none());
    assert!(Tilemap::from_pyxeledit(Rect::new(0, 0, 8, 8), &authored).is_some());
}

#[test]
fn texture_is_cut_row_by_row() {
    let catalog = get_tile_rectangles(352, 104, 8, 8);
    assert_eq!(catalog.len(), 572);
    assert_eq!(catalog[&0], Rect::new(0, 0, 8, 8));
    assert_eq!(catalog[&12], Rect::new(96, 0, 8, 8));
    assert_eq!(catalog[&13], Rect::new(0, 8, 8, 8));
    assert_eq!(catalog[&571], Rect::new(96, 344, 8, 8));
    assert!(!catalog.contains_key(&-1));
    assert!(!catalog.contains_key(&572));
    let flat = get_tile_rectangles(8, 32, 16, 8);
    assert_eq!(flat.len(), 2);
    assert_eq!(flat[&1], Rect::new(16, 0, 16, 8));
}

#[test]
fn old_query_reads_the_list_at_column_times_row() {
    let tiles: Vec<Tile> = (0..6).map(|i| Tile::new(10 + i, i % 3, i / 3, false, 0, 0)).collect();
    let authored = PyxelTilemap::new(2, 3, 8, 8, vec![layer("map", tiles)]);
    let first = &authored.layers[0];
    assert_eq!(authored.get_id_at_position(first, Vec2::new(0, 0)), Some(10));
    assert_eq!(authored.get_id_at_position(first, Vec2::new(20, 0)), Some(10));
    assert_eq!(authored.get_id_at_position(first, Vec2::new(9, 9)), Some(11));
    assert_eq!(authored.get_id_at_position(first, Vec2::new(16, 16)), Some(14));
    assert_eq!(authored.get_id_at_position(first, Vec2::new(24, 16)), None);
    assert_eq!(authored.get_id_at_position(first, Vec2::new(-1, 0)), None);
    assert_eq!(authored.get_id_at_position(first, Vec2::new(i32::MAX, i32::MAX)), None);
}
